//! The shape capability protocol: each shape answers optional typed views
//! (ball, plane, convex polyhedron, support map, composite, height-field),
//! and capability queries are pure accessors on the variant tag.
//!
//! Geometry is modelled exactly: a ball is a centre (the pose) and a radius,
//! a plane passes through its pose with a stored non-zero normal direction,
//! a cuboid is an axis-aligned box in its local frame, a height-field is a
//! row of cells with one top height per cell, and a compound is a list of
//! shifted primitive parts.

use vstd::prelude::*;
use crate::math::{in_range, Aabb, Vec3, V3, COORD_MAX};

verus! {

/// A primitive shape, usable as a composite sub-part.
#[derive(Clone, Copy, PartialEq, Eq, Structural, Debug)]
pub enum SimpleShape {
    Ball { radius: i64 },
    Plane { normal: Vec3 },
    Cuboid { mins: Vec3, maxs: Vec3 },
}

impl SimpleShape {
    pub open spec fn wf(self) -> bool {
        match self {
            SimpleShape::Ball { radius } => 0 < radius && radius <= COORD_MAX as int,
            SimpleShape::Plane { normal } => normal.wf() && !normal.view().is_zero(),
            SimpleShape::Cuboid { mins, maxs } => mins.wf() && maxs.wf() && mins.x <= maxs.x
                && mins.y <= maxs.y && mins.z <= maxs.z,
        }
    }

    pub open spec fn is_ball(self) -> bool {
        self is Ball
    }

    pub open spec fn is_plane(self) -> bool {
        self is Plane
    }

    pub open spec fn is_cuboid(self) -> bool {
        self is Cuboid
    }

    /// Support-map capability: balls and cuboids admit a support function.
    pub open spec fn is_support_map(self) -> bool {
        self is Ball || self is Cuboid
    }

    /// Smallest corner of the local bounding box (balls and cuboids).
    pub open spec fn local_mins(self) -> V3
        recommends
            !self.is_plane(),
    {
        match self {
            SimpleShape::Ball { radius } => V3 { x: -radius, y: -radius, z: -radius },
            SimpleShape::Cuboid { mins, .. } => mins.view(),
            SimpleShape::Plane { .. } => V3 { x: 0, y: 0, z: 0 },
        }
    }

    /// Largest corner of the local bounding box (balls and cuboids).
    pub open spec fn local_maxs(self) -> V3
        recommends
            !self.is_plane(),
    {
        match self {
            SimpleShape::Ball { radius } => V3 { x: radius as int, y: radius as int, z: radius as int },
            SimpleShape::Cuboid { mins: _, maxs } => maxs.view(),
            SimpleShape::Plane { .. } => V3 { x: 0, y: 0, z: 0 },
        }
    }

    /// Runtime test of well-formedness.
    pub fn wf_check(&self) -> (r: bool)
        ensures
            r == self.wf(),
    {
        match self {
            SimpleShape::Ball { radius } => 0 < *radius && *radius <= COORD_MAX,
            SimpleShape::Plane { normal } => normal.wf_check() && !normal.is_zero(),
            SimpleShape::Cuboid { mins, maxs } => mins.wf_check() && maxs.wf_check() && mins.x
                <= maxs.x && mins.y <= maxs.y && mins.z <= maxs.z,
        }
    }

    /// World bounding box under a translation pose.
    pub fn world_aabb(&self, pose: &Vec3) -> (r: Aabb)
        requires
            self.wf(),
            pose.wf(),
            !self.is_plane(),
        ensures
            r.mins.view() == self.local_mins().add(pose.view()),
            r.maxs.view() == self.local_maxs().add(pose.view()),
    {
        match self {
            SimpleShape::Ball { radius } => Aabb {
                mins: Vec3 { x: pose.x - *radius, y: pose.y - *radius, z: pose.z - *radius },
                maxs: Vec3 { x: pose.x + *radius, y: pose.y + *radius, z: pose.z + *radius },
            },
            SimpleShape::Cuboid { mins, maxs } => Aabb {
                mins: mins.add(*pose),
                maxs: maxs.add(*pose),
            },
            SimpleShape::Plane { .. } => Aabb { mins: *pose, maxs: *pose },
        }
    }
}

/// A row of height-field cells: cell `i` spans
/// `[i * cell_width, (i + 1) * cell_width]` along the first axis, rises from
/// `base` to `heights[i]` along the second, and spans `[z_min, z_max]` along
/// the third.
#[derive(Clone, PartialEq, Eq, Debug)]
pub struct HeightField {
    pub cell_width: i64,
    pub base: i64,
    pub z_min: i64,
    pub z_max: i64,
    pub heights: Vec<i64>,
}

impl HeightField {
    pub open spec fn wf(self) -> bool {
        0 < self.cell_width && self.cell_width * self.heights@.len() <= COORD_MAX as int
            && in_range(self.base as int) && in_range(self.z_min as int) && in_range(
            self.z_max as int,
        ) && self.z_min <= self.z_max && (forall|i: int|
            0 <= i < self.heights@.len() ==> in_range(#[trigger] self.heights@[i] as int)
                && self.base <= self.heights@[i])
    }

    pub open spec fn num_cells(self) -> int {
        self.heights@.len() as int
    }

    /// The largest of the base and the first `j` cell heights.
    pub open spec fn max_height(self, j: int) -> int
        decreases j,
    {
        if j <= 0 {
            self.base as int
        } else if self.heights@[j - 1] as int > self.max_height(j - 1) {
            self.heights@[j - 1] as int
        } else {
            self.max_height(j - 1)
        }
    }

    /// Smallest corner of cell `i`, in the height-field's local frame.
    pub open spec fn part_mins(self, i: int) -> V3 {
        V3 { x: i * self.cell_width, y: self.base as int, z: self.z_min as int }
    }

    /// Largest corner of cell `i`, in the height-field's local frame.
    pub open spec fn part_maxs(self, i: int) -> V3 {
        V3 { x: (i + 1) * self.cell_width, y: self.heights@[i] as int, z: self.z_max as int }
    }

    /// Cell `i` intersects the local-frame box `q` (touching counts).
    pub open spec fn part_intersects(self, i: int, q: Aabb) -> bool {
        self.part_mins(i).x <= q.maxs.x as int && q.mins.x as int <= self.part_maxs(i).x
            && self.part_mins(i).y <= q.maxs.y as int && q.mins.y as int <= self.part_maxs(i).y
            && self.part_mins(i).z <= q.maxs.z as int && q.mins.z as int <= self.part_maxs(i).z
    }

    /// Runtime test of well-formedness.
    pub fn wf_check(&self) -> (r: bool)
        ensures
            r == self.wf(),
    {
        if !(0 < self.cell_width) {
            return false;
        }
        if self.heights.len() > 0 {
            if self.cell_width > COORD_MAX {
                proof {
                    assert(self.cell_width * self.heights@.len() > COORD_MAX as int)
                        by (nonlinear_arith)
                        requires
                            self.cell_width > COORD_MAX as int,
                            self.heights@.len() >= 1,
                            COORD_MAX == 500_000_000i64,
                    ;
                }
                return false;
            }
            proof {
                assert(0 <= self.cell_width * self.heights@.len() <= 500_000_000int
                    * 0x1_0000_0000_0000_0000int && 500_000_000int * 0x1_0000_0000_0000_0000int
                    <= i128::MAX as int) by (nonlinear_arith)
                    requires
                        0 < self.cell_width <= 500_000_000,
                        0 <= self.heights@.len() < 0x1_0000_0000_0000_0000,
                ;
            }
            let prod: i128 = (self.cell_width as i128) * (self.heights.len() as i128);
            if !(prod <= COORD_MAX as i128) {
                return false;
            }
        } else {
            proof {
                assert(self.cell_width * self.heights@.len() == 0) by (nonlinear_arith)
                    requires
                        self.heights@.len() == 0,
                ;
            }
        }
        if !(-COORD_MAX <= self.base && self.base <= COORD_MAX && -COORD_MAX <= self.z_min
            && self.z_min <= COORD_MAX && -COORD_MAX <= self.z_max && self.z_max <= COORD_MAX
            && self.z_min <= self.z_max) {
            return false;
        }
        let n = self.heights.len();
        let mut i: usize = 0;
        while i < n
            invariant
                n == self.heights@.len(),
                0 <= i <= n,
                forall|j: int|
                    0 <= j < i ==> in_range(#[trigger] self.heights@[j] as int) && self.base
                        <= self.heights@[j],
            decreases n - i,
        {
            let h = self.heights[i];
            if !(-COORD_MAX <= h && h <= COORD_MAX && self.base <= h) {
                return false;
            }
            i = i + 1;
        }
        true
    }

    pub fn cell_count(&self) -> (r: usize)
        ensures
            r == self.num_cells(),
    {
        self.heights.len()
    }

    /// The cuboid geometry of cell `i`, in the local frame.
    pub fn part_shape(&self, i: usize) -> (r: SimpleShape)
        requires
            self.wf(),
            i < self.num_cells(),
        ensures
            r matches SimpleShape::Cuboid { mins, maxs } && mins.view() == self.part_mins(i as int)
                && maxs.view() == self.part_maxs(i as int),
            r.wf(),
            !r.is_plane(),
    {
        proof {
            assert(self.heights@.len() <= COORD_MAX as int) by (nonlinear_arith)
                requires
                    0 < self.cell_width,
                    self.cell_width * self.heights@.len() <= COORD_MAX as int,
            ;
            assert(0 <= (i as int) * self.cell_width && (i as int) * self.cell_width <= (i as int
                + 1) * self.cell_width <= self.cell_width * self.heights@.len())
                by (nonlinear_arith)
                requires
                    0 < self.cell_width,
                    0 <= (i as int),
                    (i as int) < self.heights@.len(),
            ;
        }
        let x0 = (i as i64) * self.cell_width;
        let x1 = (i as i64 + 1) * self.cell_width;
        SimpleShape::Cuboid {
            mins: Vec3 { x: x0, y: self.base, z: self.z_min },
            maxs: Vec3 { x: x1, y: self.heights[i], z: self.z_max },
        }
    }

    /// Indices of every cell whose box intersects `q`, in increasing order.
    pub fn cells_in_aabb(&self, q: &Aabb) -> (r: Vec<usize>)
        requires
            self.wf(),
        ensures
            forall|j: int|
                0 <= j < r@.len() ==> r@[j] < self.num_cells() && self.part_intersects(
                    r@[j] as int,
                    *q,
                ),
            forall|i: int|
                0 <= i < self.num_cells() && self.part_intersects(i, *q) ==> r@.contains(
                    i as usize,
                ),
            forall|j1: int, j2: int| 0 <= j1 < j2 < r@.len() ==> r@[j1] < r@[j2],
    {
        let mut out: Vec<usize> = Vec::new();
        let n = self.heights.len();
        let mut i: usize = 0;
        while i < n
            invariant
                n == self.num_cells(),
                0 <= i <= n,
                self.wf(),
                forall|j: int|
                    0 <= j < out@.len() ==> out@[j] < i && self.part_intersects(
                        out@[j] as int,
                        *q,
                    ),
                forall|c: int|
                    0 <= c < i && self.part_intersects(c, *q) ==> out@.contains(c as usize),
                forall|j1: int, j2: int| 0 <= j1 < j2 < out@.len() ==> out@[j1] < out@[j2],
            decreases n - i,
        {
            let part = self.part_shape(i);
            let pose = Vec3 { x: 0, y: 0, z: 0 };
            let pb = part.world_aabb(&pose);
            let ghost out0 = out@;
            let hit = pb.overlaps(q);
            proof {
                assert(hit == self.part_intersects(i as int, *q));
            }
            if hit {
                out.push(i);
                proof {
                    assert forall|c: usize| out0.contains(c) implies out@.contains(c) by {
                        let j = choose|j: int| 0 <= j < out0.len() && out0[j] == c;
                        assert(out@[j] == c);
                    }
                    assert(out@.contains(i)) by {
                        assert(out@[out@.len() - 1] == i);
                    }
                }
            }
            i = i + 1;
        }
        out
    }
}

/// One sub-part of a compound shape: a primitive placed at a local shift.
#[derive(Clone, Copy, PartialEq, Eq, Structural, Debug)]
pub struct CompoundPart {
    pub shift: Vec3,
    pub shape: SimpleShape,
}

/// A composite shape: primitive parts at local shifts.
#[derive(Clone, PartialEq, Eq, Debug)]
pub struct Compound {
    pub parts: Vec<CompoundPart>,
}

impl Compound {
    pub open spec fn wf(self) -> bool {
        forall|i: int|
            0 <= i < self.parts@.len() ==> (#[trigger] self.parts@[i]).shape.wf()
                && !self.parts@[i].shape.is_plane() && self.parts@[i].shift.wf() && in_range(
                self.parts@[i].shift.view().x + self.parts@[i].shape.local_mins().x,
            ) && in_range(self.parts@[i].shift.view().y + self.parts@[i].shape.local_mins().y)
                && in_range(self.parts@[i].shift.view().z + self.parts@[i].shape.local_mins().z)
                && in_range(self.parts@[i].shift.view().x + self.parts@[i].shape.local_maxs().x)
                && in_range(self.parts@[i].shift.view().y + self.parts@[i].shape.local_maxs().y)
                && in_range(self.parts@[i].shift.view().z + self.parts@[i].shape.local_maxs().z)
    }

    pub open spec fn num_parts(self) -> int {
        self.parts@.len() as int
    }

    /// Componentwise minimum corner over the first `j` part boxes (the
    /// origin for an empty compound).
    pub open spec fn fold_mins(self, j: int) -> V3
        decreases j,
    {
        if j <= 0 {
            V3 { x: 0, y: 0, z: 0 }
        } else {
            let p = self.fold_mins(j - 1);
            let b = self.parts@[j - 1].shape.local_mins().add(self.parts@[j - 1].shift.view());
            V3 {
                x: if j == 1 || b.x < p.x {
                    b.x
                } else {
                    p.x
                },
                y: if j == 1 || b.y < p.y {
                    b.y
                } else {
                    p.y
                },
                z: if j == 1 || b.z < p.z {
                    b.z
                } else {
                    p.z
                },
            }
        }
    }

    /// Componentwise maximum corner over the first `j` part boxes.
    pub open spec fn fold_maxs(self, j: int) -> V3
        decreases j,
    {
        if j <= 0 {
            V3 { x: 0, y: 0, z: 0 }
        } else {
            let p = self.fold_maxs(j - 1);
            let b = self.parts@[j - 1].shape.local_maxs().add(self.parts@[j - 1].shift.view());
            V3 {
                x: if j == 1 || b.x > p.x {
                    b.x
                } else {
                    p.x
                },
                y: if j == 1 || b.y > p.y {
                    b.y
                } else {
                    p.y
                },
                z: if j == 1 || b.z > p.z {
                    b.z
                } else {
                    p.z
                },
            }
        }
    }

    /// Runtime test of well-formedness.
    pub fn wf_check(&self) -> (r: bool)
        ensures
            r == self.wf(),
    {
        let n = self.parts.len();
        let mut i: usize = 0;
        while i < n
            invariant
                n == self.parts@.len(),
                0 <= i <= n,
                forall|j: int|
                    0 <= j < i ==> (#[trigger] self.parts@[j]).shape.wf()
                        && !self.parts@[j].shape.is_plane() && self.parts@[j].shift.wf() && in_range(
                        self.parts@[j].shift.view().x + self.parts@[j].shape.local_mins().x,
                    ) && in_range(self.parts@[j].shift.view().y + self.parts@[j].shape.local_mins().y)
                        && in_range(
                        self.parts@[j].shift.view().z + self.parts@[j].shape.local_mins().z,
                    ) && in_range(self.parts@[j].shift.view().x + self.parts@[j].shape.local_maxs().x)
                        && in_range(
                        self.parts@[j].shift.view().y + self.parts@[j].shape.local_maxs().y,
                    ) && in_range(self.parts@[j].shift.view().z + self.parts@[j].shape.local_maxs().z),
            decreases n - i,
        {
            let p = &self.parts[i];
            if !(p.shape.wf_check() && !matches!(p.shape, SimpleShape::Plane { .. })
                && p.shift.wf_check()) {
                return false;
            }
            let pb = p.shape.world_aabb(&p.shift);
            if !(pb.mins.wf_check() && pb.maxs.wf_check()) {
                return false;
            }
            i = i + 1;
        }
        true
    }

    pub fn part_count(&self) -> (r: usize)
        ensures
            r == self.num_parts(),
    {
        self.parts.len()
    }

    /// Smallest corner of part `i`'s box, in the compound's local frame.
    pub open spec fn part_mins(self, i: int) -> V3 {
        self.parts@[i].shape.local_mins().add(self.parts@[i].shift.view())
    }

    /// Largest corner of part `i`'s box, in the compound's local frame.
    pub open spec fn part_maxs(self, i: int) -> V3 {
        self.parts@[i].shape.local_maxs().add(self.parts@[i].shift.view())
    }

    /// Part `i`'s box intersects the local-frame box `q` (touching
    /// counts).
    pub open spec fn part_intersects(self, i: int, q: Aabb) -> bool {
        self.part_mins(i).x <= q.maxs.x as int && q.mins.x as int <= self.part_maxs(i).x
            && self.part_mins(i).y <= q.maxs.y as int && q.mins.y as int <= self.part_maxs(i).y
            && self.part_mins(i).z <= q.maxs.z as int && q.mins.z as int <= self.part_maxs(i).z
    }

    /// The shift and geometry of part `i`.
    pub fn part(&self, i: usize) -> (r: (Vec3, SimpleShape))
        requires
            i < self.num_parts(),
        ensures
            r.0 == self.parts@[i as int].shift,
            r.1 == self.parts@[i as int].shape,
    {
        let p = &self.parts[i];
        (p.shift, p.shape)
    }

    /// Indices of every part whose box intersects `q`, in increasing
    /// order.
    pub fn parts_in_aabb(&self, q: &Aabb) -> (r: Vec<usize>)
        requires
            self.wf(),
        ensures
            forall|j: int|
                0 <= j < r@.len() ==> r@[j] < self.num_parts() && self.part_intersects(
                    r@[j] as int,
                    *q,
                ),
            forall|i: int|
                0 <= i < self.num_parts() && self.part_intersects(i, *q) ==> r@.contains(
                    i as usize,
                ),
            forall|j1: int, j2: int| 0 <= j1 < j2 < r@.len() ==> r@[j1] < r@[j2],
    {
        let mut out: Vec<usize> = Vec::new();
        let n = self.parts.len();
        let mut i: usize = 0;
        while i < n
            invariant
                n == self.num_parts(),
                0 <= i <= n,
                self.wf(),
                forall|j: int|
                    0 <= j < out@.len() ==> out@[j] < i && self.part_intersects(
                        out@[j] as int,
                        *q,
                    ),
                forall|c: int|
                    0 <= c < i && self.part_intersects(c, *q) ==> out@.contains(c as usize),
                forall|j1: int, j2: int| 0 <= j1 < j2 < out@.len() ==> out@[j1] < out@[j2],
            decreases n - i,
        {
            let p = &self.parts[i];
            let pb = p.shape.world_aabb(&p.shift);
            let ghost out0 = out@;
            let hit = pb.overlaps(q);
            proof {
                assert(hit == self.part_intersects(i as int, *q));
            }
            if hit {
                out.push(i);
                proof {
                    assert forall|c: usize| out0.contains(c) implies out@.contains(c) by {
                        let j = choose|j: int| 0 <= j < out0.len() && out0[j] == c;
                        assert(out@[j] == c);
                    }
                    assert(out@.contains(i)) by {
                        assert(out@[out@.len() - 1] == i);
                    }
                }
            }
            i = i + 1;
        }
        out
    }
}

/// A shape of the pipeline: a primitive, a height-field, or a compound.
#[derive(Clone, PartialEq, Eq, Debug)]
pub enum Shape {
    Simple(SimpleShape),
    HeightField(HeightField),
    Compound(Compound),
}

impl Shape {
    pub open spec fn wf(self) -> bool {
        match self {
            Shape::Simple(s) => s.wf(),
            Shape::HeightField(h) => h.wf(),
            Shape::Compound(c) => c.wf(),
        }
    }

    pub open spec fn is_ball(self) -> bool {
        self matches Shape::Simple(s) && s.is_ball()
    }

    pub open spec fn is_plane(self) -> bool {
        self matches Shape::Simple(s) && s.is_plane()
    }

    pub open spec fn is_cuboid(self) -> bool {
        self matches Shape::Simple(s) && s.is_cuboid()
    }

    pub open spec fn is_support_map(self) -> bool {
        self matches Shape::Simple(s) && s.is_support_map()
    }

    /// Convex-polyhedron capability: the cuboid is the polyhedron with
    /// explicit support faces.
    pub open spec fn is_convex_polyhedron(self) -> bool {
        self.is_cuboid()
    }

    pub open spec fn is_height_field(self) -> bool {
        self is HeightField
    }

    pub open spec fn is_composite_shape(self) -> bool {
        self is Compound
    }

    pub open spec fn spec_ball_radius(self) -> int
        recommends
            self.is_ball(),
    {
        match self {
            Shape::Simple(SimpleShape::Ball { radius }) => radius as int,
            _ => 0,
        }
    }

    /// Runtime test of well-formedness.
    pub fn wf_check(&self) -> (r: bool)
        ensures
            r == self.wf(),
    {
        match self {
            Shape::Simple(s) => s.wf_check(),
            Shape::HeightField(h) => h.wf_check(),
            Shape::Compound(c) => c.wf_check(),
        }
    }

    /// Smallest corner of the shape's local bounding box (planes, which
    /// are unbounded, are out of this function's domain).
    pub open spec fn spec_local_mins(self) -> V3 {
        match self {
            Shape::Simple(s) => s.local_mins(),
            Shape::HeightField(h) => V3 { x: 0, y: h.base as int, z: h.z_min as int },
            Shape::Compound(c) => c.fold_mins(c.num_parts()),
        }
    }

    /// Largest corner of the shape's local bounding box.
    pub open spec fn spec_local_maxs(self) -> V3 {
        match self {
            Shape::Simple(s) => s.local_maxs(),
            Shape::HeightField(h) => V3 {
                x: h.num_cells() * h.cell_width,
                y: h.max_height(h.num_cells()),
                z: h.z_max as int,
            },
            Shape::Compound(c) => c.fold_maxs(c.num_parts()),
        }
    }

    /// The corners of the shape's local bounding box, within the
    /// coordinate range.
    pub fn local_bounds(&self) -> (r: (Vec3, Vec3))
        requires
            self.wf(),
            !self.is_plane(),
        ensures
            r.0.view() == self.spec_local_mins(),
            r.1.view() == self.spec_local_maxs(),
            in_range(r.0.view().x) && in_range(r.0.view().y) && in_range(r.0.view().z),
            in_range(r.1.view().x) && in_range(r.1.view().y) && in_range(r.1.view().z),
    {
        match self {
            Shape::Simple(s) => {
                let zero = Vec3 { x: 0, y: 0, z: 0 };
                let b = s.world_aabb(&zero);
                (b.mins, b.maxs)
            },
            Shape::HeightField(h) => {
                proof {
                    assert(h.heights@.len() <= COORD_MAX as int) by (nonlinear_arith)
                        requires
                            0 < h.cell_width,
                            h.cell_width * h.heights@.len() <= COORD_MAX as int,
                    ;
                    assert(0 <= h.heights@.len() * h.cell_width && h.heights@.len() * h.cell_width
                        == h.cell_width * h.heights@.len()) by (nonlinear_arith)
                        requires
                            0 < h.cell_width,
                            0 <= h.heights@.len(),
                    ;
                }
                let full = (h.heights.len() as i64) * h.cell_width;
                let n = h.heights.len();
                let mut maxh = h.base;
                let mut i: usize = 0;
                while i < n
                    invariant
                        n == h.heights@.len(),
                        0 <= i <= n,
                        h.wf(),
                        maxh as int == h.max_height(i as int),
                        in_range(maxh as int),
                    decreases n - i,
                {
                    let hv = h.heights[i];
                    if hv > maxh {
                        maxh = hv;
                    }
                    i = i + 1;
                }
                (Vec3 { x: 0, y: h.base, z: h.z_min }, Vec3 { x: full, y: maxh, z: h.z_max })
            },
            Shape::Compound(c) => {
                let n = c.parts.len();
                let mut lo = Vec3 { x: 0, y: 0, z: 0 };
                let mut hi = Vec3 { x: 0, y: 0, z: 0 };
                let mut i: usize = 0;
                while i < n
                    invariant
                        n == c.parts@.len(),
                        0 <= i <= n,
                        c.wf(),
                        lo.view() == c.fold_mins(i as int),
                        hi.view() == c.fold_maxs(i as int),
                        in_range(lo.view().x) && in_range(lo.view().y) && in_range(lo.view().z),
                        in_range(hi.view().x) && in_range(hi.view().y) && in_range(hi.view().z),
                    decreases n - i,
                {
                    let p = &c.parts[i];
                    let pb = p.shape.world_aabb(&p.shift);
                    lo = Vec3 {
                        x: if i == 0 || pb.mins.x < lo.x {
                            pb.mins.x
                        } else {
                            lo.x
                        },
                        y: if i == 0 || pb.mins.y < lo.y {
                            pb.mins.y
                        } else {
                            lo.y
                        },
                        z: if i == 0 || pb.mins.z < lo.z {
                            pb.mins.z
                        } else {
                            lo.z
                        },
                    };
                    hi = Vec3 {
                        x: if i == 0 || pb.maxs.x > hi.x {
                            pb.maxs.x
                        } else {
                            hi.x
                        },
                        y: if i == 0 || pb.maxs.y > hi.y {
                            pb.maxs.y
                        } else {
                            hi.y
                        },
                        z: if i == 0 || pb.maxs.z > hi.z {
                            pb.maxs.z
                        } else {
                            hi.z
                        },
                    };
                    i = i + 1;
                }
                (lo, hi)
            },
        }
    }

    /// The primitive view of a simple shape.
    pub open spec fn spec_simple(self) -> SimpleShape
        recommends
            self is Simple,
    {
        match self {
            Shape::Simple(s) => s,
            _ => arbitrary(),
        }
    }

    /// The compound view of a composite shape.
    pub open spec fn spec_compound(self) -> Compound
        recommends
            self.is_composite_shape(),
    {
        match self {
            Shape::Compound(c) => c,
            _ => arbitrary(),
        }
    }

    pub open spec fn spec_height_field(self) -> HeightField
        recommends
            self.is_height_field(),
    {
        match self {
            Shape::HeightField(h) => h,
            _ => arbitrary(),
        }
    }

    pub fn is_ball_shape(&self) -> (r: bool)
        ensures
            r == self.is_ball(),
    {
        matches!(self, Shape::Simple(SimpleShape::Ball { .. }))
    }

    pub fn is_plane_shape(&self) -> (r: bool)
        ensures
            r == self.is_plane(),
    {
        matches!(self, Shape::Simple(SimpleShape::Plane { .. }))
    }

    pub fn is_cuboid_shape(&self) -> (r: bool)
        ensures
            r == self.is_cuboid(),
    {
        matches!(self, Shape::Simple(SimpleShape::Cuboid { .. }))
    }

    pub fn is_support_map_shape(&self) -> (r: bool)
        ensures
            r == self.is_support_map(),
    {
        matches!(
            self,
            Shape::Simple(SimpleShape::Ball { .. }) | Shape::Simple(SimpleShape::Cuboid { .. })
        )
    }

    pub fn is_height_field_shape(&self) -> (r: bool)
        ensures
            r == self.is_height_field(),
    {
        matches!(self, Shape::HeightField(_))
    }

    pub fn is_composite(&self) -> (r: bool)
        ensures
            r == self.is_composite_shape(),
    {
        matches!(self, Shape::Compound(_))
    }

    pub fn as_ball(&self) -> (r: Option<i64>)
        ensures
            r.is_some() <==> self.is_ball(),
            r.is_some() ==> r.unwrap() as int == self.spec_ball_radius(),
    {
        match self {
            Shape::Simple(SimpleShape::Ball { radius }) => Some(*radius),
            _ => None,
        }
    }

    pub open spec fn spec_plane_normal(self) -> Vec3
        recommends
            self.is_plane(),
    {
        match self {
            Shape::Simple(SimpleShape::Plane { normal }) => normal,
            _ => Vec3 { x: 0, y: 0, z: 0 },
        }
    }

    pub fn as_plane(&self) -> (r: Option<Vec3>)
        ensures
            r.is_some() <==> self.is_plane(),
            r.is_some() ==> r.unwrap() == self.spec_plane_normal(),
    {
        match self {
            Shape::Simple(SimpleShape::Plane { normal }) => Some(*normal),
            _ => None,
        }
    }

    pub open spec fn spec_cuboid(self) -> (Vec3, Vec3)
        recommends
            self.is_cuboid(),
    {
        match self {
            Shape::Simple(SimpleShape::Cuboid { mins, maxs }) => (mins, maxs),
            _ => (Vec3 { x: 0, y: 0, z: 0 }, Vec3 { x: 0, y: 0, z: 0 }),
        }
    }

    pub fn as_cuboid(&self) -> (r: Option<(Vec3, Vec3)>)
        ensures
            r.is_some() <==> self.is_cuboid(),
            r.is_some() ==> r.unwrap() == self.spec_cuboid(),
    {
        match self {
            Shape::Simple(SimpleShape::Cuboid { mins, maxs }) => Some((*mins, *maxs)),
            _ => None,
        }
    }

    /// The convex-polyhedron view; cuboids qualify.
    pub fn as_convex_polyhedron(&self) -> (r: Option<(Vec3, Vec3)>)
        ensures
            r.is_some() <==> self.is_convex_polyhedron(),
            r.is_some() ==> r.unwrap() == self.spec_cuboid(),
    {
        self.as_cuboid()
    }

    pub fn as_support_map(&self) -> (r: Option<&SimpleShape>)
        ensures
            r.is_some() <==> self.is_support_map(),
            r.is_some() ==> (*self matches Shape::Simple(s) && *r.unwrap() == s),
    {
        match self {
            Shape::Simple(s) => if matches!(s, SimpleShape::Plane { .. }) {
                None
            } else {
                Some(s)
            },
            _ => None,
        }
    }

    pub fn as_height_field(&self) -> (r: Option<&HeightField>)
        ensures
            r.is_some() <==> self.is_height_field(),
            r.is_some() ==> (*self matches Shape::HeightField(h) && *r.unwrap() == h),
    {
        match self {
            Shape::HeightField(h) => Some(h),
            _ => None,
        }
    }

    pub fn as_composite_shape(&self) -> (r: Option<&Compound>)
        ensures
            r.is_some() <==> self.is_composite_shape(),
            r.is_some() ==> (*self matches Shape::Compound(c) && *r.unwrap() == c),
    {
        match self {
            Shape::Compound(c) => Some(c),
            _ => None,
        }
    }
}

} // verus!
