//! Stateless geometric queries: pairwise proximity with a margin, and the
//! smallest distance between a composite shape and another shape.

use vstd::prelude::*;
use crate::kernels::{ball_ball_proximity, ball_ball_proximity_spec, simple_dist, simple_dist_spec,
    Proximity};
use crate::math::{in_range, Vec3, V3, COORD_MAX};
use crate::proximity::{classify_sdist, plane_sm_sdist, plane_sm_signed_dist};
use crate::shape::{Compound, CompoundPart, Shape, SimpleShape};

verus! {

/// Every part of the compound keeps its world pose within the coordinate
/// range under the given pose.
pub open spec fn compound_pose_ok(pose: Vec3, c: Compound) -> bool {
    forall|i: int|
        0 <= i < c.parts@.len() ==> in_range(
            pose.view().x + (#[trigger] c.parts@[i]).shift.view().x,
        ) && in_range(pose.view().y + c.parts@[i].shift.view().y) && in_range(
            pose.view().z + c.parts@[i].shift.view().z,
        )
}

/// The smallest distance between the first `upto` parts of a compound and
/// a posed primitive shape.
pub open spec fn compound_min_dist(
    parts: Seq<CompoundPart>,
    cpos: V3,
    s: SimpleShape,
    spos: V3,
    upto: int,
) -> int
    decreases upto,
{
    if upto <= 1 {
        simple_dist_spec(parts[0].shape, cpos.add(parts[0].shift.view()), s, spos)
    } else {
        let prev = compound_min_dist(parts, cpos, s, spos, upto - 1);
        let here = simple_dist_spec(parts[upto - 1].shape, cpos.add(parts[upto - 1].shift.view()), s, spos);
        if here < prev {
            here
        } else {
            prev
        }
    }
}

/// The world pose of part `i` of a posed compound.
pub open spec fn part_world_pose(cpos: Vec3, c: Compound, i: int) -> Vec3 {
    Vec3 {
        x: (cpos.view().x + c.parts@[i].shift.view().x) as i64,
        y: (cpos.view().y + c.parts@[i].shift.view().y) as i64,
        z: (cpos.view().z + c.parts@[i].shift.view().z) as i64,
    }
}

/// The smallest signed distance from a plane to the first `upto` parts of
/// a posed compound.
pub open spec fn plane_compound_min_sdist(
    n: Vec3,
    ppos: Vec3,
    c: Compound,
    cpos: Vec3,
    upto: int,
) -> int
    decreases upto,
{
    if upto <= 1 {
        plane_sm_sdist(n, ppos, c.parts@[0].shape, part_world_pose(cpos, c, 0))
    } else {
        let prev = plane_compound_min_sdist(n, ppos, c, cpos, upto - 1);
        let here = plane_sm_sdist(
            n,
            ppos,
            c.parts@[upto - 1].shape,
            part_world_pose(cpos, c, upto - 1),
        );
        if here < prev {
            here
        } else {
            prev
        }
    }
}

/// The smallest distance between the first `upto` parts of one posed
/// compound and all the parts of another.
pub open spec fn compound_pair_min_dist(
    c1: Compound,
    p1: Vec3,
    c2: Compound,
    p2: Vec3,
    upto: int,
) -> int
    decreases upto,
{
    if upto <= 1 {
        compound_min_dist(
            c2.parts@,
            p2.view(),
            c1.parts@[0].shape,
            p1.view().add(c1.parts@[0].shift.view()),
            c2.num_parts(),
        )
    } else {
        let prev = compound_pair_min_dist(c1, p1, c2, p2, upto - 1);
        let here = compound_min_dist(
            c2.parts@,
            p2.view(),
            c1.parts@[upto - 1].shape,
            p1.view().add(c1.parts@[upto - 1].shift.view()),
            c2.num_parts(),
        );
        if here < prev {
            here
        } else {
            prev
        }
    }
}

/// Smallest distance between a composite shape and a primitive shape.  The
/// composite must have at least one part: an empty composite is a
/// precondition violation, never a silent infinity.
pub fn composite_shape_against_shape(m1: &Vec3, g1: &Compound, m2: &Vec3, g2: &Shape) -> (r: i64)
    requires
        m1.wf(),
        g1.wf(),
        m2.wf(),
        g2.wf(),
        g1.num_parts() > 0,
        g2.is_ball() || g2.is_cuboid(),
        compound_pose_ok(*m1, *g1),
    ensures
        *g2 matches Shape::Simple(s2) && r as int == compound_min_dist(
            g1.parts@,
            m1.view(),
            s2,
            m2.view(),
            g1.num_parts(),
        ),
        r >= 0,
{
    let s2 = match g2 {
        Shape::Simple(s) => s,
        _ => {
            proof {
                assert(false);
            }
            return 0;
        },
    };
    let n = g1.parts.len();
    let p0 = &g1.parts[0];
    let pose0 = m1.add(p0.shift);
    let mut best = simple_dist(&p0.shape, &pose0, s2, m2);
    let mut i: usize = 1;
    while i < n
        invariant
            n == g1.parts@.len(),
            1 <= i <= n,
            m1.wf(),
            g1.wf(),
            m2.wf(),
            s2.wf(),
            !s2.is_plane(),
            compound_pose_ok(*m1, *g1),
            best >= 0,
            best as int == compound_min_dist(g1.parts@, m1.view(), *s2, m2.view(), i as int),
        decreases n - i,
    {
        let p = &g1.parts[i];
        let pose = m1.add(p.shift);
        let d = simple_dist(&p.shape, &pose, s2, m2);
        if d < best {
            best = d;
        }
        i = i + 1;
    }
    best
}

/// Smallest distance between a primitive shape and a composite shape.
pub fn shape_against_composite_shape(m1: &Vec3, g1: &Shape, m2: &Vec3, g2: &Compound) -> (r: i64)
    requires
        m1.wf(),
        g1.wf(),
        m2.wf(),
        g2.wf(),
        g2.num_parts() > 0,
        g1.is_ball() || g1.is_cuboid(),
        compound_pose_ok(*m2, *g2),
    ensures
        *g1 matches Shape::Simple(s1) && r as int == compound_min_dist(
            g2.parts@,
            m2.view(),
            s1,
            m1.view(),
            g2.num_parts(),
        ),
        r >= 0,
{
    composite_shape_against_shape(m2, g2, m1, g1)
}

/// The proximity query is defined for the pairs some branch of the
/// selection matrix covers; an uncovered pair is a programmer error, kept
/// out by precondition rather than a silent answer.
pub open spec fn proximity_dispatchable(a: Shape, b: Shape) -> bool {
    (a.is_ball() && b.is_ball()) || (a.is_plane() && b.is_support_map()) || (a.is_support_map()
        && b.is_plane()) || (a.is_support_map() && b.is_support_map()) || (a.is_composite_shape()
        && (b.is_plane() || b.is_support_map() || b.is_composite_shape())) || (b.is_composite_shape()
        && (a.is_plane() || a.is_support_map()))
}

/// The value the proximity query returns, branch by branch.
pub open spec fn shape_proximity_spec(ma: Vec3, a: Shape, mb: Vec3, b: Shape, margin: int) -> Proximity {
    if a.is_ball() && b.is_ball() {
        ball_ball_proximity_spec(ma.view(), a.spec_ball_radius(), mb.view(), b.spec_ball_radius(), margin)
    } else if a.is_plane() && b.is_support_map() {
        classify_sdist(plane_sm_sdist(a.spec_plane_normal(), ma, b.spec_simple(), mb), margin)
    } else if a.is_support_map() && b.is_plane() {
        classify_sdist(plane_sm_sdist(b.spec_plane_normal(), mb, a.spec_simple(), ma), margin)
    } else if a.is_support_map() && b.is_support_map() {
        classify_sdist(simple_dist_spec(a.spec_simple(), ma.view(), b.spec_simple(), mb.view()), margin)
    } else if a.is_composite_shape() {
        if b.is_plane() {
            classify_sdist(
                plane_compound_min_sdist(
                    b.spec_plane_normal(),
                    mb,
                    a.spec_compound(),
                    ma,
                    a.spec_compound().num_parts(),
                ),
                margin,
            )
        } else if b.is_composite_shape() {
            classify_sdist(
                compound_pair_min_dist(
                    a.spec_compound(),
                    ma,
                    b.spec_compound(),
                    mb,
                    a.spec_compound().num_parts(),
                ),
                margin,
            )
        } else {
            classify_sdist(
                compound_min_dist(
                    a.spec_compound().parts@,
                    ma.view(),
                    b.spec_simple(),
                    mb.view(),
                    a.spec_compound().num_parts(),
                ),
                margin,
            )
        }
    } else {
        if a.is_plane() {
            classify_sdist(
                plane_compound_min_sdist(
                    a.spec_plane_normal(),
                    ma,
                    b.spec_compound(),
                    mb,
                    b.spec_compound().num_parts(),
                ),
                margin,
            )
        } else {
            classify_sdist(
                compound_min_dist(
                    b.spec_compound().parts@,
                    mb.view(),
                    a.spec_simple(),
                    ma.view(),
                    b.spec_compound().num_parts(),
                ),
                margin,
            )
        }
    }
}

/// Tests whether two shapes are intersecting or separated by a distance
/// smaller than `margin`.
pub fn shape_against_shape(m1: &Vec3, g1: &Shape, m2: &Vec3, g2: &Shape, margin: i64) -> (r:
    Proximity)
    requires
        m1.wf(),
        g1.wf(),
        m2.wf(),
        g2.wf(),
        0 <= margin <= COORD_MAX as int,
        proximity_dispatchable(*g1, *g2),
        g1.is_composite_shape() ==> g1.spec_compound().num_parts() > 0 && compound_pose_ok(
            *m1,
            g1.spec_compound(),
        ),
        g2.is_composite_shape() ==> g2.spec_compound().num_parts() > 0 && compound_pose_ok(
            *m2,
            g2.spec_compound(),
        ),
    ensures
        r == shape_proximity_spec(*m1, *g1, *m2, *g2, margin as int),
{
    if let (Some(r1), Some(r2)) = (g1.as_ball(), g2.as_ball()) {
        ball_ball_proximity(m1, r1, m2, r2, margin)
    } else if g1.is_plane_shape() && g2.is_support_map_shape() {
        let n = g1.as_plane().unwrap();
        let sm = g2.as_support_map().unwrap();
        let sd = plane_sm_signed_dist(&n, m1, sm, m2);
        classify(sd, margin)
    } else if g1.is_support_map_shape() && g2.is_plane_shape() {
        let n = g2.as_plane().unwrap();
        let sm = g1.as_support_map().unwrap();
        let sd = plane_sm_signed_dist(&n, m2, sm, m1);
        classify(sd, margin)
    } else if g1.is_support_map_shape() && g2.is_support_map_shape() {
        let s1 = g1.as_support_map().unwrap();
        let s2 = g2.as_support_map().unwrap();
        let d = simple_dist(s1, m1, s2, m2);
        classify(d, margin)
    } else if let Some(c1) = g1.as_composite_shape() {
        if g2.is_plane_shape() {
            let sd = plane_compound_sdist(&g2.as_plane().unwrap(), m2, c1, m1);
            classify(sd, margin)
        } else if let Some(c2) = g2.as_composite_shape() {
            let d = compound_pair_dist(c1, m1, c2, m2);
            classify(d, margin)
        } else {
            let d = composite_shape_against_shape(m1, c1, m2, g2);
            classify(d, margin)
        }
    } else {
        let c2 = g2.as_composite_shape().unwrap();
        if g1.is_plane_shape() {
            let sd = plane_compound_sdist(&g1.as_plane().unwrap(), m1, c2, m2);
            classify(sd, margin)
        } else {
            let d = shape_against_composite_shape(m1, g1, m2, c2);
            classify(d, margin)
        }
    }
}

/// The smallest signed distance from a posed plane to the parts of a
/// posed compound.
fn plane_compound_sdist(n: &Vec3, ppos: &Vec3, c: &Compound, cpos: &Vec3) -> (sd: i64)
    requires
        n.wf(),
        !n.view().is_zero(),
        ppos.wf(),
        c.wf(),
        cpos.wf(),
        c.num_parts() > 0,
        compound_pose_ok(*cpos, *c),
    ensures
        sd as int == plane_compound_min_sdist(*n, *ppos, *c, *cpos, c.num_parts()),
{
    let nparts = c.parts.len();
    let p0 = &c.parts[0];
    let pose0 = cpos.add(p0.shift);
    proof {
        assert(in_range(cpos.view().x + c.parts@[0].shift.view().x) && in_range(
            cpos.view().y + c.parts@[0].shift.view().y,
        ) && in_range(cpos.view().z + c.parts@[0].shift.view().z));
        assert(pose0 == part_world_pose(*cpos, *c, 0));
    }
    let mut best = plane_sm_signed_dist(n, ppos, &p0.shape, &pose0);
    let mut i: usize = 1;
    while i < nparts
        invariant
            nparts == c.num_parts(),
            1 <= i <= nparts,
            n.wf(),
            !n.view().is_zero(),
            ppos.wf(),
            c.wf(),
            cpos.wf(),
            compound_pose_ok(*cpos, *c),
            best as int == plane_compound_min_sdist(*n, *ppos, *c, *cpos, i as int),
            -6_000_000_000 <= best <= 6_000_000_000,
        decreases nparts - i,
    {
        let p = &c.parts[i];
        let pose = cpos.add(p.shift);
        proof {
            assert(in_range(cpos.view().x + c.parts@[i as int].shift.view().x)
                && in_range(cpos.view().y + c.parts@[i as int].shift.view().y)
                && in_range(cpos.view().z + c.parts@[i as int].shift.view().z));
            assert(pose == part_world_pose(*cpos, *c, i as int));
        }
        let sd = plane_sm_signed_dist(n, ppos, &p.shape, &pose);
        if sd < best {
            best = sd;
        }
        i = i + 1;
    }
    best
}

/// The smallest distance between the parts of two posed compounds.
fn compound_pair_dist(c1: &Compound, p1: &Vec3, c2: &Compound, p2: &Vec3) -> (d: i64)
    requires
        c1.wf(),
        p1.wf(),
        c2.wf(),
        p2.wf(),
        c1.num_parts() > 0,
        c2.num_parts() > 0,
        compound_pose_ok(*p1, *c1),
        compound_pose_ok(*p2, *c2),
    ensures
        d as int == compound_pair_min_dist(*c1, *p1, *c2, *p2, c1.num_parts()),
        d >= 0,
{
    let nparts = c1.parts.len();
    let q0 = &c1.parts[0];
    let pose0 = p1.add(q0.shift);
    proof {
        assert(in_range(p1.view().x + c1.parts@[0].shift.view().x) && in_range(
            p1.view().y + c1.parts@[0].shift.view().y,
        ) && in_range(p1.view().z + c1.parts@[0].shift.view().z));
    }
    let shape0 = Shape::Simple(q0.shape);
    let mut best = composite_shape_against_shape(p2, c2, &pose0, &shape0);
    let mut i: usize = 1;
    while i < nparts
        invariant
            nparts == c1.num_parts(),
            1 <= i <= nparts,
            c1.wf(),
            p1.wf(),
            c2.wf(),
            p2.wf(),
            c2.num_parts() > 0,
            compound_pose_ok(*p1, *c1),
            compound_pose_ok(*p2, *c2),
            best >= 0,
            best as int == compound_pair_min_dist(*c1, *p1, *c2, *p2, i as int),
        decreases nparts - i,
    {
        let q = &c1.parts[i];
        let pose = p1.add(q.shift);
        proof {
            assert(in_range(p1.view().x + c1.parts@[i as int].shift.view().x)
                && in_range(p1.view().y + c1.parts@[i as int].shift.view().y)
                && in_range(p1.view().z + c1.parts@[i as int].shift.view().z));
        }
        let shape_i = Shape::Simple(q.shape);
        let di = composite_shape_against_shape(p2, c2, &pose, &shape_i);
        if di < best {
            best = di;
        }
        i = i + 1;
    }
    best
}

fn classify(sd: i64, margin: i64) -> (r: Proximity)
    ensures
        r == classify_sdist(sd as int, margin as int),
{
    if sd <= 0 {
        Proximity::Intersecting
    } else if sd <= margin {
        Proximity::WithinMargin
    } else {
        Proximity::Disjoint
    }
}

} // verus!
