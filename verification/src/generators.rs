//! Contact-manifold generators for primitive shape pairs.
//!
//! Every generator follows the same protocol: it returns `false` exactly
//! when the shape capabilities do not match its domain (leaving the
//! manifold and the id allocator untouched), and `true` otherwise, having
//! pushed every contact within the prediction band.  `generate_contacts`
//! runs a full regeneration cycle; `emit_contacts` appends into an ongoing
//! cycle, which is how the composite generators collect several sub-parts
//! into one manifold.  Normals point from the first body toward the
//! second; in flipped mode the two sides are swapped before emission.
//! Sub-part identity is carried by the explicit part identifiers on each
//! tracked contact; the post-hoc contact-preprocessor hooks of other
//! formulations are not modelled.

use vstd::prelude::*;
use crate::contact::{Contact, ContactKinematic, ContactPrediction, FeatureId, LocalApprox,
    NeighborhoodGeometry};
use crate::ids::IdAllocator;
use crate::kernels::{ball_ball_contact, ball_ball_emitted, face_axis, face_corner,
    face_sign_positive, face_vertex, plane_point_sdist, plane_project, plane_project_spec,
    plane_sdist, support_face};
use crate::manifold::{emitted_into, fresh_ids_tracked, is_first_match, lemma_emitted_refl,
    lemma_emitted_trans, lemma_first_min_exists, lemma_push_emitted, lemma_single_push_fresh_ids,
    ContactManifold, TrackedContact, MAX_MANIFOLD_POINTS};
use crate::math::{Vec3, V3, COORD_MAX};
use crate::shape::Shape;

verus! {

/// Wellformedness of the inputs every generator receives.
pub open spec fn generator_inputs_wf(
    ma: Vec3,
    a: Shape,
    mb: Vec3,
    b: Shape,
    prediction: ContactPrediction,
    id_alloc: IdAllocator,
    manifold: ContactManifold,
) -> bool {
    ma.wf() && a.wf() && mb.wf() && b.wf() && prediction.wf() && id_alloc.wf() && manifold.wf()
}

/// The point kinematic both ball-centre contacts use: a point approximation
/// at each body's local origin, dilated by the given radii.
pub open spec fn point_kinematic_spec(d1: i64, d2: i64) -> ContactKinematic {
    ContactKinematic {
        approx1: LocalApprox {
            feature: FeatureId::Face(0),
            point: Vec3 { x: 0, y: 0, z: 0 },
            geom: NeighborhoodGeometry::Point,
        },
        approx2: LocalApprox {
            feature: FeatureId::Face(0),
            point: Vec3 { x: 0, y: 0, z: 0 },
            geom: NeighborhoodGeometry::Point,
        },
        dilation1: d1,
        dilation2: d2,
    }
}

/// Persistent collision detector between two balls.
#[derive(Clone, Copy, PartialEq, Eq, Structural, Debug)]
pub struct BallBallManifoldGenerator {
}

impl BallBallManifoldGenerator {
    /// Creates a new persistent collision detector between two balls.
    pub fn new() -> (r: BallBallManifoldGenerator)
        ensures
            r == (BallBallManifoldGenerator {  }),
    {
        BallBallManifoldGenerator {  }
    }

    /// Emits the ball-ball contact into an ongoing regeneration cycle:
    /// nothing is cleared first, so a composite generator can collect
    /// several sub-parts into one manifold.  At most one contact is
    /// appended, exactly when the centre distance stays within the radii
    /// plus the prediction band.
    pub fn emit_contacts(
        &mut self,
        part1: u64,
        part2: u64,
        ma: &Vec3,
        a: &Shape,
        mb: &Vec3,
        b: &Shape,
        prediction: &ContactPrediction,
        id_alloc: &mut IdAllocator,
        manifold: &mut ContactManifold,
    ) -> (accepted: bool)
        requires
            generator_inputs_wf(*ma, *a, *mb, *b, *prediction, *old(id_alloc), *old(manifold)),
        ensures
            *final(self) == *old(self),
            final(manifold).wf(),
            final(id_alloc).wf(),
            accepted == (a.is_ball() && b.is_ball()),
            !accepted ==> *final(manifold) == *old(manifold) && *final(id_alloc) == *old(id_alloc),
            accepted ==> final(manifold).subshape_id1 == old(manifold).subshape_id1
                && final(manifold).subshape_id2 == old(manifold).subshape_id2,
            accepted ==> emitted_into(
                old(manifold).points@,
                final(manifold).points@,
                part1,
                part2,
            ),
            accepted && old(manifold).points@.len() < MAX_MANIFOLD_POINTS as int
                ==> fresh_ids_tracked(*old(id_alloc), *final(id_alloc), final(manifold).points@),
            accepted && ball_ball_emitted(
                ma.view(),
                a.spec_ball_radius(),
                mb.view(),
                b.spec_ball_radius(),
                prediction.linear as int,
            ) ==> final(manifold).points@.len() >= 1,
            accepted && !ball_ball_emitted(
                ma.view(),
                a.spec_ball_radius(),
                mb.view(),
                b.spec_ball_radius(),
                prediction.linear as int,
            ) ==> *final(manifold) == *old(manifold) && *final(id_alloc) == *old(id_alloc),
            accepted && old(manifold).points@.len() == 0 ==> (final(manifold).points@.len()
                == if ball_ball_emitted(
                ma.view(),
                a.spec_ball_radius(),
                mb.view(),
                b.spec_ball_radius(),
                prediction.linear as int,
            ) {
                1int
            } else {
                0int
            }),
            accepted && old(manifold).points@.len() == 0 && final(manifold).points@.len() == 1
                ==> {
                let e = final(manifold).points@[0];
                e.fid1 == FeatureId::Face(0) && e.fid2 == FeatureId::Face(0) && e.part1 == part1
                    && e.part2 == part2 && e.contact.depth as int == crate::kernels::ball_ball_depth(
                    ma.view(),
                    a.spec_ball_radius(),
                    mb.view(),
                    b.spec_ball_radius(),
                ) && (mb.view().sub(ma.view()).norm2() > 0 ==> e.contact.normal.view()
                    == mb.view().sub(ma.view())) && e.contact.wf() && (exists|ra: i64, rb: i64|
                    ra as int == a.spec_ball_radius() && rb as int == b.spec_ball_radius()
                        && e.kinematic == point_kinematic_spec(ra, rb))
            },
            // tracking-id persistence: a cached contact with the same
            // feature pair hands its id on
            accepted && old(manifold).points@.len() == 0 && final(manifold).points@.len() == 1
                ==> (forall|k: int|
                is_first_match(
                    old(manifold).cache@,
                    part1,
                    FeatureId::Face(0),
                    part2,
                    FeatureId::Face(0),
                    k,
                ) ==> final(manifold).points@[0].id == old(manifold).cache@[k].id),
    {
        let (ra, rb) = match (a.as_ball(), b.as_ball()) {
            (Some(ra), Some(rb)) => (ra, rb),
            _ => {
                return false;
            },
        };
        if let Some(contact) = ball_ball_contact(ma, ra, mb, rb, prediction.linear) {
            let kinematic = point_point_kinematic(ra, rb);
            let ghost pts0 = manifold.points@;
            let ghost alloc0 = *id_alloc;
            let pushed = manifold.push(
                contact,
                kinematic,
                part1,
                FeatureId::Face(0),
                part2,
                FeatureId::Face(0),
                id_alloc,
            );
            proof {
                if pts0.len() >= MAX_MANIFOLD_POINTS as int {
                    lemma_first_min_exists(pts0);
                }
                let e = TrackedContact {
                    contact,
                    kinematic,
                    part1,
                    fid1: FeatureId::Face(0),
                    part2,
                    fid2: FeatureId::Face(0),
                    id: if pushed is Some {
                        pushed.unwrap()
                    } else {
                        0
                    },
                };
                if pushed is Some {
                    lemma_push_emitted(pts0, manifold.points@, e, part1, part2);
                }
                if pts0.len() < MAX_MANIFOLD_POINTS as int {
                    assert(manifold.points@ == pts0.push(e));
                    assert(manifold.points@[manifold.points@.len() - 1].id == pushed.unwrap());
                    lemma_single_push_fresh_ids(
                        alloc0,
                        *id_alloc,
                        manifold.points@,
                        pushed.unwrap(),
                    );
                }
            }
        }
        true
    }

    /// Generates the ball-ball manifold for a full regeneration cycle: the
    /// cycle is opened with `save_cache_and_clear`, then the contact (if
    /// any) is emitted; a cached contact with the same feature pair hands
    /// its tracking id on, and the ids of unmatched cached contacts are
    /// recycled.
    pub fn generate_contacts(
        &mut self,
        part1: u64,
        part2: u64,
        ma: &Vec3,
        a: &Shape,
        mb: &Vec3,
        b: &Shape,
        prediction: &ContactPrediction,
        id_alloc: &mut IdAllocator,
        manifold: &mut ContactManifold,
    ) -> (accepted: bool)
        requires
            generator_inputs_wf(*ma, *a, *mb, *b, *prediction, *old(id_alloc), *old(manifold)),
        ensures
            *final(self) == *old(self),
            final(manifold).wf(),
            final(id_alloc).wf(),
            accepted == (a.is_ball() && b.is_ball()),
            !accepted ==> *final(manifold) == *old(manifold) && *final(id_alloc) == *old(id_alloc),
            accepted ==> final(manifold).subshape_id1 == old(manifold).subshape_id1
                && final(manifold).subshape_id2 == old(manifold).subshape_id2,
            accepted ==> (final(manifold).points@.len() == if ball_ball_emitted(
                ma.view(),
                a.spec_ball_radius(),
                mb.view(),
                b.spec_ball_radius(),
                prediction.linear as int,
            ) {
                1int
            } else {
                0int
            }),
            accepted && final(manifold).points@.len() == 1 ==> {
                let e = final(manifold).points@[0];
                e.fid1 == FeatureId::Face(0) && e.fid2 == FeatureId::Face(0) && e.part1 == part1
                    && e.part2 == part2 && e.contact.depth as int == crate::kernels::ball_ball_depth(
                    ma.view(),
                    a.spec_ball_radius(),
                    mb.view(),
                    b.spec_ball_radius(),
                ) && (mb.view().sub(ma.view()).norm2() > 0 ==> e.contact.normal.view()
                    == mb.view().sub(ma.view())) && e.contact.wf() && (exists|ra: i64, rb: i64|
                    ra as int == a.spec_ball_radius() && rb as int == b.spec_ball_radius()
                        && e.kinematic == point_kinematic_spec(ra, rb))
            },
            // tracking-id persistence across the cycle
            accepted && final(manifold).points@.len() == 1 ==> (forall|k: int|
                is_first_match(
                    old(manifold).points@,
                    part1,
                    FeatureId::Face(0),
                    part2,
                    FeatureId::Face(0),
                    k,
                ) ==> final(manifold).points@[0].id == old(manifold).points@[k].id),
            // unmatched cached ids are recycled: released, or reused as a
            // fresh contact's tracking id
            accepted ==> (forall|i: int|
                0 <= i < old(manifold).cache@.len() ==> !final(id_alloc).is_live(
                    (#[trigger] old(manifold).cache@[i]).id,
                ) || exists|t: int|
                    0 <= t < final(manifold).points@.len() && (#[trigger] final(manifold).points@[t]).id == old(manifold).cache@[i].id),
    {
        if !(a.is_ball_shape() && b.is_ball_shape()) {
            return false;
        }
        manifold.save_cache_and_clear(id_alloc);
        let r = self.emit_contacts(part1, part2, ma, a, mb, b, prediction, id_alloc, manifold);
        proof {
            assert(r);
        }
        true
    }
}

/// The data a plane-face contact is made of: the face vertex in world
/// coordinates, its corner identifier, and its signed distance to the
/// plane.
pub ghost struct PlaneImage {
    pub v: V3,
    pub cid: int,
    pub sd: int,
}

/// The contacts a plane-cuboid update emits for the first `j` vertices of
/// the support face, in traversal order: one entry per vertex whose signed
/// distance stays within the prediction band.
pub open spec fn plane_face_expected(
    n: V3,
    ppos: V3,
    mins: V3,
    maxs: V3,
    cpos: V3,
    pred: int,
    j: int,
) -> Seq<PlaneImage>
    decreases j,
{
    if j <= 0 {
        Seq::empty()
    } else {
        let prev = plane_face_expected(n, ppos, mins, maxs, cpos, pred, j - 1);
        let k = face_axis(n.neg());
        let pos = face_sign_positive(n.neg());
        let v = face_vertex(mins, maxs, k, pos, j - 1).add(cpos);
        let sd = plane_point_sdist(n, ppos, v);
        if sd <= pred {
            prev.push(PlaneImage { v, cid: face_corner(k, pos, j - 1), sd })
        } else {
            prev
        }
    }
}

/// The fields a plane-side contact entry must carry for image `im`.
pub open spec fn plane_entry_matches(
    e: TrackedContact,
    im: PlaneImage,
    npl: Vec3,
    ppos: V3,
    cpos: V3,
    flip: bool,
    part1: u64,
    part2: u64,
) -> bool {
    e.part1 == part1 && e.part2 == part2 && e.contact.depth as int == -im.sd && e.contact.wf() && (if !flip {
        e.contact.normal == npl && e.contact.world2.view() == im.v && e.contact.world1.view()
            == plane_project_spec(npl.view(), im.v, im.sd) && e.fid1 == FeatureId::Face(0)
            && e.fid2 == FeatureId::Vertex(im.cid as u64) && e.kinematic.approx1.geom
            == NeighborhoodGeometry::Plane(npl) && e.kinematic.approx2.geom
            == NeighborhoodGeometry::Point
    } else {
        e.contact.normal.view() == npl.view().neg() && e.contact.world1.view() == im.v
            && e.contact.world2.view() == plane_project_spec(npl.view(), im.v, im.sd) && e.fid1
            == FeatureId::Vertex(im.cid as u64) && e.fid2 == FeatureId::Face(0)
            && e.kinematic.approx2.geom == NeighborhoodGeometry::Plane(npl)
            && e.kinematic.approx1.geom == NeighborhoodGeometry::Point
    })
}

/// Persistent collision detector between a plane and a shape with a
/// support function (a cuboid, whose support face is enumerated vertex by
/// vertex, or a ball, which contributes its single support point).
#[derive(Clone, Copy, PartialEq, Eq, Structural, Debug)]
pub struct PlaneConvexPolyhedronManifoldGenerator {
    pub flip: bool,
}

impl PlaneConvexPolyhedronManifoldGenerator {
    /// The same generator seen from the other side.
    pub open spec fn spec_flipped(self) -> PlaneConvexPolyhedronManifoldGenerator {
        PlaneConvexPolyhedronManifoldGenerator { flip: !self.flip }
    }

    /// Returns the generator with the two bodies swapped.
    pub fn flipped(&self) -> (r: PlaneConvexPolyhedronManifoldGenerator)
        ensures
            r == self.spec_flipped(),
    {
        PlaneConvexPolyhedronManifoldGenerator { flip: !self.flip }
    }

    /// Creates a new persistent collision detector between a plane and a
    /// convex shape; `flip` means the plane is the second body.
    pub fn new(flip: bool) -> (r: PlaneConvexPolyhedronManifoldGenerator)
        ensures
            r == (PlaneConvexPolyhedronManifoldGenerator { flip }),
    {
        PlaneConvexPolyhedronManifoldGenerator { flip }
    }

    /// Emits the plane-convex contacts into an ongoing regeneration cycle:
    /// nothing is cleared first.  For a cuboid, the support face opposite
    /// the plane normal is walked in a fixed vertex order and a contact is
    /// appended for exactly the vertices whose signed distance stays within
    /// the prediction band; for a ball, its single support point is the
    /// candidate.  Normals are the plane normal, oriented from the first
    /// body to the second.
    pub fn emit_contacts(
        &mut self,
        part1: u64,
        part2: u64,
        ma: &Vec3,
        a: &Shape,
        mb: &Vec3,
        b: &Shape,
        prediction: &ContactPrediction,
        id_alloc: &mut IdAllocator,
        manifold: &mut ContactManifold,
    ) -> (accepted: bool)
        requires
            generator_inputs_wf(*ma, *a, *mb, *b, *prediction, *old(id_alloc), *old(manifold)),
        ensures
            *final(self) == *old(self),
            final(manifold).wf(),
            final(id_alloc).wf(),
            accepted == if !old(self).flip {
                a.is_plane() && b.is_support_map()
            } else {
                b.is_plane() && a.is_support_map()
            },
            !accepted ==> *final(manifold) == *old(manifold) && *final(id_alloc) == *old(id_alloc),
            accepted ==> final(manifold).subshape_id1 == old(manifold).subshape_id1
                && final(manifold).subshape_id2 == old(manifold).subshape_id2,
            accepted ==> emitted_into(
                old(manifold).points@,
                final(manifold).points@,
                part1,
                part2,
            ),
            accepted && old(manifold).points@.len() == 0 ==> fresh_ids_tracked(
                *old(id_alloc),
                *final(id_alloc),
                final(manifold).points@,
            ),
            // cuboid arm: exact contents when the cycle starts empty
            accepted && (if !old(self).flip {
                b.is_cuboid()
            } else {
                a.is_cuboid()
            }) ==> {
                let ppos = if !old(self).flip {
                    ma.view()
                } else {
                    mb.view()
                };
                let cpos = if !old(self).flip {
                    mb.view()
                } else {
                    ma.view()
                };
                let npl = if !old(self).flip {
                    a.spec_plane_normal()
                } else {
                    b.spec_plane_normal()
                };
                let cub = if !old(self).flip {
                    b.spec_cuboid()
                } else {
                    a.spec_cuboid()
                };
                let expect = plane_face_expected(
                    npl.view(),
                    ppos,
                    cub.0.view(),
                    cub.1.view(),
                    cpos,
                    prediction.linear as int,
                    4,
                );
                &&& (expect.len() > 0 ==> final(manifold).points@.len() >= 1)
                &&& (old(manifold).points@.len() == 0 ==> final(manifold).points@.len()
                    == expect.len() && (forall|idx: int|
                    0 <= idx < expect.len() ==> plane_entry_matches(
                        #[trigger] final(manifold).points@[idx],
                        expect[idx],
                        npl,
                        ppos,
                        cpos,
                        old(self).flip,
                        part1,
                        part2,
                    )))
                &&& (old(manifold).points@.len() == 0 && expect.len() > 0 ==> (forall|k: int|
                    is_first_match(
                        old(manifold).cache@,
                        part1,
                        if !old(self).flip {
                            FeatureId::Face(0)
                        } else {
                            FeatureId::Vertex(expect[0].cid as u64)
                        },
                        part2,
                        if !old(self).flip {
                            FeatureId::Vertex(expect[0].cid as u64)
                        } else {
                            FeatureId::Face(0)
                        },
                        k,
                    ) ==> final(manifold).points@[0].id == old(manifold).cache@[k].id))
            },
            // ball arm: the single support-point candidate
            accepted && (if !old(self).flip {
                b.is_ball()
            } else {
                a.is_ball()
            }) ==> {
                let ppos = if !old(self).flip {
                    ma.view()
                } else {
                    mb.view()
                };
                let opos = if !old(self).flip {
                    mb.view()
                } else {
                    ma.view()
                };
                let npl = if !old(self).flip {
                    a.spec_plane_normal()
                } else {
                    b.spec_plane_normal()
                };
                let rb = if !old(self).flip {
                    b.spec_ball_radius()
                } else {
                    a.spec_ball_radius()
                };
                let sp = plane_project_spec(npl.view(), opos, rb);
                let sd = plane_point_sdist(npl.view(), ppos, sp);
                &&& (sd <= prediction.linear as int ==> final(manifold).points@.len() >= 1)
                &&& (old(manifold).points@.len() == 0 ==> final(manifold).points@.len() == (
                if sd <= prediction.linear as int {
                    1int
                } else {
                    0int
                }))
                &&& (old(manifold).points@.len() == 0 && final(manifold).points@.len() == 1 ==> {
                    let e = final(manifold).points@[0];
                    &&& e.part1 == part1
                    &&& e.part2 == part2
                    &&& e.fid1 == FeatureId::Face(0)
                    &&& e.fid2 == FeatureId::Face(0)
                    &&& e.contact.depth as int == -sd
                    &&& e.contact.wf()
                    &&& (!old(self).flip ==> e.contact.normal == npl && e.contact.world2.view()
                        == sp && e.contact.world1.view() == plane_project_spec(npl.view(), sp, sd)
                        && e.kinematic.dilation1 == 0 && e.kinematic.dilation2 as int == rb
                        && e.kinematic.approx1.geom == NeighborhoodGeometry::Plane(npl)
                        && e.kinematic.approx2.geom == NeighborhoodGeometry::Point)
                    &&& (old(self).flip ==> e.contact.normal.view() == npl.view().neg()
                        && e.contact.world1.view() == sp && e.contact.world2.view()
                        == plane_project_spec(npl.view(), sp, sd) && e.kinematic.dilation2 == 0
                        && e.kinematic.dilation1 as int == rb && e.kinematic.approx2.geom
                        == NeighborhoodGeometry::Plane(npl) && e.kinematic.approx1.geom
                        == NeighborhoodGeometry::Point)
                })
                &&& (old(manifold).points@.len() == 0 && final(manifold).points@.len() == 1
                    ==> (forall|k: int|
                    is_first_match(
                        old(manifold).cache@,
                        part1,
                        FeatureId::Face(0),
                        part2,
                        FeatureId::Face(0),
                        k,
                    ) ==> final(manifold).points@[0].id == old(manifold).cache@[k].id))
            },
    {
        let flip = self.flip;
        let (plane_pose, plane_shape, other_pose, other_shape) = if !flip {
            (ma, a, mb, b)
        } else {
            (mb, b, ma, a)
        };
        let npl = match plane_shape.as_plane() {
            Some(n) => n,
            None => {
                return false;
            },
        };
        if let Some((cmins, cmaxs)) = other_shape.as_cuboid() {
            let dir = npl.neg();
            let face = support_face(&cmins, &cmaxs, other_pose, &dir);
            let ghost ppos = plane_pose.view();
            let ghost cpos = other_pose.view();
            let ghost nv = npl.view();
            let ghost pred = prediction.linear as int;
            let ghost pts0 = manifold.points@;
            let ghost cache0 = manifold.cache@;
            let ghost alloc0 = *id_alloc;
            let mut j: usize = 0;
            while j < 4
                invariant
                    0 <= j <= 4,
                    npl.wf(),
                    !nv.is_zero(),
                    nv == npl.view(),
                    face@.len() == 4,
                    forall|t: int|
                        0 <= t < 4 ==> (#[trigger] face@[t]).0.view() == face_vertex(
                            cmins.view(),
                            cmaxs.view(),
                            face_axis(nv.neg()),
                            face_sign_positive(nv.neg()),
                            t,
                        ).add(cpos) && face@[t].1 as int == face_corner(
                            face_axis(nv.neg()),
                            face_sign_positive(nv.neg()),
                            t,
                        ),
                    cmins.wf(),
                    cmaxs.wf(),
                    plane_pose.wf(),
                    other_pose.wf(),
                    ppos == plane_pose.view(),
                    cpos == other_pose.view(),
                    -(COORD_MAX as int) <= pred <= COORD_MAX as int,
                    pred == prediction.linear as int,
                    id_alloc.wf(),
                    manifold.wf(),
                    manifold.subshape_id1 == old(manifold).subshape_id1,
                    manifold.subshape_id2 == old(manifold).subshape_id2,
                    pts0 == old(manifold).points@,
                    cache0 == old(manifold).cache@,
                    alloc0 == *old(id_alloc),
                    flip == old(self).flip,
                    emitted_into(pts0, manifold.points@, part1, part2),
                    pts0.len() == 0 ==> fresh_ids_tracked(alloc0, *id_alloc, manifold.points@),
                    plane_face_expected(
                        nv,
                        ppos,
                        cmins.view(),
                        cmaxs.view(),
                        cpos,
                        pred,
                        j as int,
                    ).len() > 0 ==> manifold.points@.len() >= 1,
                    pts0.len() == 0 ==> manifold.points@.len() == plane_face_expected(
                        nv,
                        ppos,
                        cmins.view(),
                        cmaxs.view(),
                        cpos,
                        pred,
                        j as int,
                    ).len() && manifold.points@.len() <= j,
                    pts0.len() == 0 ==> (forall|idx: int|
                        0 <= idx < manifold.points@.len() ==> plane_entry_matches(
                            manifold.points@[idx],
                            plane_face_expected(
                                nv,
                                ppos,
                                cmins.view(),
                                cmaxs.view(),
                                cpos,
                                pred,
                                j as int,
                            )[idx],
                            npl,
                            ppos,
                            cpos,
                            flip,
                            part1,
                            part2,
                        )),
                    pts0.len() == 0 && plane_face_expected(
                        nv,
                        ppos,
                        cmins.view(),
                        cmaxs.view(),
                        cpos,
                        pred,
                        j as int,
                    ).len() == 0 ==> manifold.cache@ == cache0,
                    pts0.len() == 0 && plane_face_expected(
                        nv,
                        ppos,
                        cmins.view(),
                        cmaxs.view(),
                        cpos,
                        pred,
                        j as int,
                    ).len() > 0 ==> (forall|k: int|
                        is_first_match(
                            cache0,
                            part1,
                            if !flip {
                                FeatureId::Face(0)
                            } else {
                                FeatureId::Vertex(
                                    plane_face_expected(
                                        nv,
                                        ppos,
                                        cmins.view(),
                                        cmaxs.view(),
                                        cpos,
                                        pred,
                                        j as int,
                                    )[0].cid as u64,
                                )
                            },
                            part2,
                            if !flip {
                                FeatureId::Vertex(
                                    plane_face_expected(
                                        nv,
                                        ppos,
                                        cmins.view(),
                                        cmaxs.view(),
                                        cpos,
                                        pred,
                                        j as int,
                                    )[0].cid as u64,
                                )
                            } else {
                                FeatureId::Face(0)
                            },
                            k,
                        ) ==> manifold.points@[0].id == cache0[k].id),
                decreases 4 - j,
            {
                let ghost expect_j = plane_face_expected(
                    nv,
                    ppos,
                    cmins.view(),
                    cmaxs.view(),
                    cpos,
                    pred,
                    j as int,
                );
                let (v, cid) = face[j];
                let sd = plane_sdist(&npl, plane_pose, &v);
                if sd <= prediction.linear {
                    let w1 = plane_project(&npl, &v, sd);
                    let vloc = Vec3 {
                        x: v.x - other_pose.x,
                        y: v.y - other_pose.y,
                        z: v.z - other_pose.z,
                    };
                    let vpl = Vec3 {
                        x: v.x - plane_pose.x,
                        y: v.y - plane_pose.y,
                        z: v.z - plane_pose.z,
                    };
                    let w1loc = plane_project(&npl, &vpl, sd);
                    let plane_approx = LocalApprox {
                        feature: FeatureId::Face(0),
                        point: w1loc,
                        geom: NeighborhoodGeometry::Plane(npl),
                    };
                    let vert_approx = LocalApprox {
                        feature: FeatureId::Vertex(cid),
                        point: vloc,
                        geom: NeighborhoodGeometry::Point,
                    };
                    let (contact, kinematic, f1, f2) = if !flip {
                        (
                            Contact { world1: w1, world2: v, normal: npl, depth: -sd },
                            ContactKinematic {
                                approx1: plane_approx,
                                approx2: vert_approx,
                                dilation1: 0,
                                dilation2: 0,
                            },
                            FeatureId::Face(0),
                            FeatureId::Vertex(cid),
                        )
                    } else {
                        (
                            Contact { world1: v, world2: w1, normal: npl.neg(), depth: -sd },
                            ContactKinematic {
                                approx1: vert_approx,
                                approx2: plane_approx,
                                dilation1: 0,
                                dilation2: 0,
                            },
                            FeatureId::Vertex(cid),
                            FeatureId::Face(0),
                        )
                    };
                    let ghost ptsb = manifold.points@;
                    let ghost allocb = *id_alloc;
                    let pushed = manifold.push(contact, kinematic, part1, f1, part2, f2, id_alloc);
                    proof {
                        crate::kernels::lemma_norm2_pos(nv);
                        let e = TrackedContact {
                            contact,
                            kinematic,
                            part1,
                            fid1: f1,
                            part2,
                            fid2: f2,
                            id: if pushed is Some {
                                pushed.unwrap()
                            } else {
                                0
                            },
                        };
                        if ptsb.len() >= MAX_MANIFOLD_POINTS as int {
                            lemma_first_min_exists(ptsb);
                        }
                        if pushed is Some {
                            lemma_push_emitted(ptsb, manifold.points@, e, part1, part2);
                        } else {
                            lemma_emitted_refl(manifold.points@, part1, part2);
                        }
                        lemma_emitted_trans(pts0, ptsb, manifold.points@, part1, part2);
                        if pts0.len() == 0 {
                            assert(manifold.points@ == ptsb.push(e));
                            assert forall|o: u64|
                                !alloc0.is_live(o) && #[trigger] id_alloc.is_live(o) implies exists|
                                t: int,
                            |
                                0 <= t < manifold.points@.len() && (#[trigger] manifold.points@[t]).id
                                    == o by {
                                if allocb.is_live(o) {
                                    let t = choose|t: int|
                                        0 <= t < ptsb.len() && (#[trigger] ptsb[t]).id == o;
                                    assert(manifold.points@[t].id == o);
                                } else {
                                    assert(o == pushed.unwrap());
                                    assert(manifold.points@[manifold.points@.len() - 1].id == o);
                                }
                            }
                        }
                    }
                }
                j = j + 1;
            }
            true
        } else if let Some(rb) = other_shape.as_ball() {
            let ghost pts0 = manifold.points@;
            let ghost cache0 = manifold.cache@;
            let ghost alloc0 = *id_alloc;
            let sp = plane_project(&npl, other_pose, rb);
            proof {
                lemma_project_stays_close(npl.view(), other_pose.view(), rb as int);
            }
            let sd = plane_sdist(&npl, plane_pose, &sp);
            if sd <= prediction.linear {
                let w1 = plane_project(&npl, &sp, sd);
                let (contact, f1, f2) = if !flip {
                    (Contact { world1: w1, world2: sp, normal: npl, depth: -sd },
                        FeatureId::Face(0), FeatureId::Face(0))
                } else {
                    (Contact { world1: sp, world2: w1, normal: npl.neg(), depth: -sd },
                        FeatureId::Face(0), FeatureId::Face(0))
                };
                let kinematic = ContactKinematic {
                    approx1: LocalApprox {
                        feature: f1,
                        point: Vec3 { x: 0, y: 0, z: 0 },
                        geom: if !flip {
                            NeighborhoodGeometry::Plane(npl)
                        } else {
                            NeighborhoodGeometry::Point
                        },
                    },
                    approx2: LocalApprox {
                        feature: f2,
                        point: Vec3 { x: 0, y: 0, z: 0 },
                        geom: if !flip {
                            NeighborhoodGeometry::Point
                        } else {
                            NeighborhoodGeometry::Plane(npl)
                        },
                    },
                    dilation1: if !flip {
                        0
                    } else {
                        rb
                    },
                    dilation2: if !flip {
                        rb
                    } else {
                        0
                    },
                };
                let pushed = manifold.push(contact, kinematic, part1, f1, part2, f2, id_alloc);
                proof {
                    crate::kernels::lemma_norm2_pos(npl.view());
                    let e = TrackedContact {
                        contact,
                        kinematic,
                        part1,
                        fid1: f1,
                        part2,
                        fid2: f2,
                        id: if pushed is Some {
                            pushed.unwrap()
                        } else {
                            0
                        },
                    };
                    if pts0.len() >= MAX_MANIFOLD_POINTS as int {
                        lemma_first_min_exists(pts0);
                    }
                    if pushed is Some {
                        lemma_push_emitted(pts0, manifold.points@, e, part1, part2);
                    } else {
                        lemma_emitted_refl(manifold.points@, part1, part2);
                    }
                    if pts0.len() == 0 {
                        assert(manifold.points@ == pts0.push(e));
                        lemma_single_push_fresh_ids(
                            alloc0,
                            *id_alloc,
                            manifold.points@,
                            pushed.unwrap(),
                        );
                    }
                }
            } else {
                proof {
                    lemma_emitted_refl(manifold.points@, part1, part2);
                }
            }
            true
        } else {
            false
        }
    }

    /// Generates the plane-convex manifold for a full regeneration cycle:
    /// the cycle is opened with `save_cache_and_clear`, then the contacts
    /// are emitted; cached contacts with matching feature pairs hand their
    /// tracking ids on, and the ids of unmatched cached contacts are
    /// recycled.
    pub fn generate_contacts(
        &mut self,
        part1: u64,
        part2: u64,
        ma: &Vec3,
        a: &Shape,
        mb: &Vec3,
        b: &Shape,
        prediction: &ContactPrediction,
        id_alloc: &mut IdAllocator,
        manifold: &mut ContactManifold,
    ) -> (accepted: bool)
        requires
            generator_inputs_wf(*ma, *a, *mb, *b, *prediction, *old(id_alloc), *old(manifold)),
        ensures
            *final(self) == *old(self),
            final(manifold).wf(),
            final(id_alloc).wf(),
            accepted == if !old(self).flip {
                a.is_plane() && b.is_support_map()
            } else {
                b.is_plane() && a.is_support_map()
            },
            !accepted ==> *final(manifold) == *old(manifold) && *final(id_alloc) == *old(id_alloc),
            accepted ==> final(manifold).subshape_id1 == old(manifold).subshape_id1
                && final(manifold).subshape_id2 == old(manifold).subshape_id2,
            accepted && (if !old(self).flip {
                b.is_cuboid()
            } else {
                a.is_cuboid()
            }) ==> {
                let ppos = if !old(self).flip {
                    ma.view()
                } else {
                    mb.view()
                };
                let cpos = if !old(self).flip {
                    mb.view()
                } else {
                    ma.view()
                };
                let npl = if !old(self).flip {
                    a.spec_plane_normal()
                } else {
                    b.spec_plane_normal()
                };
                let cub = if !old(self).flip {
                    b.spec_cuboid()
                } else {
                    a.spec_cuboid()
                };
                let expect = plane_face_expected(
                    npl.view(),
                    ppos,
                    cub.0.view(),
                    cub.1.view(),
                    cpos,
                    prediction.linear as int,
                    4,
                );
                &&& final(manifold).points@.len() == expect.len()
                &&& (forall|idx: int|
                    0 <= idx < expect.len() ==> plane_entry_matches(
                        #[trigger] final(manifold).points@[idx],
                        expect[idx],
                        npl,
                        ppos,
                        cpos,
                        old(self).flip,
                        part1,
                        part2,
                    ))
                &&& (expect.len() > 0 ==> (forall|k: int|
                    is_first_match(
                        old(manifold).points@,
                        part1,
                        if !old(self).flip {
                            FeatureId::Face(0)
                        } else {
                            FeatureId::Vertex(expect[0].cid as u64)
                        },
                        part2,
                        if !old(self).flip {
                            FeatureId::Vertex(expect[0].cid as u64)
                        } else {
                            FeatureId::Face(0)
                        },
                        k,
                    ) ==> final(manifold).points@[0].id == old(manifold).points@[k].id))
            },
            accepted && (if !old(self).flip {
                b.is_ball()
            } else {
                a.is_ball()
            }) ==> {
                let ppos = if !old(self).flip {
                    ma.view()
                } else {
                    mb.view()
                };
                let opos = if !old(self).flip {
                    mb.view()
                } else {
                    ma.view()
                };
                let npl = if !old(self).flip {
                    a.spec_plane_normal()
                } else {
                    b.spec_plane_normal()
                };
                let rb = if !old(self).flip {
                    b.spec_ball_radius()
                } else {
                    a.spec_ball_radius()
                };
                let sp = plane_project_spec(npl.view(), opos, rb);
                let sd = plane_point_sdist(npl.view(), ppos, sp);
                &&& final(manifold).points@.len() == (if sd <= prediction.linear as int {
                    1int
                } else {
                    0int
                })
                &&& (final(manifold).points@.len() == 1 ==> {
                    let e = final(manifold).points@[0];
                    &&& e.part1 == part1
                    &&& e.part2 == part2
                    &&& e.fid1 == FeatureId::Face(0)
                    &&& e.fid2 == FeatureId::Face(0)
                    &&& e.contact.depth as int == -sd
                    &&& e.contact.wf()
                    &&& (!old(self).flip ==> e.contact.normal == npl && e.contact.world2.view()
                        == sp && e.contact.world1.view() == plane_project_spec(npl.view(), sp, sd)
                        && e.kinematic.dilation1 == 0 && e.kinematic.dilation2 as int == rb
                        && e.kinematic.approx1.geom == NeighborhoodGeometry::Plane(npl)
                        && e.kinematic.approx2.geom == NeighborhoodGeometry::Point)
                    &&& (old(self).flip ==> e.contact.normal.view() == npl.view().neg()
                        && e.contact.world1.view() == sp && e.contact.world2.view()
                        == plane_project_spec(npl.view(), sp, sd) && e.kinematic.dilation2 == 0
                        && e.kinematic.dilation1 as int == rb && e.kinematic.approx2.geom
                        == NeighborhoodGeometry::Plane(npl) && e.kinematic.approx1.geom
                        == NeighborhoodGeometry::Point)
                })
                &&& (final(manifold).points@.len() == 1 ==> (forall|k: int|
                    is_first_match(
                        old(manifold).points@,
                        part1,
                        FeatureId::Face(0),
                        part2,
                        FeatureId::Face(0),
                        k,
                    ) ==> final(manifold).points@[0].id == old(manifold).points@[k].id))
            },
            // unmatched cached ids are recycled: released, or reused as a
            // fresh contact's tracking id
            accepted ==> (forall|i: int|
                0 <= i < old(manifold).cache@.len() ==> !final(id_alloc).is_live(
                    (#[trigger] old(manifold).cache@[i]).id,
                ) || exists|t: int|
                    0 <= t < final(manifold).points@.len() && (#[trigger] final(manifold).points@[t]).id
                        == old(manifold).cache@[i].id),
    {
        let flip = self.flip;
        let (ps, os) = if !flip {
            (a, b)
        } else {
            (b, a)
        };
        if !(ps.is_plane_shape() && os.is_support_map_shape()) {
            return false;
        }
        manifold.save_cache_and_clear(id_alloc);
        let r = self.emit_contacts(part1, part2, ma, a, mb, b, prediction, id_alloc, manifold);
        proof {
            assert(r);
            let ppos = if !flip {
                ma.view()
            } else {
                mb.view()
            };
            let cpos = if !flip {
                mb.view()
            } else {
                ma.view()
            };
            let npl = if !flip {
                a.spec_plane_normal()
            } else {
                b.spec_plane_normal()
            };
            if (!flip && b.is_cuboid()) || (flip && a.is_cuboid()) {
                let cub = if !flip {
                    b.spec_cuboid()
                } else {
                    a.spec_cuboid()
                };
                let expect = plane_face_expected(
                    npl.view(),
                    ppos,
                    cub.0.view(),
                    cub.1.view(),
                    cpos,
                    prediction.linear as int,
                    4,
                );
                assert(manifold.points@.len() == expect.len());
                assert forall|idx: int| 0 <= idx < expect.len() implies plane_entry_matches(
                    #[trigger] manifold.points@[idx],
                    expect[idx],
                    npl,
                    ppos,
                    cpos,
                    flip,
                    part1,
                    part2,
                ) by {
                    assert(0 <= idx < expect.len());
                }
                if expect.len() > 0 {
                    assert forall|k: int|
                        is_first_match(
                            old(manifold).points@,
                            part1,
                            if !flip {
                                FeatureId::Face(0)
                            } else {
                                FeatureId::Vertex(expect[0].cid as u64)
                            },
                            part2,
                            if !flip {
                                FeatureId::Vertex(expect[0].cid as u64)
                            } else {
                                FeatureId::Face(0)
                            },
                            k,
                        ) implies manifold.points@[0].id == old(manifold).points@[k].id by {}
                }
            }
            if (!flip && b.is_ball()) || (flip && a.is_ball()) {
                let opos = if !flip {
                    mb.view()
                } else {
                    ma.view()
                };
                let rball = if !flip {
                    b.spec_ball_radius()
                } else {
                    a.spec_ball_radius()
                };
                let sp = plane_project_spec(npl.view(), opos, rball);
                let sd = plane_point_sdist(npl.view(), ppos, sp);
                assert(manifold.points@.len() == (if sd <= prediction.linear as int {
                    1int
                } else {
                    0int
                }));
                if manifold.points@.len() == 1 {
                    assert forall|k: int|
                        is_first_match(
                            old(manifold).points@,
                            part1,
                            FeatureId::Face(0),
                            part2,
                            FeatureId::Face(0),
                            k,
                        ) implies manifold.points@[0].id == old(manifold).points@[k].id by {}
                }
            }
        }
        true
    }
}

/// Persistent collision detector between two convex support-map shapes; it
/// covers the ball-ball and mixed ball-cuboid pairs, for which the closest
/// point is exact in fixed point.
#[derive(Clone, Copy, PartialEq, Eq, Structural, Debug)]
pub struct ConvexConvexManifoldGenerator {
}

/// The pairs the convex-convex generator accepts.
pub open spec fn convex_convex_accepts(a: Shape, b: Shape) -> bool {
    (a.is_ball() && b.is_ball()) || (a.is_ball() && b.is_cuboid()) || (a.is_cuboid() && b.is_ball())
}

impl ConvexConvexManifoldGenerator {
    /// Creates a new persistent collision detector between two convex
    /// shapes.
    pub fn new() -> (r: ConvexConvexManifoldGenerator)
        ensures
            r == (ConvexConvexManifoldGenerator {  }),
    {
        ConvexConvexManifoldGenerator {  }
    }

    /// Emits at most one contact between two convex shapes into an ongoing
    /// regeneration cycle: nothing is cleared first.  For a ball against a
    /// cuboid the normal is the exact direction from the centre to the
    /// closest box point (or the least-clearance axis when the centre is
    /// inside), oriented from the first body to the second; the kinematic
    /// is a point approximation at each body's local origin, dilated by the
    /// ball's radius.
    pub fn emit_contacts(
        &mut self,
        part1: u64,
        part2: u64,
        ma: &Vec3,
        a: &Shape,
        mb: &Vec3,
        b: &Shape,
        prediction: &ContactPrediction,
        id_alloc: &mut IdAllocator,
        manifold: &mut ContactManifold,
    ) -> (accepted: bool)
        requires
            generator_inputs_wf(*ma, *a, *mb, *b, *prediction, *old(id_alloc), *old(manifold)),
        ensures
            *final(self) == *old(self),
            final(manifold).wf(),
            final(id_alloc).wf(),
            accepted == convex_convex_accepts(*a, *b),
            !accepted ==> *final(manifold) == *old(manifold) && *final(id_alloc) == *old(id_alloc),
            accepted ==> final(manifold).subshape_id1 == old(manifold).subshape_id1
                && final(manifold).subshape_id2 == old(manifold).subshape_id2,
            accepted ==> emitted_into(
                old(manifold).points@,
                final(manifold).points@,
                part1,
                part2,
            ),
            accepted && old(manifold).points@.len() == 0 ==> fresh_ids_tracked(
                *old(id_alloc),
                *final(id_alloc),
                final(manifold).points@,
            ),
            // tracking-id persistence: a cached contact with the same
            // feature pair hands its id on
            accepted && old(manifold).points@.len() == 0 && final(manifold).points@.len() == 1
                ==> (forall|k: int|
                is_first_match(
                    old(manifold).cache@,
                    part1,
                    FeatureId::Face(0),
                    part2,
                    FeatureId::Face(0),
                    k,
                ) ==> final(manifold).points@[0].id == old(manifold).cache@[k].id),
            a.is_ball() && b.is_ball() && crate::kernels::ball_ball_emitted(
                ma.view(),
                a.spec_ball_radius(),
                mb.view(),
                b.spec_ball_radius(),
                prediction.linear as int,
            ) ==> final(manifold).points@.len() >= 1,
            a.is_ball() && b.is_ball() && old(manifold).points@.len() == 0 ==> (final(manifold).points@.len()
                == if crate::kernels::ball_ball_emitted(
                ma.view(),
                a.spec_ball_radius(),
                mb.view(),
                b.spec_ball_radius(),
                prediction.linear as int,
            ) {
                1int
            } else {
                0int
            }),
            a.is_ball() && b.is_cuboid() ==> {
                let lo = b.spec_cuboid().0.view().add(mb.view());
                let hi = b.spec_cuboid().1.view().add(mb.view());
                &&& (crate::kernels::ball_box_emitted(
                    ma.view(),
                    a.spec_ball_radius(),
                    lo,
                    hi,
                    prediction.linear as int,
                ) ==> final(manifold).points@.len() >= 1)
                &&& (old(manifold).points@.len() == 0 ==> final(manifold).points@.len()
                    == if crate::kernels::ball_box_emitted(
                    ma.view(),
                    a.spec_ball_radius(),
                    lo,
                    hi,
                    prediction.linear as int,
                ) {
                    1int
                } else {
                    0int
                })
                &&& (old(manifold).points@.len() == 0 && final(manifold).points@.len() == 1 ==> {
                    let e = final(manifold).points@[0];
                    e.part1 == part1 && e.part2 == part2 && e.fid1 == FeatureId::Face(0) && e.fid2
                        == FeatureId::Face(0) && e.contact.depth as int
                        == crate::kernels::ball_box_depth(ma.view(), a.spec_ball_radius(), lo, hi)
                        && e.contact.normal.view() == crate::kernels::ball_box_normal(
                        ma.view(),
                        lo,
                        hi,
                    ) && e.contact.wf() && (exists|ra: i64|
                        ra as int == a.spec_ball_radius() && e.kinematic == point_kinematic_spec(
                            ra,
                            0,
                        ))
                })
            },
            a.is_cuboid() && b.is_ball() ==> {
                let lo = a.spec_cuboid().0.view().add(ma.view());
                let hi = a.spec_cuboid().1.view().add(ma.view());
                &&& (crate::kernels::ball_box_emitted(
                    mb.view(),
                    b.spec_ball_radius(),
                    lo,
                    hi,
                    prediction.linear as int,
                ) ==> final(manifold).points@.len() >= 1)
                &&& (old(manifold).points@.len() == 0 ==> final(manifold).points@.len()
                    == if crate::kernels::ball_box_emitted(
                    mb.view(),
                    b.spec_ball_radius(),
                    lo,
                    hi,
                    prediction.linear as int,
                ) {
                    1int
                } else {
                    0int
                })
                &&& (old(manifold).points@.len() == 0 && final(manifold).points@.len() == 1 ==> {
                    let e = final(manifold).points@[0];
                    e.part1 == part1 && e.part2 == part2 && e.fid1 == FeatureId::Face(0) && e.fid2
                        == FeatureId::Face(0) && e.contact.depth as int
                        == crate::kernels::ball_box_depth(mb.view(), b.spec_ball_radius(), lo, hi)
                        && e.contact.normal.view() == crate::kernels::ball_box_normal(
                        mb.view(),
                        lo,
                        hi,
                    ).neg() && e.contact.wf() && (exists|rb: i64|
                        rb as int == b.spec_ball_radius() && e.kinematic == point_kinematic_spec(
                            0,
                            rb,
                        ))
                })
            },
    {
        if let (Some(ra), Some(rb)) = (a.as_ball(), b.as_ball()) {
            if let Some(contact) = ball_ball_contact(ma, ra, mb, rb, prediction.linear) {
                let kinematic = point_point_kinematic(ra, rb);
                let ghost pts0 = manifold.points@;
                let ghost alloc0 = *id_alloc;
                let pushed = manifold.push(
                    contact,
                    kinematic,
                    part1,
                    FeatureId::Face(0),
                    part2,
                    FeatureId::Face(0),
                    id_alloc,
                );
                proof {
                    if pts0.len() >= MAX_MANIFOLD_POINTS as int {
                        lemma_first_min_exists(pts0);
                    }
                    convex_push_proof(pts0, alloc0, *id_alloc, manifold.points@, contact, kinematic,
                        part1, part2, pushed);
                }
            } else {
                proof {
                    lemma_emitted_refl(manifold.points@, part1, part2);
                }
            }
            true
        } else if a.is_ball_shape() && b.is_cuboid_shape() {
            let ra = a.as_ball().unwrap();
            let (bmins, bmaxs) = b.as_cuboid().unwrap();
            let lo = bmins.add(*mb);
            let hi = bmaxs.add(*mb);
            proof {
                let qc = crate::kernels::clamp_point(ma.view(), lo.view(), hi.view()).sub(
                    ma.view(),
                );
                crate::math::lemma_square_nonneg(qc.x);
                crate::math::lemma_square_nonneg(qc.y);
                crate::math::lemma_square_nonneg(qc.z);
            }
            if let Some(contact) = crate::kernels::ball_box_contact(
                ma,
                ra,
                &lo,
                &hi,
                prediction.linear,
            ) {
                let kinematic = point_point_kinematic(ra, 0);
                let ghost pts0 = manifold.points@;
                let ghost alloc0 = *id_alloc;
                let pushed = manifold.push(
                    contact,
                    kinematic,
                    part1,
                    FeatureId::Face(0),
                    part2,
                    FeatureId::Face(0),
                    id_alloc,
                );
                proof {
                    if pts0.len() >= MAX_MANIFOLD_POINTS as int {
                        lemma_first_min_exists(pts0);
                    }
                    convex_push_proof(pts0, alloc0, *id_alloc, manifold.points@, contact, kinematic,
                        part1, part2, pushed);
                }
            } else {
                proof {
                    lemma_emitted_refl(manifold.points@, part1, part2);
                }
            }
            true
        } else if a.is_cuboid_shape() && b.is_ball_shape() {
            let rb = b.as_ball().unwrap();
            let (amins, amaxs) = a.as_cuboid().unwrap();
            let lo = amins.add(*ma);
            let hi = amaxs.add(*ma);
            proof {
                let qc = crate::kernels::clamp_point(mb.view(), lo.view(), hi.view()).sub(
                    mb.view(),
                );
                crate::math::lemma_square_nonneg(qc.x);
                crate::math::lemma_square_nonneg(qc.y);
                crate::math::lemma_square_nonneg(qc.z);
            }
            if let Some(contact) = crate::kernels::ball_box_contact(
                mb,
                rb,
                &lo,
                &hi,
                prediction.linear,
            ) {
                proof {
                    let q = crate::kernels::clamp_point(mb.view(), lo.view(), hi.view());
                    assert(-2 * (COORD_MAX as int) <= q.x <= 2 * (COORD_MAX as int));
                    assert(-2 * (COORD_MAX as int) <= q.y <= 2 * (COORD_MAX as int));
                    assert(-2 * (COORD_MAX as int) <= q.z <= 2 * (COORD_MAX as int));
                }
                let flipped = contact.flip();
                let kinematic = point_point_kinematic(0, rb);
                let ghost pts0 = manifold.points@;
                let ghost alloc0 = *id_alloc;
                let pushed = manifold.push(
                    flipped,
                    kinematic,
                    part1,
                    FeatureId::Face(0),
                    part2,
                    FeatureId::Face(0),
                    id_alloc,
                );
                proof {
                    if pts0.len() >= MAX_MANIFOLD_POINTS as int {
                        lemma_first_min_exists(pts0);
                    }
                    convex_push_proof(pts0, alloc0, *id_alloc, manifold.points@, flipped, kinematic,
                        part1, part2, pushed);
                }
            } else {
                proof {
                    lemma_emitted_refl(manifold.points@, part1, part2);
                }
            }
            true
        } else {
            false
        }
    }

    /// Generates the convex-convex manifold for a full regeneration cycle:
    /// the cycle is opened with `save_cache_and_clear`, then the contact
    /// (if any) is emitted and the ids of unmatched cached contacts are
    /// recycled.
    pub fn generate_contacts(
        &mut self,
        part1: u64,
        part2: u64,
        ma: &Vec3,
        a: &Shape,
        mb: &Vec3,
        b: &Shape,
        prediction: &ContactPrediction,
        id_alloc: &mut IdAllocator,
        manifold: &mut ContactManifold,
    ) -> (accepted: bool)
        requires
            generator_inputs_wf(*ma, *a, *mb, *b, *prediction, *old(id_alloc), *old(manifold)),
        ensures
            *final(self) == *old(self),
            final(manifold).wf(),
            final(id_alloc).wf(),
            accepted == convex_convex_accepts(*a, *b),
            !accepted ==> *final(manifold) == *old(manifold) && *final(id_alloc) == *old(id_alloc),
            accepted ==> final(manifold).subshape_id1 == old(manifold).subshape_id1
                && final(manifold).subshape_id2 == old(manifold).subshape_id2,
            accepted ==> final(manifold).points@.len() <= 1,
            a.is_ball() && b.is_ball() ==> (final(manifold).points@.len()
                == if crate::kernels::ball_ball_emitted(
                ma.view(),
                a.spec_ball_radius(),
                mb.view(),
                b.spec_ball_radius(),
                prediction.linear as int,
            ) {
                1int
            } else {
                0int
            }),
            a.is_ball() && b.is_cuboid() ==> {
                let lo = b.spec_cuboid().0.view().add(mb.view());
                let hi = b.spec_cuboid().1.view().add(mb.view());
                &&& final(manifold).points@.len() == if crate::kernels::ball_box_emitted(
                    ma.view(),
                    a.spec_ball_radius(),
                    lo,
                    hi,
                    prediction.linear as int,
                ) {
                    1int
                } else {
                    0int
                }
                &&& (final(manifold).points@.len() == 1 ==> {
                    let e = final(manifold).points@[0];
                    e.part1 == part1 && e.part2 == part2 && e.fid1 == FeatureId::Face(0) && e.fid2
                        == FeatureId::Face(0) && e.contact.depth as int
                        == crate::kernels::ball_box_depth(ma.view(), a.spec_ball_radius(), lo, hi)
                        && e.contact.normal.view() == crate::kernels::ball_box_normal(
                        ma.view(),
                        lo,
                        hi,
                    ) && e.contact.wf() && (exists|ra: i64|
                        ra as int == a.spec_ball_radius() && e.kinematic == point_kinematic_spec(
                            ra,
                            0,
                        ))
                })
            },
            a.is_cuboid() && b.is_ball() ==> {
                let lo = a.spec_cuboid().0.view().add(ma.view());
                let hi = a.spec_cuboid().1.view().add(ma.view());
                &&& final(manifold).points@.len() == if crate::kernels::ball_box_emitted(
                    mb.view(),
                    b.spec_ball_radius(),
                    lo,
                    hi,
                    prediction.linear as int,
                ) {
                    1int
                } else {
                    0int
                }
                &&& (final(manifold).points@.len() == 1 ==> {
                    let e = final(manifold).points@[0];
                    e.part1 == part1 && e.part2 == part2 && e.fid1 == FeatureId::Face(0) && e.fid2
                        == FeatureId::Face(0) && e.contact.depth as int
                        == crate::kernels::ball_box_depth(mb.view(), b.spec_ball_radius(), lo, hi)
                        && e.contact.normal.view() == crate::kernels::ball_box_normal(
                        mb.view(),
                        lo,
                        hi,
                    ).neg() && e.contact.wf() && (exists|rb: i64|
                        rb as int == b.spec_ball_radius() && e.kinematic == point_kinematic_spec(
                            0,
                            rb,
                        ))
                })
            },
            // tracking-id persistence across the cycle
            accepted && final(manifold).points@.len() == 1 ==> (forall|k: int|
                is_first_match(
                    old(manifold).points@,
                    part1,
                    FeatureId::Face(0),
                    part2,
                    FeatureId::Face(0),
                    k,
                ) ==> final(manifold).points@[0].id == old(manifold).points@[k].id),
            // unmatched cached ids are recycled: released, or reused as a
            // fresh contact's tracking id
            accepted ==> (forall|i: int|
                0 <= i < old(manifold).cache@.len() ==> !final(id_alloc).is_live(
                    (#[trigger] old(manifold).cache@[i]).id,
                ) || exists|t: int|
                    0 <= t < final(manifold).points@.len() && (#[trigger] final(manifold).points@[t]).id
                        == old(manifold).cache@[i].id),
    {
        let ok = (a.is_ball_shape() && b.is_ball_shape()) || (a.is_ball_shape()
            && b.is_cuboid_shape()) || (a.is_cuboid_shape() && b.is_ball_shape());
        if !ok {
            return false;
        }
        manifold.save_cache_and_clear(id_alloc);
        let r = self.emit_contacts(part1, part2, ma, a, mb, b, prediction, id_alloc, manifold);
        proof {
            assert(r);
        }
        true
    }
}

/// The common proof obligations after a single convex push: the emission
/// relation holds, and when the cycle started empty every freshly live id
/// tracks the pushed contact.
proof fn convex_push_proof(
    pts0: Seq<TrackedContact>,
    alloc0: IdAllocator,
    alloc1: IdAllocator,
    pts1: Seq<TrackedContact>,
    contact: Contact,
    kinematic: ContactKinematic,
    part1: u64,
    part2: u64,
    pushed: Option<u64>,
)
    requires
        pts0.len() < MAX_MANIFOLD_POINTS as int ==> pushed.is_some() && pts1 == pts0.push(
            TrackedContact {
                contact,
                kinematic,
                part1,
                fid1: FeatureId::Face(0),
                part2,
                fid2: FeatureId::Face(0),
                id: pushed.unwrap(),
            },
        ),
        pts0.len() >= MAX_MANIFOLD_POINTS as int ==> (pts1 == pts0 || (exists|s: int|
            0 <= s < pts0.len() && pushed.is_some() && pts1 == pts0.update(
                s,
                TrackedContact {
                    contact,
                    kinematic,
                    part1,
                    fid1: FeatureId::Face(0),
                    part2,
                    fid2: FeatureId::Face(0),
                    id: pushed.unwrap(),
                },
            ))),
        pts0.len() == 0 ==> (forall|o: u64|
            o != pushed.unwrap() ==> alloc1.is_live(o) == alloc0.is_live(o)),
    ensures
        emitted_into(pts0, pts1, part1, part2),
        pts0.len() == 0 ==> fresh_ids_tracked(alloc0, alloc1, pts1),
{
    let e = TrackedContact {
        contact,
        kinematic,
        part1,
        fid1: FeatureId::Face(0),
        part2,
        fid2: FeatureId::Face(0),
        id: if pushed is Some {
            pushed.unwrap()
        } else {
            0
        },
    };
    lemma_push_emitted(pts0, pts1, e, part1, part2);
    if pts0.len() == 0 {
        assert(pts1[0].id == pushed.unwrap());
        lemma_single_push_fresh_ids(alloc0, alloc1, pts1, pushed.unwrap());
    }
}

/// A point-point kinematic with the given dilations, as both the ball-ball
/// and ball-cuboid contacts use.
fn point_point_kinematic(d1: i64, d2: i64) -> (r: ContactKinematic)
    ensures
        r == point_kinematic_spec(d1, d2),
{
    ContactKinematic {
        approx1: LocalApprox {
            feature: FeatureId::Face(0),
            point: Vec3 { x: 0, y: 0, z: 0 },
            geom: NeighborhoodGeometry::Point,
        },
        approx2: LocalApprox {
            feature: FeatureId::Face(0),
            point: Vec3 { x: 0, y: 0, z: 0 },
            geom: NeighborhoodGeometry::Point,
        },
        dilation1: d1,
        dilation2: d2,
    }
}

/// An algorithm for a pair of primitive shapes, as the dispatcher's first
/// four rows select it.
#[derive(Clone, Copy, PartialEq, Eq, Structural, Debug)]
pub enum PrimitiveAlgorithm {
    BallBall(BallBallManifoldGenerator),
    PlaneConvex(PlaneConvexPolyhedronManifoldGenerator),
    ConvexConvex(ConvexConvexManifoldGenerator),
}

/// The pairs a primitive algorithm accepts.
pub open spec fn primitive_accepts(alg: PrimitiveAlgorithm, a: Shape, b: Shape) -> bool {
    match alg {
        PrimitiveAlgorithm::BallBall(_) => a.is_ball() && b.is_ball(),
        PrimitiveAlgorithm::PlaneConvex(g) => if !g.flip {
            a.is_plane() && b.is_support_map()
        } else {
            b.is_plane() && a.is_support_map()
        },
        PrimitiveAlgorithm::ConvexConvex(_) => convex_convex_accepts(a, b),
    }
}

/// The selected algorithm accepts the pair and would emit at least one
/// contact for it.
pub open spec fn primitive_would_emit(
    alg: PrimitiveAlgorithm,
    ma: Vec3,
    a: Shape,
    mb: Vec3,
    b: Shape,
    pred: int,
) -> bool {
    match alg {
        PrimitiveAlgorithm::BallBall(_) => a.is_ball() && b.is_ball()
            && crate::kernels::ball_ball_emitted(
            ma.view(),
            a.spec_ball_radius(),
            mb.view(),
            b.spec_ball_radius(),
            pred,
        ),
        PrimitiveAlgorithm::PlaneConvex(g) => {
            let pl = if !g.flip {
                a
            } else {
                b
            };
            let pp = if !g.flip {
                ma
            } else {
                mb
            };
            let ot = if !g.flip {
                b
            } else {
                a
            };
            let op = if !g.flip {
                mb
            } else {
                ma
            };
            pl.is_plane() && (if ot.is_cuboid() {
                plane_face_expected(
                    pl.spec_plane_normal().view(),
                    pp.view(),
                    ot.spec_cuboid().0.view(),
                    ot.spec_cuboid().1.view(),
                    op.view(),
                    pred,
                    4,
                ).len() > 0
            } else if ot.is_ball() {
                plane_point_sdist(
                    pl.spec_plane_normal().view(),
                    pp.view(),
                    plane_project_spec(
                        pl.spec_plane_normal().view(),
                        op.view(),
                        ot.spec_ball_radius(),
                    ),
                ) <= pred
            } else {
                false
            })
        },
        PrimitiveAlgorithm::ConvexConvex(_) => if a.is_ball() && b.is_ball() {
            crate::kernels::ball_ball_emitted(
                ma.view(),
                a.spec_ball_radius(),
                mb.view(),
                b.spec_ball_radius(),
                pred,
            )
        } else if a.is_ball() && b.is_cuboid() {
            crate::kernels::ball_box_emitted(
                ma.view(),
                a.spec_ball_radius(),
                b.spec_cuboid().0.view().add(mb.view()),
                b.spec_cuboid().1.view().add(mb.view()),
                pred,
            )
        } else if a.is_cuboid() && b.is_ball() {
            crate::kernels::ball_box_emitted(
                mb.view(),
                b.spec_ball_radius(),
                a.spec_cuboid().0.view().add(ma.view()),
                a.spec_cuboid().1.view().add(ma.view()),
                pred,
            )
        } else {
            false
        },
    }
}

impl PrimitiveAlgorithm {
    /// Emits the selected primitive generator's contacts into an ongoing
    /// regeneration cycle: nothing is cleared, the contact list never
    /// shrinks, every appended contact carries the given sub-part
    /// identifiers, and a pair the algorithm would emit for leaves the
    /// list non-empty.
    pub fn emit_contacts(
        &mut self,
        part1: u64,
        part2: u64,
        ma: &Vec3,
        a: &Shape,
        mb: &Vec3,
        b: &Shape,
        prediction: &ContactPrediction,
        id_alloc: &mut IdAllocator,
        manifold: &mut ContactManifold,
    ) -> (accepted: bool)
        requires
            generator_inputs_wf(*ma, *a, *mb, *b, *prediction, *old(id_alloc), *old(manifold)),
        ensures
            *final(self) == *old(self),
            final(manifold).wf(),
            final(id_alloc).wf(),
            accepted == primitive_accepts(*old(self), *a, *b),
            !accepted ==> *final(manifold) == *old(manifold) && *final(id_alloc) == *old(id_alloc),
            accepted ==> final(manifold).subshape_id1 == old(manifold).subshape_id1
                && final(manifold).subshape_id2 == old(manifold).subshape_id2,
            accepted ==> emitted_into(
                old(manifold).points@,
                final(manifold).points@,
                part1,
                part2,
            ),
            accepted && primitive_would_emit(
                *old(self),
                *ma,
                *a,
                *mb,
                *b,
                prediction.linear as int,
            ) ==> final(manifold).points@.len() >= 1,
    {
        match self {
            PrimitiveAlgorithm::BallBall(g) => g.emit_contacts(
                part1,
                part2,
                ma,
                a,
                mb,
                b,
                prediction,
                id_alloc,
                manifold,
            ),
            PrimitiveAlgorithm::PlaneConvex(g) => g.emit_contacts(
                part1,
                part2,
                ma,
                a,
                mb,
                b,
                prediction,
                id_alloc,
                manifold,
            ),
            PrimitiveAlgorithm::ConvexConvex(g) => g.emit_contacts(
                part1,
                part2,
                ma,
                a,
                mb,
                b,
                prediction,
                id_alloc,
                manifold,
            ),
        }
    }

    /// Runs the selected primitive generator on the pair.
    pub fn generate_contacts(
        &mut self,
        part1: u64,
        part2: u64,
        ma: &Vec3,
        a: &Shape,
        mb: &Vec3,
        b: &Shape,
        prediction: &ContactPrediction,
        id_alloc: &mut IdAllocator,
        manifold: &mut ContactManifold,
    ) -> (accepted: bool)
        requires
            generator_inputs_wf(*ma, *a, *mb, *b, *prediction, *old(id_alloc), *old(manifold)),
        ensures
            *final(self) == *old(self),
            final(manifold).wf(),
            final(id_alloc).wf(),
            accepted == primitive_accepts(*old(self), *a, *b),
            !accepted ==> *final(manifold) == *old(manifold) && *final(id_alloc) == *old(id_alloc),
            accepted ==> final(manifold).subshape_id1 == old(manifold).subshape_id1
                && final(manifold).subshape_id2 == old(manifold).subshape_id2,
    {
        match self {
            PrimitiveAlgorithm::BallBall(g) => g.generate_contacts(
                part1,
                part2,
                ma,
                a,
                mb,
                b,
                prediction,
                id_alloc,
                manifold,
            ),
            PrimitiveAlgorithm::PlaneConvex(g) => g.generate_contacts(
                part1,
                part2,
                ma,
                a,
                mb,
                b,
                prediction,
                id_alloc,
                manifold,
            ),
            PrimitiveAlgorithm::ConvexConvex(g) => g.generate_contacts(
                part1,
                part2,
                ma,
                a,
                mb,
                b,
                prediction,
                id_alloc,
                manifold,
            ),
        }
    }
}

/// The dispatcher's selection for a pair of primitive shapes, first match
/// winning: ball-ball, then plane against support map (flipped when the
/// plane is second), then convex against convex.  A cuboid-cuboid pair
/// selects nothing: its face-clipping kernel is outside the scope of the
/// exact fixed-point model.
pub open spec fn primitive_dispatch(a: Shape, b: Shape) -> Option<PrimitiveAlgorithm> {
    if a.is_ball() && b.is_ball() {
        Some(PrimitiveAlgorithm::BallBall(BallBallManifoldGenerator {  }))
    } else if a.is_plane() && b.is_support_map() {
        Some(
            PrimitiveAlgorithm::PlaneConvex(PlaneConvexPolyhedronManifoldGenerator { flip: false }),
        )
    } else if b.is_plane() && a.is_support_map() {
        Some(PrimitiveAlgorithm::PlaneConvex(PlaneConvexPolyhedronManifoldGenerator { flip: true }))
    } else if a.is_cuboid() && b.is_cuboid() {
        None
    } else if a.is_support_map() && b.is_support_map() {
        Some(PrimitiveAlgorithm::ConvexConvex(ConvexConvexManifoldGenerator {  }))
    } else {
        None
    }
}

/// Selects a contact algorithm for a pair of primitive shapes.
pub fn get_primitive_contact_algorithm(a: &Shape, b: &Shape) -> (r: Option<PrimitiveAlgorithm>)
    ensures
        r == primitive_dispatch(*a, *b),
        r.is_some() ==> primitive_accepts(r.unwrap(), *a, *b),
{
    if a.is_ball_shape() && b.is_ball_shape() {
        Some(PrimitiveAlgorithm::BallBall(BallBallManifoldGenerator {  }))
    } else if a.is_plane_shape() && b.is_support_map_shape() {
        Some(
            PrimitiveAlgorithm::PlaneConvex(PlaneConvexPolyhedronManifoldGenerator { flip: false }),
        )
    } else if b.is_plane_shape() && a.is_support_map_shape() {
        Some(PrimitiveAlgorithm::PlaneConvex(PlaneConvexPolyhedronManifoldGenerator { flip: true }))
    } else if a.is_cuboid_shape() && b.is_cuboid_shape() {
        None
    } else if a.is_support_map_shape() && b.is_support_map_shape() {
        Some(PrimitiveAlgorithm::ConvexConvex(ConvexConvexManifoldGenerator {  }))
    } else {
        None
    }
}

/// Walking back from a well-formed point by at most the coordinate range
/// stays within twice the coordinate range.
pub proof fn lemma_project_stays_close(n: V3, c: V3, sd: int)
    requires
        !n.is_zero(),
        crate::math::in_range(c.x) && crate::math::in_range(c.y) && crate::math::in_range(c.z),
        -(COORD_MAX as int) <= sd <= COORD_MAX as int,
    ensures
        -2 * (COORD_MAX as int) <= plane_project_spec(n, c, sd).x <= 2 * (COORD_MAX as int),
        -2 * (COORD_MAX as int) <= plane_project_spec(n, c, sd).y <= 2 * (COORD_MAX as int),
        -2 * (COORD_MAX as int) <= plane_project_spec(n, c, sd).z <= 2 * (COORD_MAX as int),
{
    crate::kernels::lemma_norm2_pos(n);
    crate::math::lemma_sqrt_floor_exists(n.norm2());
    let nf = sqrt_floor_of(n);
    crate::kernels::lemma_component_le_sqrt(n, n.norm2());
    assert(nf >= 1) by {
        if nf == 0 {
            assert(0 * 0 == 0) by (nonlinear_arith);
        }
    }
    crate::kernels::lemma_scale_div_bound(sd, n.x, nf);
    crate::kernels::lemma_scale_div_bound(sd, n.y, nf);
    crate::kernels::lemma_scale_div_bound(sd, n.z, nf);
}

/// The floor square root of a vector's squared norm.
pub open spec fn sqrt_floor_of(n: V3) -> int {
    crate::math::sqrt_floor(n.norm2())
}

} // verus!
