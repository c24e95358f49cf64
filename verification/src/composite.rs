//! Collision detector between a composite shape and another shape.
//!
//! The strategy is the height-field generator's, keyed on the composite's
//! part index: one sub-detector per part, refreshed with a timestamp while
//! the part's box keeps overlapping the other shape's, and evicted as soon
//! as it does not.

use vstd::prelude::*;
use crate::contact::ContactPrediction;
use crate::generators::{generator_inputs_wf, get_primitive_contact_algorithm, primitive_accepts,
    primitive_dispatch, primitive_would_emit, PrimitiveAlgorithm};
use crate::heightfield::HeightFieldShapeManifoldGenerator;
use crate::ids::IdAllocator;
use crate::manifold::ContactManifold;
use crate::math::{Aabb, Vec3};
use crate::query::compound_pose_ok;
use crate::shape::{Compound, Shape};

verus! {

/// Collision detector between a composite shape and another shape.
#[derive(Debug)]
pub struct CompositeShapeManifoldGenerator {
    pub sub_detectors: Vec<Option<(PrimitiveAlgorithm, u64)>>,
    pub flip: bool,
    pub timestamp: u64,
}

impl CompositeShapeManifoldGenerator {
    /// Every cached timestamp is at most the current one.
    pub open spec fn wf(self) -> bool {
        forall|i: int|
            0 <= i < self.sub_detectors@.len() && (#[trigger] self.sub_detectors@[i]).is_some()
                ==> self.sub_detectors@[i].unwrap().1 <= self.timestamp
    }

    /// Creates a new collision detector between a composite shape and
    /// another shape; `flip` means the composite is the second body.
    pub fn new(flip: bool) -> (r: CompositeShapeManifoldGenerator)
        ensures
            r.wf(),
            r.flip == flip,
            r.sub_detectors@.len() == 0,
            r.timestamp == 0,
    {
        CompositeShapeManifoldGenerator { sub_detectors: Vec::new(), flip, timestamp: 0 }
    }

    /// The geometry of part `i`, as a shape of its own.
    pub open spec fn part_shape_spec(g1: Compound, i: int) -> Shape {
        Shape::Simple(g1.parts@[i].shape)
    }

    /// The world pose of part `i` under the compound's pose.
    pub open spec fn part_pose_spec(m1: Vec3, g1: Compound, i: int) -> Vec3 {
        Vec3 {
            x: (m1.view().x + g1.parts@[i].shift.view().x) as i64,
            y: (m1.view().y + g1.parts@[i].shift.view().y) as i64,
            z: (m1.view().z + g1.parts@[i].shift.view().z) as i64,
        }
    }

    /// The algorithm the primitive dispatcher selects for part `i` against
    /// the other shape, in the orientation the flip flag fixes.
    pub open spec fn part_dispatch(g1: Compound, i: int, other: Shape, flip: bool) -> Option<
        PrimitiveAlgorithm,
    > {
        if flip {
            primitive_dispatch(other, Self::part_shape_spec(g1, i))
        } else {
            primitive_dispatch(Self::part_shape_spec(g1, i), other)
        }
    }

    /// The stored algorithm accepts part `i`'s pair.
    pub open spec fn part_accepts(
        alg: PrimitiveAlgorithm,
        g1: Compound,
        i: int,
        other: Shape,
        flip: bool,
    ) -> bool {
        if flip {
            primitive_accepts(alg, other, Self::part_shape_spec(g1, i))
        } else {
            primitive_accepts(alg, Self::part_shape_spec(g1, i), other)
        }
    }

    /// The stored algorithm would emit for part `i`'s pair.
    pub open spec fn part_would_emit(
        alg: PrimitiveAlgorithm,
        g1: Compound,
        m1: Vec3,
        i: int,
        other: Shape,
        op: Vec3,
        flip: bool,
        pred: int,
    ) -> bool {
        if flip {
            primitive_would_emit(
                alg,
                op,
                other,
                Self::part_pose_spec(m1, g1, i),
                Self::part_shape_spec(g1, i),
                pred,
            )
        } else {
            primitive_would_emit(
                alg,
                Self::part_pose_spec(m1, g1, i),
                Self::part_shape_spec(g1, i),
                op,
                other,
                pred,
            )
        }
    }

    fn do_update(
        &mut self,
        m1: &Vec3,
        g1: &Compound,
        m2: &Vec3,
        g2: &Shape,
        prediction: &ContactPrediction,
        id_alloc: &mut IdAllocator,
        manifold: &mut ContactManifold,
        flip: bool,
    )
        requires
            old(self).wf(),
            old(self).timestamp < u64::MAX,
            m1.wf(),
            g1.wf(),
            m2.wf(),
            g2.wf(),
            !g2.is_plane(),
            compound_pose_ok(*m1, *g1),
            prediction.wf(),
            old(id_alloc).wf(),
            old(manifold).wf(),
        ensures
            final(self).wf(),
            final(id_alloc).wf(),
            final(manifold).wf(),
            final(self).flip == old(self).flip,
            final(self).timestamp == old(self).timestamp + 1,
            final(manifold).subshape_id1 == old(manifold).subshape_id1,
            final(manifold).subshape_id2 == old(manifold).subshape_id2,
            // timestamp eviction: a part absent from this frame's
            // enumeration holds no sub-detector after the update
            forall|i: int|
                0 <= i < final(self).sub_detectors@.len() && (#[trigger] final(self).sub_detectors@[i]).is_some()
                    ==> i < g1.num_parts() && g1.part_intersects(
                    i,
                    HeightFieldShapeManifoldGenerator::local_query_box(
                        *m1,
                        *g2,
                        *m2,
                        prediction.linear as int,
                    ),
                ),
            // sub-detector reuse: a surviving part keeps the algorithm it
            // already had
            forall|i: int|
                0 <= i < final(self).sub_detectors@.len() && (#[trigger] final(self).sub_detectors@[i]).is_some()
                    && i < old(self).sub_detectors@.len() && old(self).sub_detectors@[i].is_some()
                    ==> final(self).sub_detectors@[i].unwrap().0 == old(self).sub_detectors@[i].unwrap().0,
            // every surviving entry carries the fresh timestamp
            forall|i: int|
                0 <= i < final(self).sub_detectors@.len() && (#[trigger] final(self).sub_detectors@[i]).is_some() ==> final(self).sub_detectors@[i].unwrap().1 == old(self).timestamp + 1,
            // cache completeness: an enumerated part with no prior detector
            // whose pair the dispatcher covers gets the dispatched detector
            forall|i: int|
                0 <= i < g1.num_parts() && #[trigger] g1.part_intersects(
                    i,
                    HeightFieldShapeManifoldGenerator::local_query_box(
                        *m1,
                        *g2,
                        *m2,
                        prediction.linear as int,
                    ),
                ) && (i >= old(self).sub_detectors@.len() || old(self).sub_detectors@[i].is_none())
                    && Self::part_dispatch(*g1, i, *g2, flip).is_some() ==> i < final(self).sub_detectors@.len() && final(self).sub_detectors@[i] == Some(
                    (
                        Self::part_dispatch(*g1, i, *g2, flip).unwrap(),
                        (old(self).timestamp + 1) as u64,
                    ),
                ),
            // cache refresh: an enumerated part whose existing detector
            // still accepts the pair survives with the fresh timestamp
            forall|i: int|
                0 <= i < g1.num_parts() && #[trigger] g1.part_intersects(
                    i,
                    HeightFieldShapeManifoldGenerator::local_query_box(
                        *m1,
                        *g2,
                        *m2,
                        prediction.linear as int,
                    ),
                ) && i < old(self).sub_detectors@.len() && old(self).sub_detectors@[i].is_some()
                    && Self::part_accepts(
                    old(self).sub_detectors@[i].unwrap().0,
                    *g1,
                    i,
                    *g2,
                    flip,
                ) ==> i < final(self).sub_detectors@.len() && final(self).sub_detectors@[i] == Some(
                    (old(self).sub_detectors@[i].unwrap().0, (old(self).timestamp + 1) as u64),
                ),
            // the manifold holds one regeneration cycle: every contact
            // carries an enumerated part as its sub-part identifier
            forall|t: int|
                0 <= t < final(manifold).points@.len() ==> ((if flip {
                    (#[trigger] final(manifold).points@[t]).part2
                } else {
                    final(manifold).points@[t].part1
                }) as int) < g1.num_parts() && g1.part_intersects(
                    (if flip {
                        final(manifold).points@[t].part2
                    } else {
                        final(manifold).points@[t].part1
                    }) as int,
                    HeightFieldShapeManifoldGenerator::local_query_box(
                        *m1,
                        *g2,
                        *m2,
                        prediction.linear as int,
                    ),
                ),
            // emission: a surviving detector whose pair would emit leaves
            // the manifold non-empty
            forall|i: int|
                0 <= i < final(self).sub_detectors@.len() && (#[trigger] final(self).sub_detectors@[i]).is_some() && Self::part_would_emit(
                    final(self).sub_detectors@[i].unwrap().0,
                    *g1,
                    *m1,
                    i,
                    *g2,
                    *m2,
                    flip,
                    prediction.linear as int,
                ) ==> final(manifold).points@.len() >= 1,
    {
        self.timestamp = self.timestamp + 1;
        let ts = self.timestamp;
        manifold.save_cache_and_clear(id_alloc);

        let (lmin, lmax) = g2.local_bounds();
        let q = Aabb {
            mins: Vec3 {
                x: lmin.x + m2.x - m1.x - prediction.linear,
                y: lmin.y + m2.y - m1.y - prediction.linear,
                z: lmin.z + m2.z - m1.z - prediction.linear,
            },
            maxs: Vec3 {
                x: lmax.x + m2.x - m1.x + prediction.linear,
                y: lmax.y + m2.y - m1.y + prediction.linear,
                z: lmax.z + m2.z - m1.z + prediction.linear,
            },
        };
        proof {
            assert(q == HeightFieldShapeManifoldGenerator::local_query_box(
                *m1,
                *g2,
                *m2,
                prediction.linear as int,
            ));
        }

        let nparts = g1.part_count();
        while self.sub_detectors.len() < nparts
            invariant
                self.wf(),
                self.timestamp == ts,
                self.flip == old(self).flip,
                old(self).sub_detectors@.len() <= self.sub_detectors@.len(),
                forall|i: int|
                    0 <= i < self.sub_detectors@.len() ==> (#[trigger] self.sub_detectors@[i])
                        == (if i < old(self).sub_detectors@.len() {
                        old(self).sub_detectors@[i]
                    } else {
                        None
                    }),
            decreases nparts - self.sub_detectors.len(),
        {
            self.sub_detectors.push(None);
        }

        let parts = g1.parts_in_aabb(&q);
        let mut ci: usize = 0;
        while ci < parts.len()
            invariant
                self.timestamp == ts,
                ts <= u64::MAX,
                self.flip == old(self).flip,
                m1.wf(),
                g1.wf(),
                m2.wf(),
                g2.wf(),
                !g2.is_plane(),
                compound_pose_ok(*m1, *g1),
                prediction.wf(),
                id_alloc.wf(),
                manifold.wf(),
                manifold.subshape_id1 == old(manifold).subshape_id1,
                manifold.subshape_id2 == old(manifold).subshape_id2,
                0 <= ci <= parts@.len(),
                g1.num_parts() <= self.sub_detectors@.len(),
                forall|j: int|
                    0 <= j < parts@.len() ==> parts@[j] < g1.num_parts() && g1.part_intersects(
                        parts@[j] as int,
                        q,
                    ),
                forall|j1: int, j2: int| 0 <= j1 < j2 < parts@.len() ==> parts@[j1] < parts@[j2],
                q == HeightFieldShapeManifoldGenerator::local_query_box(
                    *m1,
                    *g2,
                    *m2,
                    prediction.linear as int,
                ),
                forall|i: int|
                    0 <= i < self.sub_detectors@.len() && (#[trigger] self.sub_detectors@[i]).is_some()
                        ==> self.sub_detectors@[i].unwrap().1 <= ts,
                forall|i: int|
                    0 <= i < self.sub_detectors@.len() && (#[trigger] self.sub_detectors@[i]).is_some()
                        && self.sub_detectors@[i].unwrap().1 == ts ==> exists|j: int|
                        0 <= j < parts@.len() && parts@[j] == i,
                forall|i: int|
                    0 <= i < old(self).sub_detectors@.len() && (#[trigger] old(self).sub_detectors@[i]).is_some()
                        ==> i < self.sub_detectors@.len() && self.sub_detectors@[i].is_some()
                        && self.sub_detectors@[i].unwrap().0 == old(self).sub_detectors@[i].unwrap().0,
                forall|i: int|
                    0 <= i < self.sub_detectors@.len() && !(exists|j: int|
                        0 <= j < ci && parts@[j] == i) ==> #[trigger] self.sub_detectors@[i] == (
                    if i < old(self).sub_detectors@.len() {
                        old(self).sub_detectors@[i]
                    } else {
                        None
                    }),
                forall|j: int|
                    0 <= j < ci && ((parts@[j] as int) >= old(self).sub_detectors@.len() || old(self).sub_detectors@[parts@[j] as int].is_none()) && Self::part_dispatch(
                        *g1,
                        parts@[j] as int,
                        *g2,
                        flip,
                    ).is_some() ==> #[trigger] self.sub_detectors@[parts@[j] as int] == Some(
                        (Self::part_dispatch(*g1, parts@[j] as int, *g2, flip).unwrap(), ts),
                    ),
                forall|j: int|
                    0 <= j < ci && (parts@[j] as int) < old(self).sub_detectors@.len() && old(self).sub_detectors@[parts@[j] as int].is_some() && Self::part_accepts(
                        old(self).sub_detectors@[parts@[j] as int].unwrap().0,
                        *g1,
                        parts@[j] as int,
                        *g2,
                        flip,
                    ) ==> #[trigger] self.sub_detectors@[parts@[j] as int] == Some(
                        (old(self).sub_detectors@[parts@[j] as int].unwrap().0, ts),
                    ),
                forall|t: int|
                    0 <= t < manifold.points@.len() ==> ((if flip {
                        (#[trigger] manifold.points@[t]).part2
                    } else {
                        manifold.points@[t].part1
                    }) as int) < g1.num_parts() && g1.part_intersects(
                        (if flip {
                            manifold.points@[t].part2
                        } else {
                            manifold.points@[t].part1
                        }) as int,
                        q,
                    ),
                forall|i: int|
                    0 <= i < self.sub_detectors@.len() && (#[trigger] self.sub_detectors@[i]).is_some()
                        && self.sub_detectors@[i].unwrap().1 == ts && Self::part_would_emit(
                        self.sub_detectors@[i].unwrap().0,
                        *g1,
                        *m1,
                        i,
                        *g2,
                        *m2,
                        flip,
                        prediction.linear as int,
                    ) ==> manifold.points@.len() >= 1,
            decreases parts@.len() - ci,
        {
            let i = parts[ci];
            let (shift, part_geom) = g1.part(i);
            let part_pose = m1.add(shift);
            let part_shape = Shape::Simple(part_geom);
            proof {
                assert(g1.parts@[i as int].shape.wf() && !g1.parts@[i as int].shape.is_plane());
                assert(crate::math::in_range(m1.view().x + g1.parts@[i as int].shift.view().x)
                    && crate::math::in_range(m1.view().y + g1.parts@[i as int].shift.view().y)
                    && crate::math::in_range(m1.view().z + g1.parts@[i as int].shift.view().z));
                assert(part_pose.wf());
                assert(part_shape == Self::part_shape_spec(*g1, i as int));
                assert(part_pose == Self::part_pose_spec(*m1, *g1, i as int));
            }
            let slot = self.sub_detectors[i];
            let current: Option<(PrimitiveAlgorithm, u64)> = match slot {
                Some(e) => Some(e),
                None => {
                    let fresh = if flip {
                        get_primitive_contact_algorithm(g2, &part_shape)
                    } else {
                        get_primitive_contact_algorithm(&part_shape, g2)
                    };
                    match fresh {
                        Some(alg) => Some((alg, ts)),
                        None => None,
                    }
                },
            };
            let ghost pts_before = manifold.points@;
            if let Some((mut alg, mut t)) = current {
                let ok = if flip {
                    alg.emit_contacts(
                        0,
                        i as u64,
                        m2,
                        g2,
                        &part_pose,
                        &part_shape,
                        prediction,
                        id_alloc,
                        manifold,
                    )
                } else {
                    alg.emit_contacts(
                        i as u64,
                        0,
                        &part_pose,
                        &part_shape,
                        m2,
                        g2,
                        prediction,
                        id_alloc,
                        manifold,
                    )
                };
                if ok {
                    t = ts;
                }
                self.sub_detectors[i] = Some((alg, t));
                proof {
                    assert(parts@[ci as int] == i);
                    assert forall|t2: int|
                        0 <= t2 < manifold.points@.len() implies ((if flip {
                        (#[trigger] manifold.points@[t2]).part2
                    } else {
                        manifold.points@[t2].part1
                    }) as int) < g1.num_parts() && g1.part_intersects(
                        (if flip {
                            manifold.points@[t2].part2
                        } else {
                            manifold.points@[t2].part1
                        }) as int,
                        q,
                    ) by {
                        if !((if flip {
                            manifold.points@[t2].part2
                        } else {
                            manifold.points@[t2].part1
                        }) == i as u64 && (if flip {
                            manifold.points@[t2].part1
                        } else {
                            manifold.points@[t2].part2
                        }) == 0) {
                            let u = choose|u: int|
                                0 <= u < pts_before.len() && pts_before[u] == manifold.points@[t2];
                            assert(pts_before[u] == manifold.points@[t2]);
                        }
                    }
                }
            } else {
                proof {
                    assert(parts@[ci as int] == i);
                }
            }
            ci = ci + 1;
        }

        let n = self.sub_detectors.len();
        let mut k: usize = 0;
        while k < n
            invariant
                n == self.sub_detectors@.len(),
                0 <= k <= n,
                self.timestamp == ts,
                ts <= u64::MAX,
                self.flip == old(self).flip,
                g1.wf(),
                manifold.wf(),
                id_alloc.wf(),
                manifold.subshape_id1 == old(manifold).subshape_id1,
                manifold.subshape_id2 == old(manifold).subshape_id2,
                g1.num_parts() <= self.sub_detectors@.len(),
                q == HeightFieldShapeManifoldGenerator::local_query_box(
                    *m1,
                    *g2,
                    *m2,
                    prediction.linear as int,
                ),
                forall|i: int|
                    0 <= i < self.sub_detectors@.len() && (#[trigger] self.sub_detectors@[i]).is_some()
                        ==> self.sub_detectors@[i].unwrap().1 <= ts,
                forall|i: int|
                    0 <= i < k && (#[trigger] self.sub_detectors@[i]).is_some()
                        ==> self.sub_detectors@[i].unwrap().1 == ts,
                forall|i: int|
                    0 <= i < self.sub_detectors@.len() && (#[trigger] self.sub_detectors@[i]).is_some()
                        && self.sub_detectors@[i].unwrap().1 == ts ==> i < g1.num_parts()
                        && g1.part_intersects(i, q),
                forall|i: int|
                    0 <= i < self.sub_detectors@.len() && (#[trigger] self.sub_detectors@[i]).is_some()
                        && i < old(self).sub_detectors@.len() && old(self).sub_detectors@[i].is_some()
                        ==> self.sub_detectors@[i].unwrap().0 == old(self).sub_detectors@[i].unwrap().0,
                forall|i: int|
                    0 <= i < g1.num_parts() && #[trigger] g1.part_intersects(i, q) && (i >= old(self).sub_detectors@.len() || old(self).sub_detectors@[i].is_none())
                        && Self::part_dispatch(*g1, i, *g2, flip).is_some()
                        ==> self.sub_detectors@[i] == Some(
                        (Self::part_dispatch(*g1, i, *g2, flip).unwrap(), ts),
                    ),
                forall|i: int|
                    0 <= i < g1.num_parts() && #[trigger] g1.part_intersects(i, q) && i < old(self).sub_detectors@.len() && old(self).sub_detectors@[i].is_some()
                        && Self::part_accepts(
                        old(self).sub_detectors@[i].unwrap().0,
                        *g1,
                        i,
                        *g2,
                        flip,
                    ) ==> self.sub_detectors@[i] == Some(
                        (old(self).sub_detectors@[i].unwrap().0, ts),
                    ),
                forall|t: int|
                    0 <= t < manifold.points@.len() ==> ((if flip {
                        (#[trigger] manifold.points@[t]).part2
                    } else {
                        manifold.points@[t].part1
                    }) as int) < g1.num_parts() && g1.part_intersects(
                        (if flip {
                            manifold.points@[t].part2
                        } else {
                            manifold.points@[t].part1
                        }) as int,
                        q,
                    ),
                forall|i: int|
                    0 <= i < self.sub_detectors@.len() && (#[trigger] self.sub_detectors@[i]).is_some()
                        && self.sub_detectors@[i].unwrap().1 == ts && Self::part_would_emit(
                        self.sub_detectors@[i].unwrap().0,
                        *g1,
                        *m1,
                        i,
                        *g2,
                        *m2,
                        flip,
                        prediction.linear as int,
                    ) ==> manifold.points@.len() >= 1,
            decreases n - k,
        {
            let stale = match &self.sub_detectors[k] {
                Some((_, t)) => *t != ts,
                None => false,
            };
            if stale {
                self.sub_detectors[k] = None;
            }
            k = k + 1;
        }
    }

    /// Generates the manifold for a composite shape against another shape,
    /// dispatching one sub-detector per overlapping part and evicting the
    /// detectors of parts that no longer overlap.
    pub fn generate_contacts(
        &mut self,
        ma: &Vec3,
        a: &Shape,
        mb: &Vec3,
        b: &Shape,
        prediction: &ContactPrediction,
        id_alloc: &mut IdAllocator,
        manifold: &mut ContactManifold,
    ) -> (accepted: bool)
        requires
            old(self).wf(),
            old(self).timestamp < u64::MAX,
            generator_inputs_wf(*ma, *a, *mb, *b, *prediction, *old(id_alloc), *old(manifold)),
            !old(self).flip ==> !b.is_plane() && (a.is_composite_shape() ==> compound_pose_ok(
                *ma,
                a.spec_compound(),
            )),
            old(self).flip ==> !a.is_plane() && (b.is_composite_shape() ==> compound_pose_ok(
                *mb,
                b.spec_compound(),
            )),
        ensures
            final(self).wf(),
            final(id_alloc).wf(),
            final(manifold).wf(),
            accepted == if !old(self).flip {
                a.is_composite_shape()
            } else {
                b.is_composite_shape()
            },
            !accepted ==> *final(self) == *old(self) && *final(manifold) == *old(manifold)
                && *final(id_alloc) == *old(id_alloc),
            accepted ==> final(self).timestamp == old(self).timestamp + 1,
    {
        let flip = self.flip;
        if !flip {
            if let Some(c) = a.as_composite_shape() {
                self.do_update(ma, c, mb, b, prediction, id_alloc, manifold, false);
                return true;
            }
        } else {
            if let Some(c) = b.as_composite_shape() {
                self.do_update(mb, c, ma, a, prediction, id_alloc, manifold, true);
                return true;
            }
        }
        false
    }
}

} // verus!
