//! Collision detector between a height-field and another shape.
//!
//! The generator keeps one sub-detector per height-field cell, tagged with
//! the timestamp of the last frame in which that cell overlapped the other
//! shape's bounding box.  Each update enumerates the overlapping cells in
//! increasing order, reuses or allocates their sub-detectors through the
//! primitive dispatcher, and finally evicts every entry whose timestamp was
//! not refreshed, so the cache holds exactly the cells that stayed live.

use vstd::prelude::*;
use crate::contact::ContactPrediction;
use crate::generators::{generator_inputs_wf, get_primitive_contact_algorithm, primitive_accepts,
    primitive_dispatch, primitive_would_emit, PrimitiveAlgorithm};
use crate::shape::SimpleShape;
use crate::ids::IdAllocator;
use crate::manifold::ContactManifold;
use crate::math::{Aabb, Vec3};
use crate::shape::{HeightField, Shape};

verus! {

/// Collision detector between a height-field and another shape.
#[derive(Debug)]
pub struct HeightFieldShapeManifoldGenerator {
    pub sub_detectors: Vec<Option<(PrimitiveAlgorithm, u64)>>,
    pub flip: bool,
    pub timestamp: u64,
}

impl HeightFieldShapeManifoldGenerator {
    /// Every cached timestamp is at most the current one.
    pub open spec fn wf(self) -> bool {
        forall|i: int|
            0 <= i < self.sub_detectors@.len() && (#[trigger] self.sub_detectors@[i]).is_some()
                ==> self.sub_detectors@[i].unwrap().1 <= self.timestamp
    }

    /// The same generator seen from the other side, keeping its cached
    /// sub-detectors and timestamp.
    pub open spec fn spec_flipped(self) -> HeightFieldShapeManifoldGenerator {
        HeightFieldShapeManifoldGenerator { flip: !self.flip, ..self }
    }

    /// Returns the generator with the two bodies swapped.
    pub fn flipped(self) -> (r: HeightFieldShapeManifoldGenerator)
        ensures
            r == self.spec_flipped(),
    {
        HeightFieldShapeManifoldGenerator {
            sub_detectors: self.sub_detectors,
            flip: !self.flip,
            timestamp: self.timestamp,
        }
    }

    /// Creates a new collision detector between a height-field and another
    /// shape; `flip` means the height-field is the second body.
    pub fn new(flip: bool) -> (r: HeightFieldShapeManifoldGenerator)
        ensures
            r.wf(),
            r.flip == flip,
            r.sub_detectors@.len() == 0,
            r.timestamp == 0,
    {
        HeightFieldShapeManifoldGenerator { sub_detectors: Vec::new(), flip, timestamp: 0 }
    }

    /// The local-frame box of the other shape, loosened by the prediction
    /// band and carried into the height-field's frame.
    pub open spec fn local_query_box(
        hf_pose: Vec3,
        other: Shape,
        other_pose: Vec3,
        pred: int,
    ) -> Aabb {
        Aabb {
            mins: Vec3 {
                x: (other.spec_local_mins().x + other_pose.view().x - hf_pose.view().x
                    - pred) as i64,
                y: (other.spec_local_mins().y + other_pose.view().y - hf_pose.view().y
                    - pred) as i64,
                z: (other.spec_local_mins().z + other_pose.view().z - hf_pose.view().z
                    - pred) as i64,
            },
            maxs: Vec3 {
                x: (other.spec_local_maxs().x + other_pose.view().x - hf_pose.view().x
                    + pred) as i64,
                y: (other.spec_local_maxs().y + other_pose.view().y - hf_pose.view().y
                    + pred) as i64,
                z: (other.spec_local_maxs().z + other_pose.view().z - hf_pose.view().z
                    + pred) as i64,
            },
        }
    }

    /// The cuboid geometry of cell `i`, as a shape of its own.
    pub open spec fn cell_shape_spec(g1: HeightField, i: int) -> Shape {
        Shape::Simple(
            SimpleShape::Cuboid {
                mins: Vec3 {
                    x: g1.part_mins(i).x as i64,
                    y: g1.part_mins(i).y as i64,
                    z: g1.part_mins(i).z as i64,
                },
                maxs: Vec3 {
                    x: g1.part_maxs(i).x as i64,
                    y: g1.part_maxs(i).y as i64,
                    z: g1.part_maxs(i).z as i64,
                },
            },
        )
    }

    /// The algorithm the primitive dispatcher selects for cell `i` against
    /// the other shape, in the orientation the flip flag fixes.
    pub open spec fn cell_dispatch(g1: HeightField, i: int, other: Shape, flip: bool) -> Option<
        PrimitiveAlgorithm,
    > {
        if flip {
            primitive_dispatch(other, Self::cell_shape_spec(g1, i))
        } else {
            primitive_dispatch(Self::cell_shape_spec(g1, i), other)
        }
    }

    /// The stored algorithm accepts cell `i`'s pair, in the orientation the
    /// flip flag fixes.
    pub open spec fn cell_accepts(
        alg: PrimitiveAlgorithm,
        g1: HeightField,
        i: int,
        other: Shape,
        flip: bool,
    ) -> bool {
        if flip {
            primitive_accepts(alg, other, Self::cell_shape_spec(g1, i))
        } else {
            primitive_accepts(alg, Self::cell_shape_spec(g1, i), other)
        }
    }

    /// The stored algorithm would emit for cell `i`'s pair, in the
    /// orientation the flip flag fixes.
    pub open spec fn cell_would_emit(
        alg: PrimitiveAlgorithm,
        g1: HeightField,
        hfp: Vec3,
        i: int,
        other: Shape,
        op: Vec3,
        flip: bool,
        pred: int,
    ) -> bool {
        if flip {
            primitive_would_emit(alg, op, other, hfp, Self::cell_shape_spec(g1, i), pred)
        } else {
            primitive_would_emit(alg, hfp, Self::cell_shape_spec(g1, i), op, other, pred)
        }
    }

    fn do_update(
        &mut self,
        m1: &Vec3,
        g1: &HeightField,
        m2: &Vec3,
        g2: &Shape,
        prediction: &ContactPrediction,
        id_alloc: &mut IdAllocator,
        manifold: &mut ContactManifold,
        flip: bool,
    )
        requires
            old(self).wf(),
            old(self).timestamp < u64::MAX,
            m1.wf(),
            g1.wf(),
            m2.wf(),
            g2.wf(),
            !g2.is_plane(),
            prediction.wf(),
            old(id_alloc).wf(),
            old(manifold).wf(),
        ensures
            final(self).wf(),
            final(id_alloc).wf(),
            final(manifold).wf(),
            final(self).flip == old(self).flip,
            final(self).timestamp == old(self).timestamp + 1,
            final(manifold).subshape_id1 == old(manifold).subshape_id1,
            final(manifold).subshape_id2 == old(manifold).subshape_id2,
            // timestamp eviction: a cell absent from this frame's
            // enumeration holds no sub-detector after the update
            forall|i: int|
                0 <= i < final(self).sub_detectors@.len() && (#[trigger] final(self).sub_detectors@[i]).is_some() ==> i < g1.num_cells() && g1.part_intersects(
                    i,
                    Self::local_query_box(*m1, *g2, *m2, prediction.linear as int),
                ),
            // sub-detector reuse: a surviving cell keeps the algorithm it
            // already had
            forall|i: int|
                0 <= i < final(self).sub_detectors@.len() && (#[trigger] final(self).sub_detectors@[i]).is_some() && i < old(self).sub_detectors@.len() && old(self).sub_detectors@[i].is_some() ==> final(self).sub_detectors@[i].unwrap().0 == old(self).sub_detectors@[i].unwrap().0,
            // every surviving entry carries the fresh timestamp
            forall|i: int|
                0 <= i < final(self).sub_detectors@.len() && (#[trigger] final(self).sub_detectors@[i]).is_some() ==> final(self).sub_detectors@[i].unwrap().1 == old(self).timestamp + 1,
            // cache completeness: an enumerated cell with no prior detector
            // whose pair the dispatcher covers gets the dispatched detector,
            // stamped with the fresh timestamp
            forall|i: int|
                0 <= i < g1.num_cells() && #[trigger] g1.part_intersects(
                    i,
                    Self::local_query_box(*m1, *g2, *m2, prediction.linear as int),
                ) && (i >= old(self).sub_detectors@.len() || old(self).sub_detectors@[i].is_none())
                    && Self::cell_dispatch(*g1, i, *g2, flip).is_some() ==> i < final(self).sub_detectors@.len() && final(self).sub_detectors@[i] == Some(
                    (
                        Self::cell_dispatch(*g1, i, *g2, flip).unwrap(),
                        (old(self).timestamp + 1) as u64,
                    ),
                ),
            // cache refresh: an enumerated cell whose existing detector
            // still accepts the pair survives with the fresh timestamp
            forall|i: int|
                0 <= i < g1.num_cells() && #[trigger] g1.part_intersects(
                    i,
                    Self::local_query_box(*m1, *g2, *m2, prediction.linear as int),
                ) && i < old(self).sub_detectors@.len() && old(self).sub_detectors@[i].is_some()
                    && Self::cell_accepts(
                    old(self).sub_detectors@[i].unwrap().0,
                    *g1,
                    i,
                    *g2,
                    flip,
                ) ==> i < final(self).sub_detectors@.len() && final(self).sub_detectors@[i] == Some(
                    (
                        old(self).sub_detectors@[i].unwrap().0,
                        (old(self).timestamp + 1) as u64,
                    ),
                ),
            // the manifold holds one regeneration cycle: every contact
            // carries an enumerated cell as its sub-part identifier
            forall|t: int|
                0 <= t < final(manifold).points@.len() ==> ((if flip {
                    (#[trigger] final(manifold).points@[t]).part2
                } else {
                    final(manifold).points@[t].part1
                }) as int) < g1.num_cells() && g1.part_intersects(
                    (if flip {
                        final(manifold).points@[t].part2
                    } else {
                        final(manifold).points@[t].part1
                    }) as int,
                    Self::local_query_box(*m1, *g2, *m2, prediction.linear as int),
                ),
            // emission: a surviving detector whose pair would emit leaves
            // the manifold non-empty
            forall|i: int|
                0 <= i < final(self).sub_detectors@.len() && (#[trigger] final(self).sub_detectors@[i]).is_some() && Self::cell_would_emit(
                    final(self).sub_detectors@[i].unwrap().0,
                    *g1,
                    *m1,
                    i,
                    *g2,
                    *m2,
                    flip,
                    prediction.linear as int,
                ) ==> final(manifold).points@.len() >= 1,
    {
        self.timestamp = self.timestamp + 1;
        let ts = self.timestamp;
        manifold.save_cache_and_clear(id_alloc);

        // other shape's box, carried into the composite's local frame
        let (lmin, lmax) = g2.local_bounds();
        let q = Aabb {
            mins: Vec3 {
                x: lmin.x + m2.x - m1.x - prediction.linear,
                y: lmin.y + m2.y - m1.y - prediction.linear,
                z: lmin.z + m2.z - m1.z - prediction.linear,
            },
            maxs: Vec3 {
                x: lmax.x + m2.x - m1.x + prediction.linear,
                y: lmax.y + m2.y - m1.y + prediction.linear,
                z: lmax.z + m2.z - m1.z + prediction.linear,
            },
        };
        proof {
            assert(q == Self::local_query_box(*m1, *g2, *m2, prediction.linear as int));
        }

        // grow the cell table to cover every cell index
        let ncells = g1.cell_count();
        while self.sub_detectors.len() < ncells
            invariant
                self.wf(),
                self.timestamp == ts,
                self.flip == old(self).flip,
                old(self).sub_detectors@.len() <= self.sub_detectors@.len(),
                forall|i: int|
                    0 <= i < self.sub_detectors@.len() ==> (#[trigger] self.sub_detectors@[i])
                        == (if i < old(self).sub_detectors@.len() {
                        old(self).sub_detectors@[i]
                    } else {
                        None
                    }),
            decreases ncells - self.sub_detectors.len(),
        {
            self.sub_detectors.push(None);
        }

        // find and update the sub-detectors of the overlapping cells
        let cells = g1.cells_in_aabb(&q);
        let mut ci: usize = 0;
        while ci < cells.len()
            invariant
                self.timestamp == ts,
                ts <= u64::MAX,
                self.flip == old(self).flip,
                m1.wf(),
                g1.wf(),
                m2.wf(),
                g2.wf(),
                !g2.is_plane(),
                prediction.wf(),
                id_alloc.wf(),
                manifold.wf(),
                manifold.subshape_id1 == old(manifold).subshape_id1,
                manifold.subshape_id2 == old(manifold).subshape_id2,
                0 <= ci <= cells@.len(),
                g1.num_cells() <= self.sub_detectors@.len(),
                forall|j: int|
                    0 <= j < cells@.len() ==> cells@[j] < g1.num_cells() && g1.part_intersects(
                        cells@[j] as int,
                        q,
                    ),
                forall|j1: int, j2: int| 0 <= j1 < j2 < cells@.len() ==> cells@[j1] < cells@[j2],
                q == Self::local_query_box(*m1, *g2, *m2, prediction.linear as int),
                forall|i: int|
                    0 <= i < self.sub_detectors@.len() && (#[trigger] self.sub_detectors@[i]).is_some()
                        ==> self.sub_detectors@[i].unwrap().1 <= ts,
                // only enumerated cells carry the fresh timestamp
                forall|i: int|
                    0 <= i < self.sub_detectors@.len() && (#[trigger] self.sub_detectors@[i]).is_some()
                        && self.sub_detectors@[i].unwrap().1 == ts ==> exists|j: int|
                        0 <= j < cells@.len() && cells@[j] == i,
                // reuse: an existing algorithm survives with its state
                forall|i: int|
                    0 <= i < old(self).sub_detectors@.len() && (#[trigger] old(self).sub_detectors@[i]).is_some()
                        ==> i < self.sub_detectors@.len() && self.sub_detectors@[i].is_some()
                        && self.sub_detectors@[i].unwrap().0 == old(self).sub_detectors@[i].unwrap().0,
                // unprocessed cells keep their grown slot value
                forall|i: int|
                    0 <= i < self.sub_detectors@.len() && !(exists|j: int|
                        0 <= j < ci && cells@[j] == i) ==> #[trigger] self.sub_detectors@[i] == (
                    if i < old(self).sub_detectors@.len() {
                        old(self).sub_detectors@[i]
                    } else {
                        None
                    }),
                // cache completeness over the processed prefix
                forall|j: int|
                    0 <= j < ci && ((cells@[j] as int) >= old(self).sub_detectors@.len() || old(self).sub_detectors@[cells@[j] as int].is_none()) && Self::cell_dispatch(
                        *g1,
                        cells@[j] as int,
                        *g2,
                        flip,
                    ).is_some() ==> #[trigger] self.sub_detectors@[cells@[j] as int] == Some(
                        (Self::cell_dispatch(*g1, cells@[j] as int, *g2, flip).unwrap(), ts),
                    ),
                // cache refresh over the processed prefix
                forall|j: int|
                    0 <= j < ci && (cells@[j] as int) < old(self).sub_detectors@.len() && old(self).sub_detectors@[cells@[j] as int].is_some() && Self::cell_accepts(
                        old(self).sub_detectors@[cells@[j] as int].unwrap().0,
                        *g1,
                        cells@[j] as int,
                        *g2,
                        flip,
                    ) ==> #[trigger] self.sub_detectors@[cells@[j] as int] == Some(
                        (old(self).sub_detectors@[cells@[j] as int].unwrap().0, ts),
                    ),
                // every contact carries an enumerated cell
                forall|t: int|
                    0 <= t < manifold.points@.len() ==> ((if flip {
                        (#[trigger] manifold.points@[t]).part2
                    } else {
                        manifold.points@[t].part1
                    }) as int) < g1.num_cells() && g1.part_intersects(
                        (if flip {
                            manifold.points@[t].part2
                        } else {
                            manifold.points@[t].part1
                        }) as int,
                        q,
                    ),
                // a fresh-stamped detector whose pair would emit has left
                // the manifold non-empty
                forall|i: int|
                    0 <= i < self.sub_detectors@.len() && (#[trigger] self.sub_detectors@[i]).is_some()
                        && self.sub_detectors@[i].unwrap().1 == ts && Self::cell_would_emit(
                        self.sub_detectors@[i].unwrap().0,
                        *g1,
                        *m1,
                        i,
                        *g2,
                        *m2,
                        flip,
                        prediction.linear as int,
                    ) ==> manifold.points@.len() >= 1,
            decreases cells@.len() - ci,
        {
            let i = cells[ci];
            let part = g1.part_shape(i);
            let part_shape = Shape::Simple(part);
            proof {
                assert(part_shape == Self::cell_shape_spec(*g1, i as int));
            }
            let slot = self.sub_detectors[i];
            let current: Option<(PrimitiveAlgorithm, u64)> = match slot {
                Some(e) => Some(e),
                None => {
                    let fresh = if flip {
                        get_primitive_contact_algorithm(g2, &part_shape)
                    } else {
                        get_primitive_contact_algorithm(&part_shape, g2)
                    };
                    match fresh {
                        Some(alg) => Some((alg, ts)),
                        None => None,
                    }
                },
            };
            let ghost pts_before = manifold.points@;
            if let Some((mut alg, mut t)) = current {
                let ok = if flip {
                    alg.emit_contacts(
                        0,
                        i as u64,
                        m2,
                        g2,
                        m1,
                        &part_shape,
                        prediction,
                        id_alloc,
                        manifold,
                    )
                } else {
                    alg.emit_contacts(
                        i as u64,
                        0,
                        m1,
                        &part_shape,
                        m2,
                        g2,
                        prediction,
                        id_alloc,
                        manifold,
                    )
                };
                if ok {
                    t = ts;
                }
                self.sub_detectors[i] = Some((alg, t));
                proof {
                    assert(cells@[ci as int] == i);
                    assert forall|t2: int|
                        0 <= t2 < manifold.points@.len() implies ((if flip {
                        (#[trigger] manifold.points@[t2]).part2
                    } else {
                        manifold.points@[t2].part1
                    }) as int) < g1.num_cells() && g1.part_intersects(
                        (if flip {
                            manifold.points@[t2].part2
                        } else {
                            manifold.points@[t2].part1
                        }) as int,
                        q,
                    ) by {
                        if !((if flip {
                            manifold.points@[t2].part2
                        } else {
                            manifold.points@[t2].part1
                        }) == i as u64 && (if flip {
                            manifold.points@[t2].part1
                        } else {
                            manifold.points@[t2].part2
                        }) == 0) {
                            let u = choose|u: int|
                                0 <= u < pts_before.len() && pts_before[u] == manifold.points@[t2];
                            assert(pts_before[u] == manifold.points@[t2]);
                        }
                    }
                }
            } else {
                proof {
                    assert(cells@[ci as int] == i);
                }
            }
            ci = ci + 1;
        }

        // evict every entry that this frame did not refresh
        let n = self.sub_detectors.len();
        let mut k: usize = 0;
        while k < n
            invariant
                n == self.sub_detectors@.len(),
                0 <= k <= n,
                self.timestamp == ts,
                ts <= u64::MAX,
                self.flip == old(self).flip,
                g1.wf(),
                manifold.wf(),
                id_alloc.wf(),
                manifold.subshape_id1 == old(manifold).subshape_id1,
                manifold.subshape_id2 == old(manifold).subshape_id2,
                g1.num_cells() <= self.sub_detectors@.len(),
                q == Self::local_query_box(*m1, *g2, *m2, prediction.linear as int),
                forall|i: int|
                    0 <= i < self.sub_detectors@.len() && (#[trigger] self.sub_detectors@[i]).is_some()
                        ==> self.sub_detectors@[i].unwrap().1 <= ts,
                forall|i: int|
                    0 <= i < k && (#[trigger] self.sub_detectors@[i]).is_some()
                        ==> self.sub_detectors@[i].unwrap().1 == ts,
                forall|i: int|
                    0 <= i < self.sub_detectors@.len() && (#[trigger] self.sub_detectors@[i]).is_some()
                        && self.sub_detectors@[i].unwrap().1 == ts ==> i < g1.num_cells()
                        && g1.part_intersects(i, q),
                forall|i: int|
                    0 <= i < self.sub_detectors@.len() && (#[trigger] self.sub_detectors@[i]).is_some()
                        && i < old(self).sub_detectors@.len() && old(self).sub_detectors@[i].is_some()
                        ==> self.sub_detectors@[i].unwrap().0 == old(self).sub_detectors@[i].unwrap().0,
                forall|i: int|
                    0 <= i < g1.num_cells() && #[trigger] g1.part_intersects(i, q) && (i >= old(self).sub_detectors@.len() || old(self).sub_detectors@[i].is_none())
                        && Self::cell_dispatch(*g1, i, *g2, flip).is_some()
                        ==> self.sub_detectors@[i] == Some(
                        (Self::cell_dispatch(*g1, i, *g2, flip).unwrap(), ts),
                    ),
                forall|i: int|
                    0 <= i < g1.num_cells() && #[trigger] g1.part_intersects(i, q) && i < old(self).sub_detectors@.len() && old(self).sub_detectors@[i].is_some()
                        && Self::cell_accepts(
                        old(self).sub_detectors@[i].unwrap().0,
                        *g1,
                        i,
                        *g2,
                        flip,
                    ) ==> self.sub_detectors@[i] == Some(
                        (old(self).sub_detectors@[i].unwrap().0, ts),
                    ),
                forall|t: int|
                    0 <= t < manifold.points@.len() ==> ((if flip {
                        (#[trigger] manifold.points@[t]).part2
                    } else {
                        manifold.points@[t].part1
                    }) as int) < g1.num_cells() && g1.part_intersects(
                        (if flip {
                            manifold.points@[t].part2
                        } else {
                            manifold.points@[t].part1
                        }) as int,
                        q,
                    ),
                forall|i: int|
                    0 <= i < self.sub_detectors@.len() && (#[trigger] self.sub_detectors@[i]).is_some()
                        && self.sub_detectors@[i].unwrap().1 == ts && Self::cell_would_emit(
                        self.sub_detectors@[i].unwrap().0,
                        *g1,
                        *m1,
                        i,
                        *g2,
                        *m2,
                        flip,
                        prediction.linear as int,
                    ) ==> manifold.points@.len() >= 1,
            decreases n - k,
        {
            let stale = match &self.sub_detectors[k] {
                Some((_, t)) => *t != ts,
                None => false,
            };
            if stale {
                self.sub_detectors[k] = None;
            }
            k = k + 1;
        }
    }

    /// Generates the manifold for a height-field against another shape,
    /// dispatching one sub-detector per overlapping cell and evicting the
    /// detectors of cells that no longer overlap.
    pub fn generate_contacts(
        &mut self,
        ma: &Vec3,
        a: &Shape,
        mb: &Vec3,
        b: &Shape,
        prediction: &ContactPrediction,
        id_alloc: &mut IdAllocator,
        manifold: &mut ContactManifold,
    ) -> (accepted: bool)
        requires
            old(self).wf(),
            old(self).timestamp < u64::MAX,
            generator_inputs_wf(*ma, *a, *mb, *b, *prediction, *old(id_alloc), *old(manifold)),
            !old(self).flip ==> !b.is_plane(),
            old(self).flip ==> !a.is_plane(),
        ensures
            final(self).wf(),
            final(id_alloc).wf(),
            final(manifold).wf(),
            accepted == if !old(self).flip {
                a.is_height_field()
            } else {
                b.is_height_field()
            },
            !accepted ==> *final(self) == *old(self) && *final(manifold) == *old(manifold) && *final(id_alloc) == *old(id_alloc),
            accepted ==> {
                let hf = if !old(self).flip {
                    *a
                } else {
                    *b
                };
                let hfp = if !old(self).flip {
                    *ma
                } else {
                    *mb
                };
                let other = if !old(self).flip {
                    *b
                } else {
                    *a
                };
                let op = if !old(self).flip {
                    *mb
                } else {
                    *ma
                };
                &&& final(self).timestamp == old(self).timestamp + 1
                &&& forall|i: int|
                    0 <= i < final(self).sub_detectors@.len() && (#[trigger] final(self).sub_detectors@[i]).is_some() ==> i < hf.spec_height_field().num_cells()
                        && hf.spec_height_field().part_intersects(
                        i,
                        Self::local_query_box(hfp, other, op, prediction.linear as int),
                    )
                &&& forall|i: int|
                    0 <= i < final(self).sub_detectors@.len() && (#[trigger] final(self).sub_detectors@[i]).is_some() && i < old(self).sub_detectors@.len() && old(self).sub_detectors@[i].is_some() ==> final(self).sub_detectors@[i].unwrap().0
                        == old(self).sub_detectors@[i].unwrap().0
                &&& (forall|i: int|
                    0 <= i < final(self).sub_detectors@.len() && (#[trigger] final(self).sub_detectors@[i]).is_some() ==> final(self).sub_detectors@[i].unwrap().1 == old(self).timestamp
                        + 1)
                &&& (forall|i: int|
                    0 <= i < hf.spec_height_field().num_cells()
                        && #[trigger] hf.spec_height_field().part_intersects(
                        i,
                        Self::local_query_box(hfp, other, op, prediction.linear as int),
                    ) && (i >= old(self).sub_detectors@.len() || old(self).sub_detectors@[i].is_none()) && Self::cell_dispatch(
                        hf.spec_height_field(),
                        i,
                        other,
                        old(self).flip,
                    ).is_some() ==> i < final(self).sub_detectors@.len() && final(self).sub_detectors@[i] == Some(
                        (
                            Self::cell_dispatch(
                                hf.spec_height_field(),
                                i,
                                other,
                                old(self).flip,
                            ).unwrap(),
                            (old(self).timestamp + 1) as u64,
                        ),
                    ))
                &&& (forall|i: int|
                    0 <= i < hf.spec_height_field().num_cells()
                        && #[trigger] hf.spec_height_field().part_intersects(
                        i,
                        Self::local_query_box(hfp, other, op, prediction.linear as int),
                    ) && i < old(self).sub_detectors@.len() && old(self).sub_detectors@[i].is_some()
                        && Self::cell_accepts(
                        old(self).sub_detectors@[i].unwrap().0,
                        hf.spec_height_field(),
                        i,
                        other,
                        old(self).flip,
                    ) ==> i < final(self).sub_detectors@.len() && final(self).sub_detectors@[i]
                        == Some(
                        (
                            old(self).sub_detectors@[i].unwrap().0,
                            (old(self).timestamp + 1) as u64,
                        ),
                    ))
                &&& (forall|t: int|
                    0 <= t < final(manifold).points@.len() ==> ((if old(self).flip {
                        (#[trigger] final(manifold).points@[t]).part2
                    } else {
                        final(manifold).points@[t].part1
                    }) as int) < hf.spec_height_field().num_cells()
                        && hf.spec_height_field().part_intersects(
                        (if old(self).flip {
                            final(manifold).points@[t].part2
                        } else {
                            final(manifold).points@[t].part1
                        }) as int,
                        Self::local_query_box(hfp, other, op, prediction.linear as int),
                    ))
                &&& (forall|i: int|
                    0 <= i < final(self).sub_detectors@.len() && (#[trigger] final(self).sub_detectors@[i]).is_some() && Self::cell_would_emit(
                        final(self).sub_detectors@[i].unwrap().0,
                        hf.spec_height_field(),
                        hfp,
                        i,
                        other,
                        op,
                        old(self).flip,
                        prediction.linear as int,
                    ) ==> final(manifold).points@.len() >= 1)
            },
    {
        let flip = self.flip;
        if !flip {
            if let Some(hf) = a.as_height_field() {
                self.do_update(ma, hf, mb, b, prediction, id_alloc, manifold, false);
                return true;
            }
        } else {
            if let Some(hf) = b.as_height_field() {
                self.do_update(mb, hf, ma, a, prediction, id_alloc, manifold, true);
                return true;
            }
        }
        false
    }
}

} // verus!
