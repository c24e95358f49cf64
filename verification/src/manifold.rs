//! Persistent contact manifolds.
//!
//! A manifold holds a small set of tracked contacts keyed by stable feature
//! identifiers.  At the start of a regeneration cycle the current entries
//! move to a cache; a pushed contact whose feature pair matches a cached
//! entry reuses the cached tracking id, so ids persist across frames as long
//! as feature assignments do.  Stale cache entries left from the previous
//! cycle are discarded and their ids recycled.

use vstd::prelude::*;
use crate::contact::{Contact, ContactKinematic, FeatureId};
use crate::ids::IdAllocator;

verus! {

/// Largest number of contacts a manifold keeps.
pub const MAX_MANIFOLD_POINTS: usize = 4;

/// A contact together with its kinematic, the sub-part and feature it was
/// generated from on each body, and its persistent tracking id.
#[derive(Clone, Copy, PartialEq, Eq, Structural, Debug)]
pub struct TrackedContact {
    pub contact: Contact,
    pub kinematic: ContactKinematic,
    pub part1: u64,
    pub fid1: FeatureId,
    pub part2: u64,
    pub fid2: FeatureId,
    pub id: u64,
}

/// The entry was generated by the same sub-part and feature pair.
pub open spec fn key_matches(e: TrackedContact, p1: u64, f1: FeatureId, p2: u64, f2: FeatureId) -> bool {
    e.part1 == p1 && e.fid1 == f1 && e.part2 == p2 && e.fid2 == f2
}

/// `k` is the first index of `cache` whose entry matches the key.
pub open spec fn is_first_match(
    cache: Seq<TrackedContact>,
    p1: u64,
    f1: FeatureId,
    p2: u64,
    f2: FeatureId,
    k: int,
) -> bool {
    0 <= k < cache.len() && key_matches(cache[k], p1, f1, p2, f2) && forall|j: int|
        0 <= j < k ==> !key_matches(cache[j], p1, f1, p2, f2)
}

/// `s` is the first index of minimal depth.
pub open spec fn is_first_min_depth(points: Seq<TrackedContact>, s: int) -> bool {
    0 <= s < points.len() && (forall|j: int|
        0 <= j < points.len() ==> points[j].contact.depth >= points[s].contact.depth) && (forall|
        j: int,
    |
        0 <= j < s ==> points[j].contact.depth > points[s].contact.depth)
}

/// `s` is the first index of maximal depth.
pub open spec fn is_first_max_depth(points: Seq<TrackedContact>, s: int) -> bool {
    0 <= s < points.len() && (forall|j: int|
        0 <= j < points.len() ==> points[j].contact.depth <= points[s].contact.depth) && (forall|
        j: int,
    |
        0 <= j < s ==> points[j].contact.depth < points[s].contact.depth)
}

/// Persistent set of contacts for one interacting pair.
#[derive(Debug)]
pub struct ContactManifold {
    pub points: Vec<TrackedContact>,
    pub cache: Vec<TrackedContact>,
    pub subshape_id1: u64,
    pub subshape_id2: u64,
}

impl ContactManifold {
    /// The manifold never exceeds its capacity.
    pub open spec fn wf(self) -> bool {
        self.points@.len() <= MAX_MANIFOLD_POINTS as int
    }

    pub fn new() -> (r: ContactManifold)
        ensures
            r.wf(),
            r.points@.len() == 0,
            r.cache@.len() == 0,
            r.subshape_id1 == 0,
            r.subshape_id2 == 0,
    {
        ContactManifold { points: Vec::new(), cache: Vec::new(), subshape_id1: 0, subshape_id2: 0 }
    }

    pub fn len(&self) -> (r: usize)
        ensures
            r == self.points@.len(),
    {
        self.points.len()
    }

    pub fn contacts(&self) -> (r: &Vec<TrackedContact>)
        ensures
            r@ == self.points@,
    {
        &self.points
    }

    pub fn set_subshape_id1(&mut self, id: u64)
        ensures
            *final(self) == (ContactManifold { subshape_id1: id, ..*old(self) }),
    {
        self.subshape_id1 = id;
    }

    pub fn set_subshape_id2(&mut self, id: u64)
        ensures
            *final(self) == (ContactManifold { subshape_id2: id, ..*old(self) }),
    {
        self.subshape_id2 = id;
    }

    /// Starts a regeneration cycle: the ids of stale cache entries left from
    /// the previous cycle are recycled, the current contacts become the new
    /// cache, and the contact set is emptied.
    pub fn save_cache_and_clear(&mut self, alloc: &mut IdAllocator)
        requires
            old(self).wf(),
            old(alloc).wf(),
        ensures
            final(self).wf(),
            final(alloc).wf(),
            final(self).cache@ == old(self).points@,
            final(self).points@.len() == 0,
            final(self).subshape_id1 == old(self).subshape_id1,
            final(self).subshape_id2 == old(self).subshape_id2,
            forall|i: int|
                0 <= i < old(self).cache@.len() ==> !final(alloc).is_live(old(self).cache@[i].id),
            forall|o: u64|
                (forall|i: int| 0 <= i < old(self).cache@.len() ==> old(self).cache@[i].id != o)
                    ==> final(alloc).is_live(o) == old(alloc).is_live(o),
    {
        let n = self.cache.len();
        let mut i: usize = 0;
        while i < n
            invariant
                n == self.cache@.len(),
                0 <= i <= n,
                self.cache@ == old(self).cache@,
                self.points@ == old(self).points@,
                self.subshape_id1 == old(self).subshape_id1,
                self.subshape_id2 == old(self).subshape_id2,
                alloc.wf(),
                forall|j: int| 0 <= j < i ==> !alloc.is_live(self.cache@[j].id),
                forall|o: u64|
                    (forall|j: int| 0 <= j < n ==> self.cache@[j].id != o) ==> alloc.is_live(o)
                        == old(alloc).is_live(o),
            decreases n - i,
        {
            let id = self.cache[i].id;
            alloc.free(id);
            i = i + 1;
        }
        self.cache.clear();
        std::mem::swap(&mut self.cache, &mut self.points);
    }

    /// Pushes a contact.  The tracking id is taken from the first cache
    /// entry with the same feature key, which is consumed; otherwise a new
    /// id is allocated.  When the manifold is full the new contact replaces
    /// the first shallowest contact if it is deeper, and is dropped
    /// otherwise — a keep-deepest policy; the area-spreading refinement of
    /// the full capacity policy is left to callers that need it, and the
    /// contract states the policy implemented here.  Returns the tracking
    /// id of the kept contact, or `None` when the contact was dropped.
    pub fn push(
        &mut self,
        contact: Contact,
        kinematic: ContactKinematic,
        p1: u64,
        f1: FeatureId,
        p2: u64,
        f2: FeatureId,
        alloc: &mut IdAllocator,
    ) -> (r: Option<u64>)
        requires
            old(self).wf(),
            old(alloc).wf(),
        ensures
            final(self).wf(),
            final(alloc).wf(),
            final(self).subshape_id1 == old(self).subshape_id1,
            final(self).subshape_id2 == old(self).subshape_id2,
            // cache consumption
            (forall|k: int|
                is_first_match(old(self).cache@, p1, f1, p2, f2, k) ==> final(self).cache@ == old(self).cache@.remove(k)),
            !(exists|k2: int| is_first_match(old(self).cache@, p1, f1, p2, f2, k2))
                ==> final(self).cache@ == old(self).cache@,
            // id persistence: a matching cache entry hands its id on
            (forall|k: int|
                is_first_match(old(self).cache@, p1, f1, p2, f2, k) && r.is_some() ==> r.unwrap()
                    == old(self).cache@[k].id),
            (forall|k: int|
                is_first_match(old(self).cache@, p1, f1, p2, f2, k) ==> *final(alloc) == *old(alloc)),
            // contact set update
            old(self).points@.len() < MAX_MANIFOLD_POINTS as int ==> r.is_some() && final(self).points@
                == old(self).points@.push(
                TrackedContact {
                    contact,
                    kinematic,
                    part1: p1,
                    fid1: f1,
                    part2: p2,
                    fid2: f2,
                    id: r.unwrap(),
                },
            ),
            old(self).points@.len() == MAX_MANIFOLD_POINTS as int ==> (forall|s: int|
                is_first_min_depth(old(self).points@, s) ==> (if contact.depth
                    > old(self).points@[s].contact.depth {
                    r.is_some() && final(self).points@ == old(self).points@.update(
                        s,
                        TrackedContact {
                            contact,
                            kinematic,
                            part1: p1,
                            fid1: f1,
                            part2: p2,
                            fid2: f2,
                            id: r.unwrap(),
                        },
                    )
                } else {
                    r.is_none() && final(self).points@ == old(self).points@
                })),
            // a fresh id comes from the allocator and other ids keep their
            // liveness
            !(exists|k: int| is_first_match(old(self).cache@, p1, f1, p2, f2, k)) && r.is_some()
                ==> (forall|o: u64|
                o != r.unwrap() ==> final(alloc).is_live(o) == old(alloc).is_live(o)),
            !(exists|k: int| is_first_match(old(self).cache@, p1, f1, p2, f2, k)) ==> (exists|
                g: u64,
            |
                final(alloc).is_live(g) && (old(alloc).has_headroom() ==> !old(alloc).is_live(g))
                    && (forall|o: u64|
                    o != g ==> final(alloc).is_live(o) == old(alloc).is_live(o)) && (r.is_some()
                    ==> r.unwrap() == g)),
    {
        // find the first cache entry with the same key
        let n = self.cache.len();
        let mut k: usize = 0;
        let mut found = false;
        while k < n && !found
            invariant
                n == self.cache@.len(),
                0 <= k <= n,
                self == old(self),
                !found ==> forall|j: int|
                    0 <= j < k ==> !key_matches(self.cache@[j], p1, f1, p2, f2),
                found ==> is_first_match(self.cache@, p1, f1, p2, f2, k as int),
            decreases n - k + (if found {
                0int
            } else {
                1int
            }),
        {
            let e = &self.cache[k];
            if e.part1 == p1 && e.fid1 == f1 && e.part2 == p2 && e.fid2 == f2 {
                found = true;
            } else {
                k = k + 1;
            }
        }
        let id: u64;
        if found {
            id = self.cache[k].id;
            let _ = self.cache.remove(k);
        } else {
            proof {
                assert(forall|k2: int|
                    !is_first_match(old(self).cache@, p1, f1, p2, f2, k2));
            }
            id = alloc.allocate();
        }
        let entry = TrackedContact {
            contact,
            kinematic,
            part1: p1,
            fid1: f1,
            part2: p2,
            fid2: f2,
            id,
        };
        if self.points.len() < MAX_MANIFOLD_POINTS {
            self.points.push(entry);
            Some(id)
        } else {
            // find the first shallowest contact
            let m = self.points.len();
            let mut s: usize = 0;
            let mut j: usize = 1;
            while j < m
                invariant
                    m == self.points@.len(),
                    m > 0,
                    0 <= s < j <= m,
                    forall|t: int|
                        0 <= t < j ==> self.points@[t].contact.depth
                            >= self.points@[s as int].contact.depth,
                    forall|t: int|
                        0 <= t < s ==> self.points@[t].contact.depth
                            > self.points@[s as int].contact.depth,
                decreases m - j,
            {
                if self.points[j].contact.depth < self.points[s].contact.depth {
                    s = j;
                }
                j = j + 1;
            }
            proof {
                assert(is_first_min_depth(self.points@, s as int));
            }
            if contact.depth > self.points[s].contact.depth {
                self.points[s] = entry;
                Some(id)
            } else {
                None
            }
        }
    }

    /// The first deepest contact, or `None` when the manifold is empty.
    pub fn deepest_contact(&self) -> (r: Option<TrackedContact>)
        ensures
            r.is_some() <==> self.points@.len() > 0,
            forall|s: int| is_first_max_depth(self.points@, s) ==> r == Some(self.points@[s]),
    {
        if self.points.len() == 0 {
            return None;
        }
        let m = self.points.len();
        let mut s: usize = 0;
        let mut j: usize = 1;
        while j < m
            invariant
                m == self.points@.len(),
                m > 0,
                0 <= s < j <= m,
                forall|t: int|
                    0 <= t < j ==> self.points@[t].contact.depth
                        <= self.points@[s as int].contact.depth,
                forall|t: int|
                    0 <= t < s ==> self.points@[t].contact.depth
                        < self.points@[s as int].contact.depth,
            decreases m - j,
        {
            if self.points[j].contact.depth > self.points[s].contact.depth {
                s = j;
            }
            j = j + 1;
        }
        proof {
            assert(is_first_max_depth(self.points@, s as int));
            assert(forall|t: int|
                is_first_max_depth(self.points@, t) ==> t == s as int);
        }
        Some(self.points[s])
    }
}

/// How an emitter may change the contact list of an ongoing regeneration
/// cycle: it never shrinks, and every entry either was already there or
/// carries the given sub-part identifiers.
pub open spec fn emitted_into(
    old_pts: Seq<TrackedContact>,
    new_pts: Seq<TrackedContact>,
    part1: u64,
    part2: u64,
) -> bool {
    new_pts.len() >= old_pts.len() && (forall|t: int|
        0 <= t < new_pts.len() ==> ((#[trigger] new_pts[t]).part1 == part1 && new_pts[t].part2
            == part2) || old_pts.contains(new_pts[t]))
}

/// Every id that became live during an emission is the tracking id of some
/// contact in the list.
pub open spec fn fresh_ids_tracked(
    old_alloc: IdAllocator,
    new_alloc: IdAllocator,
    new_pts: Seq<TrackedContact>,
) -> bool {
    forall|o: u64|
        !old_alloc.is_live(o) && #[trigger] new_alloc.is_live(o) ==> exists|t: int|
            0 <= t < new_pts.len() && (#[trigger] new_pts[t]).id == o
}

/// A non-empty contact list has a first shallowest entry.
pub proof fn lemma_first_min_exists(points: Seq<TrackedContact>)
    requires
        points.len() > 0,
    ensures
        exists|s: int| is_first_min_depth(points, s),
    decreases points.len(),
{
    if points.len() == 1 {
        assert(is_first_min_depth(points, 0));
    } else {
        lemma_first_min_exists(points.drop_last());
        let s = choose|s: int| is_first_min_depth(points.drop_last(), s);
        assert(forall|j: int| 0 <= j < points.len() - 1 ==> points.drop_last()[j] == points[j]);
        if points.last().contact.depth < points[s].contact.depth {
            assert(is_first_min_depth(points, points.len() - 1));
        } else {
            assert(is_first_min_depth(points, s));
        }
    }
}

/// A push outcome (appended, replaced, or dropped) satisfies the emission
/// relation for the pushed entry's sub-part identifiers.
pub proof fn lemma_push_emitted(
    pts0: Seq<TrackedContact>,
    pts1: Seq<TrackedContact>,
    e: TrackedContact,
    part1: u64,
    part2: u64,
)
    requires
        e.part1 == part1,
        e.part2 == part2,
        pts1 == pts0.push(e) || pts1 == pts0 || (exists|s: int|
            0 <= s < pts0.len() && pts1 == pts0.update(s, e)),
    ensures
        emitted_into(pts0, pts1, part1, part2),
{
    if pts1 == pts0.push(e) {
        assert forall|t: int|
            0 <= t < pts1.len() implies ((#[trigger] pts1[t]).part1 == part1 && pts1[t].part2
                == part2) || pts0.contains(pts1[t]) by {
            if t < pts0.len() {
                assert(pts1[t] == pts0[t]);
                assert(pts0.contains(pts0[t]));
            }
        }
    } else if pts1 == pts0 {
        assert forall|t: int|
            0 <= t < pts1.len() implies ((#[trigger] pts1[t]).part1 == part1 && pts1[t].part2
                == part2) || pts0.contains(pts1[t]) by {
            assert(pts0.contains(pts0[t]));
        }
    } else {
        let s = choose|s: int| 0 <= s < pts0.len() && pts1 == pts0.update(s, e);
        assert forall|t: int|
            0 <= t < pts1.len() implies ((#[trigger] pts1[t]).part1 == part1 && pts1[t].part2
                == part2) || pts0.contains(pts1[t]) by {
            if t != s {
                assert(pts1[t] == pts0[t]);
                assert(pts0.contains(pts0[t]));
            }
        }
    }
}

/// The emission relation composes across successive emissions with the
/// same sub-part identifiers.
pub proof fn lemma_emitted_trans(
    a: Seq<TrackedContact>,
    b: Seq<TrackedContact>,
    c: Seq<TrackedContact>,
    part1: u64,
    part2: u64,
)
    requires
        emitted_into(a, b, part1, part2),
        emitted_into(b, c, part1, part2),
    ensures
        emitted_into(a, c, part1, part2),
{
    assert forall|t: int|
        0 <= t < c.len() implies ((#[trigger] c[t]).part1 == part1 && c[t].part2 == part2)
            || a.contains(c[t]) by {
        if !(c[t].part1 == part1 && c[t].part2 == part2) {
            let u = choose|u: int| 0 <= u < b.len() && b[u] == c[t];
            assert(((b[u].part1 == part1 && b[u].part2 == part2)) || a.contains(b[u]));
        }
    }
}

/// An unchanged contact list satisfies the emission relation.
pub proof fn lemma_emitted_refl(pts: Seq<TrackedContact>, part1: u64, part2: u64)
    ensures
        emitted_into(pts, pts, part1, part2),
{
    assert forall|t: int|
        0 <= t < pts.len() implies ((#[trigger] pts[t]).part1 == part1 && pts[t].part2 == part2)
            || pts.contains(pts[t]) by {
        assert(pts.contains(pts[t]));
    }
}

/// If at most the id `gid` changed liveness and `gid` tracks a listed
/// contact, every freshly live id tracks a listed contact.
pub proof fn lemma_single_push_fresh_ids(
    a0: IdAllocator,
    a1: IdAllocator,
    pts1: Seq<TrackedContact>,
    gid: u64,
)
    requires
        forall|o: u64| o != gid ==> a1.is_live(o) == a0.is_live(o),
        exists|t: int| 0 <= t < pts1.len() && (#[trigger] pts1[t]).id == gid,
    ensures
        fresh_ids_tracked(a0, a1, pts1),
{
}

/// Tracking-id stability: the id a push reuses depends only on the feature
/// keys and ids of the cache, never on contact coordinates.  Two caches
/// whose entries agree on sub-part, feature pair and id hand out the same
/// id for the same key, even if every stored coordinate differs.
pub proof fn lemma_tracking_id_stability(
    c1: Seq<TrackedContact>,
    c2: Seq<TrackedContact>,
    p1: u64,
    f1: FeatureId,
    p2: u64,
    f2: FeatureId,
    k: int,
)
    requires
        c1.len() == c2.len(),
        forall|i: int|
            0 <= i < c1.len() ==> c1[i].part1 == c2[i].part1 && c1[i].fid1 == c2[i].fid1
                && c1[i].part2 == c2[i].part2 && c1[i].fid2 == c2[i].fid2 && c1[i].id == c2[i].id,
        is_first_match(c1, p1, f1, p2, f2, k),
    ensures
        is_first_match(c2, p1, f1, p2, f2, k),
        c2[k].id == c1[k].id,
{
    assert(key_matches(c2[k], p1, f1, p2, f2));
}

} // verus!
