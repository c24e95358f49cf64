//! The broad phase: an incremental bounding-volume index with deferred
//! mutations.  `update` absorbs pending insertions, removals and volume
//! changes, reconciles the set of overlapping pairs, and reports every
//! pair that starts or stops overlapping through the interference handler.

use vstd::prelude::*;
use crate::math::{Aabb, Vec3};

verus! {

/// A compact numeric identity issued by the broad phase; the invalid
/// handle is reserved.
#[derive(Clone, Copy, PartialEq, Eq, Structural, Debug, Hash)]
pub struct ProxyHandle(pub usize);

impl ProxyHandle {
    /// The reserved invalid handle.
    pub fn invalid() -> (r: ProxyHandle)
        ensures
            r.0 == usize::MAX,
    {
        ProxyHandle(usize::MAX)
    }

    /// Whether this is the reserved invalid handle.
    pub fn is_invalid(&self) -> (r: bool)
        ensures
            r == (self.0 == usize::MAX),
    {
        self.0 == usize::MAX
    }

    /// The numeric identity.
    pub fn uid(&self) -> (r: usize)
        ensures
            r == self.0,
    {
        self.0
    }
}

/// Proximity handling for broad-phase updates.
pub trait BroadPhaseInterferenceHandler {
    /// A pre-filter that may cheaply discard pairs before an interference
    /// is recorded; `false` suppresses the pair for this update.
    fn is_interference_allowed(&mut self, data1: &u64, data2: &u64) -> bool;

    /// Handle a starting interference.
    fn interference_started(&mut self, data1: &u64, data2: &u64);

    /// Handle a stopping interference.
    fn interference_stopped(&mut self, data1: &u64, data2: &u64);
}

/// Lifecycle of a proxy slot: created but not yet absorbed, participating
/// in queries, or removed (slots are never reused, so a fresh proxy never
/// aliases a removed one).
#[derive(Clone, Copy, PartialEq, Eq, Structural, Debug)]
pub enum SlotState {
    Pending,
    Active,
    Dead,
}

/// One proxy of the broad phase.
#[derive(Clone, Copy, PartialEq, Eq, Structural, Debug)]
pub struct ProxySlot {
    pub bv: Aabb,
    pub pending_bv: Option<Aabb>,
    pub data: u64,
    pub state: SlotState,
    pub recompute: bool,
}

/// A brute-force broad phase: every pair of active proxies is tested at
/// each update.  Its event contract is the interesting part; the index
/// structure itself is the simplest one that satisfies it.
#[derive(Debug)]
pub struct BruteForceBroadPhase {
    pub proxies: Vec<ProxySlot>,
    pub pairs: Vec<(usize, usize)>,
    pub recompute_all: bool,
}

impl BruteForceBroadPhase {
    /// Pairs are ordered, within bounds, and listed once.
    pub open spec fn wf(self) -> bool {
        (forall|k: int|
            0 <= k < self.pairs@.len() ==> (#[trigger] self.pairs@[k]).0 < self.pairs@[k].1
                && self.pairs@[k].1 < self.proxies@.len()) && (forall|k1: int, k2: int|
            0 <= k1 < k2 < self.pairs@.len() ==> self.pairs@[k1] != self.pairs@[k2])
    }

    pub open spec fn slot_active(self, i: int) -> bool {
        0 <= i < self.proxies@.len() && self.proxies@[i].state == SlotState::Active
    }

    /// The pair is recorded as overlapping.
    pub open spec fn has_pair(self, i: int, j: int) -> bool {
        self.pairs@.contains((i as usize, j as usize))
    }

    pub fn new() -> (r: BruteForceBroadPhase)
        ensures
            r.wf(),
            r.proxies@.len() == 0,
            r.pairs@.len() == 0,
            !r.recompute_all,
    {
        BruteForceBroadPhase { proxies: Vec::new(), pairs: Vec::new(), recompute_all: false }
    }

    /// Registers a bounding volume for the next update; the proxy does not
    /// participate in queries until then.
    pub fn create_proxy(&mut self, bv: Aabb, data: u64) -> (h: ProxyHandle)
        requires
            old(self).proxies@.len() < usize::MAX,
        ensures
            old(self).wf() ==> final(self).wf(),
            h.0 == old(self).proxies@.len(),
            final(self).proxies@ == old(self).proxies@.push(
                ProxySlot { bv, pending_bv: None, data, state: SlotState::Pending, recompute: false },
            ),
            final(self).pairs@ == old(self).pairs@,
            final(self).recompute_all == old(self).recompute_all,
    {
        let h = ProxyHandle(self.proxies.len());
        self.proxies.push(
            ProxySlot { bv, pending_bv: None, data, state: SlotState::Pending, recompute: false },
        );
        h
    }

    /// Schedules a bounding-volume change, applied at the next update.
    pub fn deferred_set_bounding_volume(&mut self, handle: ProxyHandle, bv: Aabb)
        ensures
            old(self).wf() ==> final(self).wf(),
            final(self).pairs@ == old(self).pairs@,
            handle.0 < old(self).proxies@.len() ==> final(self).proxies@ == old(self).proxies@.update(
                handle.0 as int,
                ProxySlot { pending_bv: Some(bv), ..old(self).proxies@[handle.0 as int] },
            ),
            handle.0 >= old(self).proxies@.len() ==> final(self).proxies@ == old(self).proxies@,
    {
        if handle.0 < self.proxies.len() {
            let slot = self.proxies[handle.0];
            self.proxies[handle.0] = ProxySlot { pending_bv: Some(bv), ..slot };
        }
    }

    /// Forces the next update to re-report every proximity involving the
    /// given proxy, even if its volume has not changed.
    pub fn deferred_recompute_all_proximities_with(&mut self, handle: ProxyHandle)
        ensures
            old(self).wf() ==> final(self).wf(),
            final(self).pairs@ == old(self).pairs@,
            handle.0 < old(self).proxies@.len() ==> final(self).proxies@ == old(self).proxies@.update(
                handle.0 as int,
                ProxySlot { recompute: true, ..old(self).proxies@[handle.0 as int] },
            ),
            handle.0 >= old(self).proxies@.len() ==> final(self).proxies@ == old(self).proxies@,
    {
        if handle.0 < self.proxies.len() {
            let slot = self.proxies[handle.0];
            self.proxies[handle.0] = ProxySlot { recompute: true, ..slot };
        }
    }

    /// Forces the next update to re-report every proximity.
    pub fn deferred_recompute_all_proximities(&mut self)
        ensures
            old(self).wf() ==> final(self).wf(),
            *final(self) == (BruteForceBroadPhase { recompute_all: true, ..*old(self) }),
    {
        self.recompute_all = true;
    }

    /// Removes the given proxies: every recorded pair involving one of
    /// them is dropped and its data pair returned; the slots become dead
    /// and are never reused.
    pub fn remove(&mut self, handles: &Vec<ProxyHandle>) -> (stopped: Vec<(u64, u64)>)
        requires
            old(self).wf(),
        ensures
            final(self).wf(),
            final(self).recompute_all == old(self).recompute_all,
            final(self).proxies@.len() == old(self).proxies@.len(),
            // the named slots die, the rest are untouched
            forall|i: int|
                0 <= i < final(self).proxies@.len() ==> #[trigger] final(self).proxies@[i] == (
                if handles@.contains(ProxyHandle(i as usize)) {
                    ProxySlot { state: SlotState::Dead, ..old(self).proxies@[i] }
                } else {
                    old(self).proxies@[i]
                }),
            // surviving pairs are exactly the old pairs not touching a
            // removed proxy
            forall|p: (usize, usize)|
                final(self).pairs@.contains(p) <==> old(self).pairs@.contains(p) && !handles@.contains(
                    ProxyHandle(p.0),
                ) && !handles@.contains(ProxyHandle(p.1)),
            // one stop is reported for each dropped pair
            stopped@.len() + final(self).pairs@.len() == old(self).pairs@.len(),
            forall|k1: int, k2: int|
                0 <= k1 < k2 < final(self).pairs@.len() ==> final(self).pairs@[k1] != final(self).pairs@[k2],
    {
        // mark the slots dead
        let mut hi: usize = 0;
        while hi < handles.len()
            invariant
                old(self).wf(),
                self.pairs@ == old(self).pairs@,
                self.recompute_all == old(self).recompute_all,
                self.proxies@.len() == old(self).proxies@.len(),
                0 <= hi <= handles@.len(),
                forall|i: int|
                    0 <= i < self.proxies@.len() ==> #[trigger] self.proxies@[i] == (
                    if exists|k: int|
                        0 <= k < hi && handles@[k] == ProxyHandle(i as usize) {
                        ProxySlot { state: SlotState::Dead, ..old(self).proxies@[i] }
                    } else {
                        old(self).proxies@[i]
                    }),
            decreases handles@.len() - hi,
        {
            let h = handles[hi];
            if h.0 < self.proxies.len() {
                let slot = self.proxies[h.0];
                self.proxies[h.0] = ProxySlot { state: SlotState::Dead, ..slot };
                proof {
                    assert(handles@[hi as int] == ProxyHandle(h.0));
                }
            }
            hi = hi + 1;
        }
        proof {
            assert(forall|i: int|
                0 <= i < self.proxies@.len() && handles@.contains(ProxyHandle(i as usize))
                    ==> #[trigger] self.proxies@[i] == (ProxySlot {
                    state: SlotState::Dead,
                    ..old(self).proxies@[i]
                }));
        }

        // drop the pairs that touch a removed proxy
        let mut kept: Vec<(usize, usize)> = Vec::new();
        let mut stopped: Vec<(u64, u64)> = Vec::new();
        let n = self.pairs.len();
        let mut k: usize = 0;
        while k < n
            invariant
                old(self).wf(),
                n == self.pairs@.len(),
                self.pairs@ == old(self).pairs@,
                self.proxies@.len() == old(self).proxies@.len(),
                0 <= k <= n,
                kept@.len() + stopped@.len() == k,
                forall|p: (usize, usize)| #[trigger]
                    kept@.contains(p) ==> exists|t: int|
                        0 <= t < k && self.pairs@[t] == p && !handles@.contains(ProxyHandle(p.0))
                            && !handles@.contains(ProxyHandle(p.1)),
                forall|t: int|
                    0 <= t < k && !handles@.contains(ProxyHandle((#[trigger] self.pairs@[t]).0))
                        && !handles@.contains(ProxyHandle(self.pairs@[t].1)) ==> kept@.contains(
                        self.pairs@[t],
                    ),
                forall|t1: int, t2: int|
                    0 <= t1 < t2 < kept@.len() ==> kept@[t1] != kept@[t2],
                forall|t: int|
                    0 <= t < kept@.len() ==> (#[trigger] kept@[t]).0 < kept@[t].1 && kept@[t].1
                        < self.proxies@.len(),
            decreases n - k,
        {
            let p = self.pairs[k];
            let dead0 = handle_list_contains(handles, p.0);
            let dead1 = handle_list_contains(handles, p.1);
            let ghost kept0 = kept@;
            if dead0 || dead1 {
                let d0 = self.proxies[p.0].data;
                let d1 = self.proxies[p.1].data;
                stopped.push((d0, d1));
            } else {
                kept.push(p);
                proof {
                    assert forall|q: (usize, usize)| #[trigger] kept@.contains(q) implies (exists|
                        t: int,
                    |
                        0 <= t < k + 1 && self.pairs@[t] == q && !handles@.contains(
                            ProxyHandle(q.0),
                        ) && !handles@.contains(ProxyHandle(q.1))) by {
                        let t = choose|t: int| 0 <= t < kept@.len() && kept@[t] == q;
                        if t < kept0.len() {
                            assert(kept0[t] == q);
                            assert(kept0.contains(q));
                        } else {
                            assert(q == p);
                            assert(self.pairs@[k as int] == q);
                        }
                    }
                    assert forall|q: (usize, usize)| #[trigger]
                        kept0.contains(q) implies kept@.contains(q) by {
                        let t = choose|t: int| 0 <= t < kept0.len() && kept0[t] == q;
                        assert(kept@[t] == q);
                    }
                    assert(kept@.contains(p)) by {
                        assert(kept@[kept@.len() - 1] == p);
                    }
                    // a duplicate of p among the earlier kept entries would
                    // be a duplicate in the pair list itself
                    assert forall|t: int| 0 <= t < kept0.len() implies kept0[t] != p by {
                        if kept0[t] == p {
                            assert(kept0.contains(p));
                            let t2 = choose|t2: int|
                                0 <= t2 < k && self.pairs@[t2] == p && !handles@.contains(
                                    ProxyHandle(p.0),
                                ) && !handles@.contains(ProxyHandle(p.1));
                            assert(self.pairs@[t2] == self.pairs@[k as int]);
                        }
                    }
                }
            }
            k = k + 1;
        }
        self.pairs = kept;
        proof {
            assert(forall|p: (usize, usize)| #[trigger]
                old(self).pairs@.contains(p) && !handles@.contains(ProxyHandle(p.0))
                    && !handles@.contains(ProxyHandle(p.1)) ==> self.pairs@.contains(p)) by {
                assert(forall|t: int|
                    0 <= t < old(self).pairs@.len() ==> old(self).pairs@[t]
                        == old(self).pairs@[t]);
            }
        }
        stopped
    }
}

/// The slot after an update absorbed its deferred mutations: a pending
/// volume is applied, a pending proxy becomes active, and the recompute
/// flag is consumed.
pub open spec fn absorbed_slot(s: ProxySlot) -> ProxySlot {
    ProxySlot { recompute: false, ..absorbed_keep_flag(s) }
}

/// The absorbed slot before its recompute flag is consumed.
pub open spec fn absorbed_keep_flag(s: ProxySlot) -> ProxySlot {
    ProxySlot {
        bv: match s.pending_bv {
            Some(b) => b,
            None => s.bv,
        },
        pending_bv: None,
        data: s.data,
        state: if s.state == SlotState::Pending {
            SlotState::Active
        } else {
            s.state
        },
        recompute: s.recompute,
    }
}

/// The pair's start event is forced to be re-reported this update.
pub open spec fn pair_forced(bp: BruteForceBroadPhase, i: int, j: int) -> bool {
    bp.recompute_all || bp.proxies@[i].recompute || bp.proxies@[j].recompute
}

/// Lexicographic order on pairs, the order the update visits them in.
pub open spec fn lex_lt(p: (usize, usize), q: (usize, usize)) -> bool {
    p.0 < q.0 || (p.0 == q.0 && p.1 < q.1)
}

impl BruteForceBroadPhase {
    /// Absorbs pending mutations and reconciles the overlap set.  For a
    /// pair not recorded before (or whose re-report is forced), the
    /// pre-filter is consulted and a start event is reported when it
    /// allows the overlap; a recorded pair that stops overlapping is
    /// reported stopped.  Afterwards every recorded pair is an active
    /// overlap, and every unforced recorded pair that stayed an active
    /// overlap is still recorded, without consulting the filter.
    pub fn update<H: BroadPhaseInterferenceHandler>(&mut self, handler: &mut H)
        requires
            old(self).wf(),
        ensures
            final(self).wf(),
            !final(self).recompute_all,
            final(self).proxies@.len() == old(self).proxies@.len(),
            forall|i: int|
                0 <= i < old(self).proxies@.len() ==> #[trigger] final(self).proxies@[i]
                    == absorbed_slot(old(self).proxies@[i]),
            // soundness: every recorded pair is an active overlap
            forall|k: int|
                0 <= k < final(self).pairs@.len() ==> ((#[trigger] final(self).pairs@[k]).0 as int)
                    < (final(self).pairs@[k].1 as int) && final(self).slot_active(
                    final(self).pairs@[k].0 as int,
                ) && final(self).slot_active(final(self).pairs@[k].1 as int) && final(self).proxies@[final(self).pairs@[k].0 as int].bv.intersects(
                    final(self).proxies@[final(self).pairs@[k].1 as int].bv,
                ),
            // persistence: an unforced pair that stays an active overlap
            // stays recorded, with no filter consultation
            forall|x: int, y: int|
                0 <= x < y < old(self).proxies@.len() && old(self).pairs@.contains(
                    (x as usize, y as usize),
                ) && !pair_forced(*old(self), x, y) && absorbed_slot(old(self).proxies@[x]).state
                    == SlotState::Active && absorbed_slot(old(self).proxies@[y]).state
                    == SlotState::Active && absorbed_slot(old(self).proxies@[x]).bv.intersects(
                    absorbed_slot(old(self).proxies@[y]).bv,
                ) ==> final(self).pairs@.contains((x as usize, y as usize)),
    {
        // absorb deferred slot mutations, keeping the recompute flags
        let n = self.proxies.len();
        let ghost pairs0 = self.pairs@;
        let mut i: usize = 0;
        while i < n
            invariant
                n == self.proxies@.len(),
                0 <= i <= n,
                self.pairs@ == pairs0,
                pairs0 == old(self).pairs@,
                self.recompute_all == old(self).recompute_all,
                old(self).wf(),
                forall|t: int|
                    0 <= t < i ==> #[trigger] self.proxies@[t] == absorbed_keep_flag(
                        old(self).proxies@[t],
                    ),
                forall|t: int|
                    i <= t < n ==> #[trigger] self.proxies@[t] == old(self).proxies@[t],
            decreases n - i,
        {
            let s = self.proxies[i];
            self.proxies[i] = ProxySlot {
                bv: match s.pending_bv {
                    Some(b) => b,
                    None => s.bv,
                },
                pending_bv: None,
                data: s.data,
                state: if matches!(s.state, SlotState::Pending) {
                    SlotState::Active
                } else {
                    s.state
                },
                recompute: s.recompute,
            };
            i = i + 1;
        }

        // reconcile the pair set in lexicographic order
        let mut fresh: Vec<(usize, usize)> = Vec::new();
        let mut a: usize = 0;
        while a < n
            invariant
                n == self.proxies@.len(),
                0 <= a <= n,
                self.pairs@ == pairs0,
                pairs0 == old(self).pairs@,
                old(self).wf(),
                self.recompute_all == old(self).recompute_all,
                forall|t: int|
                    0 <= t < n ==> #[trigger] self.proxies@[t] == absorbed_keep_flag(
                        old(self).proxies@[t],
                    ),
                forall|k: int|
                    0 <= k < fresh@.len() ==> ((#[trigger] fresh@[k]).0 as int) < (fresh@[k].1 as int)
                        && (fresh@[k].1 as int) < n && self.proxies@[fresh@[k].0 as int].state
                        == SlotState::Active && self.proxies@[fresh@[k].1 as int].state
                        == SlotState::Active && self.proxies@[fresh@[k].0 as int].bv.intersects(
                        self.proxies@[fresh@[k].1 as int].bv,
                    ),
                forall|k1: int, k2: int|
                    0 <= k1 < k2 < fresh@.len() ==> lex_lt(fresh@[k1], fresh@[k2]),
                forall|k: int|
                    0 <= k < fresh@.len() ==> lex_lt(#[trigger] fresh@[k], (a, 0)) || (
                    fresh@[k].0 as int) < a as int + 1 && fresh@[k].0 == a,
                forall|k: int| 0 <= k < fresh@.len() ==> ((#[trigger] fresh@[k]).0 as int) < a as int,
                forall|x: int, y: int|
                    0 <= x < y < n && x < a && old(self).pairs@.contains((x as usize, y as usize))
                        && !pair_forced(*old(self), x, y) && self.proxies@[x].state
                        == SlotState::Active && self.proxies@[y].state == SlotState::Active
                        && self.proxies@[x].bv.intersects(self.proxies@[y].bv) ==> fresh@.contains(
                        (x as usize, y as usize),
                    ),
            decreases n - a,
        {
            let mut b: usize = a + 1;
            while b < n
                invariant
                    n == self.proxies@.len(),
                    0 <= a < n,
                    a < b <= n,
                    self.pairs@ == pairs0,
                    pairs0 == old(self).pairs@,
                    old(self).wf(),
                    self.recompute_all == old(self).recompute_all,
                    forall|t: int|
                        0 <= t < n ==> #[trigger] self.proxies@[t] == absorbed_keep_flag(
                            old(self).proxies@[t],
                        ),
                    forall|k: int|
                        0 <= k < fresh@.len() ==> ((#[trigger] fresh@[k]).0 as int) < (fresh@[k].1 as int)
                            && (fresh@[k].1 as int) < n && self.proxies@[fresh@[k].0 as int].state
                            == SlotState::Active && self.proxies@[fresh@[k].1 as int].state
                            == SlotState::Active && self.proxies@[fresh@[k].0 as int].bv.intersects(
                            self.proxies@[fresh@[k].1 as int].bv,
                        ) && lex_lt(fresh@[k], (a, b)),
                    forall|k1: int, k2: int|
                        0 <= k1 < k2 < fresh@.len() ==> lex_lt(fresh@[k1], fresh@[k2]),
                    forall|x: int, y: int|
                        0 <= x < y < n && lex_lt((x as usize, y as usize), (a, b)) && old(self).pairs@.contains(
                            (x as usize, y as usize),
                        ) && !pair_forced(*old(self), x, y) && self.proxies@[x].state
                            == SlotState::Active && self.proxies@[y].state == SlotState::Active
                            && self.proxies@[x].bv.intersects(self.proxies@[y].bv)
                            ==> fresh@.contains((x as usize, y as usize)),
                decreases n - b,
            {
                let sa = self.proxies[a];
                let sb = self.proxies[b];
                let ghost fresh0 = fresh@;
                if matches!(sa.state, SlotState::Active) && matches!(sb.state, SlotState::Active)
                    && sa.bv.overlaps(&sb.bv) {
                    let was = pair_list_contains(&self.pairs, a, b);
                    let forced = self.recompute_all || sa.recompute || sb.recompute;
                    if was && !forced {
                        fresh.push((a, b));
                    } else {
                        let allowed = handler.is_interference_allowed(&sa.data, &sb.data);
                        if allowed {
                            fresh.push((a, b));
                            handler.interference_started(&sa.data, &sb.data);
                        }
                    }
                }
                proof {
                    if fresh@.len() > fresh0.len() {
                        assert(fresh@ == fresh0.push((a, b)));
                        assert forall|q: (usize, usize)| #[trigger]
                            fresh0.contains(q) implies fresh@.contains(q) by {
                            let t = choose|t: int| 0 <= t < fresh0.len() && fresh0[t] == q;
                            assert(fresh@[t] == q);
                        }
                        assert(fresh@.contains((a, b))) by {
                            assert(fresh@[fresh@.len() - 1] == (a, b));
                        }
                    }
                }
                b = b + 1;
            }
            a = a + 1;
        }

        // report the pairs that stopped overlapping
        let m = self.pairs.len();
        let mut k: usize = 0;
        while k < m
            invariant
                n == self.proxies@.len(),
                n == old(self).proxies@.len(),
                m == self.pairs@.len(),
                0 <= k <= m,
                self.pairs@ == pairs0,
                pairs0 == old(self).pairs@,
                old(self).wf(),
            decreases m - k,
        {
            let p = self.pairs[k];
            if !pair_list_contains(&fresh, p.0, p.1) {
                let d0 = self.proxies[p.0].data;
                let d1 = self.proxies[p.1].data;
                handler.interference_stopped(&d0, &d1);
            }
            k = k + 1;
        }
        self.pairs = fresh;

        // consume the recompute flags
        let mut c: usize = 0;
        while c < n
            invariant
                n == self.proxies@.len(),
                n == old(self).proxies@.len(),
                0 <= c <= n,
                self.pairs@ == fresh@,
                forall|t: int|
                    0 <= t < c ==> #[trigger] self.proxies@[t] == absorbed_slot(
                        old(self).proxies@[t],
                    ),
                forall|t: int|
                    c <= t < n ==> #[trigger] self.proxies@[t] == absorbed_keep_flag(
                        old(self).proxies@[t],
                    ),
            decreases n - c,
        {
            let s = self.proxies[c];
            self.proxies[c] = ProxySlot { recompute: false, ..s };
            c = c + 1;
        }
        self.recompute_all = false;
        proof {
            assert forall|k1: int, k2: int|
                0 <= k1 < k2 < self.pairs@.len() implies self.pairs@[k1] != self.pairs@[k2] by {
                assert(lex_lt(self.pairs@[k1], self.pairs@[k2]));
            }
        }
    }
}

impl BruteForceBroadPhase {
    /// Collects the data of every active proxy whose volume might
    /// intersect the given one.
    pub fn interferences_with_bounding_volume(&self, bv: &Aabb) -> (out: Vec<u64>)
        ensures
            forall|i: int|
                self.slot_active(i) && (#[trigger] self.proxies@[i]).bv.intersects(*bv)
                    ==> out@.contains(self.proxies@[i].data),
    {
        let mut out: Vec<u64> = Vec::new();
        let n = self.proxies.len();
        let mut i: usize = 0;
        while i < n
            invariant
                n == self.proxies@.len(),
                0 <= i <= n,
                forall|c: int|
                    0 <= c < i && self.slot_active(c) && (#[trigger] self.proxies@[c]).bv.intersects(
                        *bv,
                    ) ==> out@.contains(self.proxies@[c].data),
            decreases n - i,
        {
            let s = self.proxies[i];
            let ghost out0 = out@;
            if matches!(s.state, SlotState::Active) && s.bv.overlaps(bv) {
                out.push(s.data);
                proof {
                    assert forall|q: u64| #[trigger] out0.contains(q) implies out@.contains(q) by {
                        let t = choose|t: int| 0 <= t < out0.len() && out0[t] == q;
                        assert(out@[t] == q);
                    }
                    assert(out@.contains(s.data)) by {
                        assert(out@[out@.len() - 1] == s.data);
                    }
                    assert(self.slot_active(i as int) && self.proxies@[i as int].bv.intersects(*bv)
                        && self.proxies@[i as int].data == out@[out@.len() - 1]);
                }
            }
            i = i + 1;
        }
        out
    }

    /// Collects the data of every active proxy whose volume might contain
    /// the given point.
    pub fn interferences_with_point(&self, p: &Vec3) -> (out: Vec<u64>)
        ensures
            forall|i: int|
                self.slot_active(i) && (#[trigger] self.proxies@[i]).bv.contains_point_spec(
                    p.view(),
                ) ==> out@.contains(self.proxies@[i].data),
    {
        let mut out: Vec<u64> = Vec::new();
        let n = self.proxies.len();
        let mut i: usize = 0;
        while i < n
            invariant
                n == self.proxies@.len(),
                0 <= i <= n,
                forall|c: int|
                    0 <= c < i && self.slot_active(c) && (#[trigger] self.proxies@[c]).bv.contains_point_spec(
                        p.view(),
                    ) ==> out@.contains(self.proxies@[c].data),
            decreases n - i,
        {
            let s = self.proxies[i];
            let ghost out0 = out@;
            if matches!(s.state, SlotState::Active) && s.bv.contains_point(p) {
                out.push(s.data);
                proof {
                    assert forall|q: u64| #[trigger] out0.contains(q) implies out@.contains(q) by {
                        let t = choose|t: int| 0 <= t < out0.len() && out0[t] == q;
                        assert(out@[t] == q);
                    }
                    assert(out@.contains(s.data)) by {
                        assert(out@[out@.len() - 1] == s.data);
                    }
                    assert(self.slot_active(i as int) && self.proxies@[i as int].bv.contains_point_spec(
                        p.view(),
                    ) && self.proxies@[i as int].data == out@[out@.len() - 1]);
                }
            }
            i = i + 1;
        }
        out
    }
}

/// Trait all broad phases implement.
pub trait BroadPhase {
    /// Tells the broad phase to add a bounding volume at the next update.
    fn create_proxy(&mut self, bv: Aabb, data: u64) -> ProxyHandle;

    /// Removes the given proxies, returning the data of each overlap that
    /// stopped because of the removal.
    fn remove(&mut self, handles: &Vec<ProxyHandle>) -> Vec<(u64, u64)>;

    /// Sets the next bounding volume to be used during the update.
    fn deferred_set_bounding_volume(&mut self, handle: ProxyHandle, bv: Aabb);

    /// Forces the broad phase to re-report the proximities of one proxy.
    fn deferred_recompute_all_proximities_with(&mut self, handle: ProxyHandle);

    /// Forces the broad phase to re-report every proximity.
    fn deferred_recompute_all_proximities(&mut self);

    /// Collects every object which might intersect the given volume.
    fn interferences_with_bounding_volume(&self, bv: &Aabb) -> Vec<u64>;

    /// Collects every object which might contain the given point.
    fn interferences_with_point(&self, p: &Vec3) -> Vec<u64>;
}

impl BroadPhase for BruteForceBroadPhase {
    fn create_proxy(&mut self, bv: Aabb, data: u64) -> ProxyHandle {
        if self.proxies.len() < usize::MAX {
            BruteForceBroadPhase::create_proxy(self, bv, data)
        } else {
            ProxyHandle::invalid()
        }
    }

    fn remove(&mut self, handles: &Vec<ProxyHandle>) -> Vec<(u64, u64)> {
        if self.wf_check() {
            BruteForceBroadPhase::remove(self, handles)
        } else {
            Vec::new()
        }
    }

    fn deferred_set_bounding_volume(&mut self, handle: ProxyHandle, bv: Aabb) {
        BruteForceBroadPhase::deferred_set_bounding_volume(self, handle, bv)
    }

    fn deferred_recompute_all_proximities_with(&mut self, handle: ProxyHandle) {
        BruteForceBroadPhase::deferred_recompute_all_proximities_with(self, handle)
    }

    fn deferred_recompute_all_proximities(&mut self) {
        BruteForceBroadPhase::deferred_recompute_all_proximities(self)
    }

    fn interferences_with_bounding_volume(&self, bv: &Aabb) -> Vec<u64> {
        BruteForceBroadPhase::interferences_with_bounding_volume(self, bv)
    }

    fn interferences_with_point(&self, p: &Vec3) -> Vec<u64> {
        BruteForceBroadPhase::interferences_with_point(self, p)
    }
}

/// After an update, no recorded pair involves a removed proxy: removal
/// stops every overlap of the proxy for good.
pub proof fn lemma_dead_proxy_has_no_pairs(bp: BruteForceBroadPhase, i: int)
    requires
        forall|k: int|
            0 <= k < bp.pairs@.len() ==> bp.slot_active((#[trigger] bp.pairs@[k]).0 as int)
                && bp.slot_active(bp.pairs@[k].1 as int),
        0 <= i < bp.proxies@.len(),
        bp.proxies@[i].state == SlotState::Dead,
    ensures
        forall|k: int|
            0 <= k < bp.pairs@.len() ==> (#[trigger] bp.pairs@[k]).0 != i && bp.pairs@[k].1 != i,
{
}

impl BruteForceBroadPhase {
    /// Runtime test of the pair-list invariant.
    pub fn wf_check(&self) -> (r: bool)
        ensures
            r == self.wf(),
    {
        let m = self.pairs.len();
        let np = self.proxies.len();
        let mut k: usize = 0;
        while k < m
            invariant
                m == self.pairs@.len(),
                np == self.proxies@.len(),
                0 <= k <= m,
                forall|t: int|
                    0 <= t < k ==> (#[trigger] self.pairs@[t]).0 < self.pairs@[t].1
                        && self.pairs@[t].1 < np,
                forall|t1: int, t2: int|
                    0 <= t1 < t2 < k ==> self.pairs@[t1] != self.pairs@[t2],
            decreases m - k,
        {
            let p = self.pairs[k];
            if !(p.0 < p.1 && p.1 < np) {
                return false;
            }
            let mut t: usize = 0;
            while t < k
                invariant
                    m == self.pairs@.len(),
                    0 <= t <= k < m,
                    p == self.pairs@[k as int],
                    forall|u: int| 0 <= u < t ==> self.pairs@[u] != self.pairs@[k as int],
                decreases k - t,
            {
                let q = self.pairs[t];
                if q.0 == p.0 && q.1 == p.1 {
                    proof {
                        assert(self.pairs@[t as int] == self.pairs@[k as int]);
                    }
                    return false;
                }
                t = t + 1;
            }
            k = k + 1;
        }
        true
    }
}

/// Whether the pair list holds the ordered pair (i, j).
fn pair_list_contains(pairs: &Vec<(usize, usize)>, i: usize, j: usize) -> (r: bool)
    ensures
        r == pairs@.contains((i, j)),
{
    let n = pairs.len();
    let mut k: usize = 0;
    while k < n
        invariant
            n == pairs@.len(),
            0 <= k <= n,
            forall|t: int| 0 <= t < k ==> pairs@[t] != (i, j),
        decreases n - k,
    {
        let p = pairs[k];
        if p.0 == i && p.1 == j {
            proof {
                assert(pairs@[k as int] == (i, j));
            }
            return true;
        }
        k = k + 1;
    }
    false
}

/// Whether the handle list names the given slot index.
fn handle_list_contains(handles: &Vec<ProxyHandle>, i: usize) -> (r: bool)
    ensures
        r == handles@.contains(ProxyHandle(i)),
{
    let n = handles.len();
    let mut k: usize = 0;
    while k < n
        invariant
            n == handles@.len(),
            0 <= k <= n,
            forall|t: int| 0 <= t < k ==> handles@[t] != ProxyHandle(i),
        decreases n - k,
    {
        if handles[k].0 == i {
            proof {
                assert(handles@[k as int] == ProxyHandle(i));
            }
            return true;
        }
        k = k + 1;
    }
    false
}

} // verus!
