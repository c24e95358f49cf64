//! Allocation of persistent contact tracking identifiers: a monotonic
//! counter with a free list for recycled ids.

use vstd::prelude::*;

verus! {

/// Issues tracking ids for manifold contacts.  An id is live from the
/// allocation that returned it until it is freed; freed ids are recycled
/// before the counter advances.
#[derive(Debug)]
pub struct IdAllocator {
    pub next: u64,
    pub free: Vec<u64>,
}

impl IdAllocator {
    /// Every entry of the free list was once allocated and appears only once.
    pub open spec fn wf(self) -> bool {
        (forall|i: int| 0 <= i < self.free@.len() ==> self.free@[i] < self.next)
            && (forall|i: int, j: int|
            0 <= i < j < self.free@.len() ==> self.free@[i] != self.free@[j])
    }

    /// The id has been handed out and not freed since.
    pub open spec fn is_live(self, id: u64) -> bool {
        id < self.next && !self.free@.contains(id)
    }

    /// The counter has room, so the next allocation returns a fresh id.
    pub open spec fn has_headroom(self) -> bool {
        self.next < u64::MAX
    }

    pub fn new() -> (r: IdAllocator)
        ensures
            r.wf(),
            forall|id: u64| !r.is_live(id),
            r.has_headroom(),
    {
        IdAllocator { next: 0, free: Vec::new() }
    }

    /// Allocates an id: a recycled one if any is free, otherwise the counter
    /// value.  The result is live afterwards, was not live before (as long
    /// as the counter has headroom), and no other id changes liveness.
    pub fn allocate(&mut self) -> (id: u64)
        requires
            old(self).wf(),
        ensures
            final(self).wf(),
            final(self).is_live(id),
            old(self).has_headroom() ==> !old(self).is_live(id),
            forall|o: u64| o != id ==> final(self).is_live(o) == old(self).is_live(o),
            old(self).free@.len() > 0 ==> final(self).free@ == old(self).free@.drop_last() && id
                == old(self).free@.last() && final(self).next == old(self).next,
            old(self).free@.len() == 0 && old(self).has_headroom() ==> id == old(self).next
                && final(self).next == old(self).next + 1 && final(self).free@ == old(self).free@,
    {
        match self.free.pop() {
            Some(id) => {
                proof {
                    assert(forall|o: u64|
                        self.free@.contains(o) ==> old(self).free@.contains(o)) by {
                        assert(forall|i: int|
                            0 <= i < self.free@.len() ==> self.free@[i] == old(self).free@[i]);
                    }
                    assert(!self.free@.contains(id)) by {
                        assert(forall|i: int|
                            0 <= i < self.free@.len() ==> old(self).free@[i] != old(self).free@.last());
                    }
                    assert(forall|o: u64|
                        o != id && old(self).free@.contains(o) ==> self.free@.contains(o)) by {
                        assert(forall|i: int|
                            0 <= i < old(self).free@.len() && old(self).free@[i] != id
                                ==> i < self.free@.len() && self.free@[i] == old(self).free@[i]);
                    }
                }
                id
            },
            None => {
                if self.next < u64::MAX {
                    let id = self.next;
                    self.next = self.next + 1;
                    id
                } else {
                    u64::MAX - 1
                }
            },
        }
    }

    /// Returns an id to the pool; it is no longer live and every other id
    /// keeps its liveness.  Freeing an id that is not live changes nothing.
    pub fn free(&mut self, id: u64)
        requires
            old(self).wf(),
        ensures
            final(self).wf(),
            !final(self).is_live(id),
            forall|o: u64| o != id ==> final(self).is_live(o) == old(self).is_live(o),
            final(self).next == old(self).next,
            old(self).is_live(id) ==> final(self).free@ == old(self).free@.push(id),
            !old(self).is_live(id) ==> final(self).free@ == old(self).free@,
    {
        if id >= self.next {
            return ;
        }
        let mut i: usize = 0;
        let n = self.free.len();
        while i < n
            invariant
                n == self.free@.len(),
                0 <= i <= n,
                forall|j: int| 0 <= j < i ==> self.free@[j] != id,
                self.free@ == old(self).free@,
                self.next == old(self).next,
                self.wf(),
                id < self.next,
            decreases n - i,
        {
            if self.free[i] == id {
                return ;
            }
            i = i + 1;
        }
        self.free.push(id);
        proof {
            assert(self.free@.contains(id)) by {
                assert(self.free@.last() == id);
            }
            assert(forall|o: u64|
                o != id ==> self.free@.contains(o) == old(self).free@.contains(o)) by {
                assert(forall|o: u64| #[trigger]
                    old(self).free@.contains(o) ==> self.free@.contains(o)) by {
                    assert(forall|j: int|
                        0 <= j < old(self).free@.len() ==> self.free@[j] == old(self).free@[j]);
                }
                assert(forall|o: u64|
                    o != id && #[trigger] self.free@.contains(o) ==> old(self).free@.contains(o));
            }
        }
    }
}

} // verus!
