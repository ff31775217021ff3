//! The identifier allocator: produces process-unique, strictly increasing
//! outbound message identifiers. One allocator is owned by each outbox; the
//! outbox's operations are its only callers, so every allocation happens
//! inside one exclusive critical section of the surrounding dispatcher.

use vstd::prelude::*;

verus! {

/// Allocator for outbound message identifiers.
///
/// The ghost `issued` sequence records every identifier handed out, in call
/// order; the well-formedness invariant pins each issued value strictly below
/// the counter and keeps the record strictly increasing.
pub struct MsgIdAlloc {
    /// The next identifier to hand out.
    pub counter: u64,
    /// Every identifier issued so far, in the order the calls completed.
    pub issued: Ghost<Seq<u64>>,
}

impl MsgIdAlloc {
    /// Every issued id lies below the counter and the record is strictly
    /// increasing in call order.
    pub open spec fn wf(&self) -> bool {
        &&& forall|i: int| 0 <= i < self.issued@.len() ==> #[trigger] self.issued@[i] < self.counter
        &&& forall|i: int, j: int|
            0 <= i < j < self.issued@.len() ==> #[trigger] self.issued@[i] < #[trigger] self.issued@[j]
    }

    /// Create an allocator whose first identifier will be `start`.
    pub fn new(start: u64) -> (r: Self)
        ensures
            r.wf(),
            r.counter == start,
            r.issued@ == Seq::<u64>::empty(),
    {
        MsgIdAlloc { counter: start, issued: Ghost(Seq::empty()) }
    }

    /// Return an identifier strictly greater than every identifier returned
    /// before, and record it.
    pub fn next(&mut self) -> (r: u64)
        requires
            old(self).wf(),
            old(self).counter < u64::MAX,
        ensures
            final(self).wf(),
            r == old(self).counter,
            final(self).counter == old(self).counter + 1,
            final(self).issued@ == old(self).issued@.push(r),
    {
        let r = self.counter;
        self.counter = self.counter + 1;
        proof {
            self.issued@ = self.issued@.push(r);
        }
        r
    }

    /// Id uniqueness: however many identifiers have been allocated, and from
    /// however many callers, the issued values are pairwise distinct and
    /// strictly increasing in call-completion order.
    pub proof fn lemma_issued_unique(&self)
        requires
            self.wf(),
        ensures
            forall|i: int, j: int|
                0 <= i < self.issued@.len() && 0 <= j < self.issued@.len() && i != j
                    ==> #[trigger] self.issued@[i] != #[trigger] self.issued@[j],
            forall|i: int, j: int|
                0 <= i < j < self.issued@.len() ==> #[trigger] self.issued@[i] < #[trigger] self.issued@[j],
    {
        assert forall|i: int, j: int|
            0 <= i < self.issued@.len() && 0 <= j < self.issued@.len() && i != j
                implies #[trigger] self.issued@[i] != #[trigger] self.issued@[j] by {
            if i < j {
                assert(self.issued@[i] < self.issued@[j]);
            } else {
                assert(self.issued@[j] < self.issued@[i]);
            }
        }
    }
}

} // verus!
