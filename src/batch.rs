use vstd::prelude::*;

use crate::all_values::{sort_keys, sorted};

verus! {

/// Samples held back until a batch of `capacity` is full, then handed out
/// in ascending order to be compacted into a digest at once.
pub struct SampleBatch {
    pending: Vec<u64>,
    capacity: usize,
}

impl SampleBatch {
    /// The sample keys held back, in order of arrival.
    pub closed spec fn pending(&self) -> Seq<u64> {
        self.pending@
    }

    /// The batch size at which the held samples are handed out.
    pub closed spec fn capacity(&self) -> nat {
        self.capacity as nat
    }

    /// An empty batch of the given size.
    pub fn new(capacity: usize) -> (r: SampleBatch)
        ensures
            r.pending() == Seq::<u64>::empty(),
            r.capacity() == capacity,
    {
        SampleBatch { pending: Vec::new(), capacity }
    }

    /// Hands out every held sample in ascending order and empties the batch.
    pub fn drain_sorted(&mut self) -> (r: Vec<u64>)
        ensures
            sorted(r@),
            r@.to_multiset() == old(self).pending().to_multiset(),
            final(self).pending() == Seq::<u64>::empty(),
            final(self).capacity() == old(self).capacity(),
    {
        let mut out: Vec<u64> = Vec::new();
        std::mem::swap(&mut out, &mut self.pending);
        sort_keys(&mut out);
        out
    }

    /// Takes one sample. Where the batch already holds `capacity` samples,
    /// they are handed out first, in ascending order, and the new sample
    /// starts the next batch.
    pub fn push(&mut self, key: u64) -> (r: Option<Vec<u64>>)
        ensures
            final(self).capacity() == old(self).capacity(),
            old(self).pending().len() == old(self).capacity() ==> (r matches Some(full) && sorted(
                full@,
            ) && full@.to_multiset() == old(self).pending().to_multiset()),
            old(self).pending().len() == old(self).capacity() ==> final(self).pending() == seq![key],
            old(self).pending().len() != old(self).capacity() ==> r is None,
            old(self).pending().len() != old(self).capacity() ==> final(self).pending() == old(
                self,
            ).pending().push(key),
    {
        let full = if self.pending.len() == self.capacity {
            Some(self.drain_sorted())
        } else {
            None
        };
        self.pending.push(key);
        proof {
            if full is Some {
                assert(self.pending@ =~= seq![key]);
            }
        }
        full
    }
}

} // verus!
