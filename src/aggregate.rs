use vstd::multiset::Multiset;
use vstd::prelude::*;

use crate::sample::{Quantile, QueryError, Sample};

verus! {

/// The union of a sequence of multisets.
pub open spec fn sum_multisets(s: Seq<Multiset<u64>>) -> Multiset<u64>
    decreases s.len(),
{
    if s.len() == 0 {
        Multiset::empty()
    } else {
        sum_multisets(s.drop_last()).add(s.last())
    }
}

/// Which outcome a query for `q` has over the ingested multiset `m`: an
/// error for a quantile outside `[0, 1]`, an error for no samples, a value
/// otherwise.
pub open spec fn query_outcome(m: Multiset<u64>, q: Quantile, r: Result<Sample, QueryError>) -> bool {
    &&& !q.spec_valid() ==> r == Err::<Sample, QueryError>(QueryError::OutOfRange)
    &&& q.spec_valid() && m.len() == 0 ==> r == Err::<Sample, QueryError>(QueryError::Empty)
    &&& q.spec_valid() && m.len() > 0 ==> r is Ok
}

/// One quantile of the configured list, with the estimate for it.
#[derive(Clone, Copy, Debug)]
pub struct Percentile {
    pub quantile: Quantile,
    pub estimate: Result<Sample, QueryError>,
}

/// A quantile estimator. An instance accepts samples until it is finalized,
/// and answers queries afterwards.
pub trait Aggregate: Sized {
    // The spec functions below have bodies only so that a kind implemented
    // outside Verus compiles without naming them. Those bodies are constants
    // that no such kind lives up to (an instance that takes samples is not
    // `finalized`, a kind with a merge is `mergeable`): nothing is proved of
    // a kind whose impl Verus does not read, and the contracts of the
    // generic functions of this crate hold for it only as far as its impl
    // keeps the contracts below. Every kind in this crate gives its own.
    /// The sample keys that the instance has ingested.
    closed spec fn ingested(&self) -> Multiset<u64> {
        Multiset::empty()
    }

    /// Whether the instance has been finalized and is queryable.
    closed spec fn finalized(&self) -> bool {
        true
    }

    /// Whether `v` is an answer that this kind may give for quantile `q`
    /// after ingesting `m`.
    closed spec fn admissible(m: Multiset<u64>, q: Quantile, v: Sample) -> bool {
        true
    }

    /// What a query for `q` returns in the instance's present state.
    closed spec fn estimate(&self, q: Quantile) -> Result<Sample, QueryError> {
        Err(QueryError::Empty)
    }

    /// The size of the instance's serialized state in bytes, where it has one.
    closed spec fn serialized(&self) -> Option<usize> {
        None
    }

    /// The name of the kind.
    closed spec fn kind_name(&self) -> Seq<char> {
        Seq::empty()
    }

    /// Whether this kind can merge two or more instances.
    closed spec fn mergeable() -> bool {
        false
    }

    /// A stable, human-readable name of the kind.
    fn name(&self) -> (r: &str)
        ensures
            r@ == self.kind_name(),
    ;

    /// Ends the accepting phase; does any deferred compaction. A second call
    /// changes nothing.
    fn finalize(&mut self)
        ensures
            final(self).ingested() == old(self).ingested(),
            final(self).finalized(),
            old(self).finalized() ==> *final(self) == *old(self),
    ;

    /// Estimates quantile `q`: a pure read of the finalized instance.
    fn get_quantil(&mut self, q: Quantile) -> (r: Result<Sample, QueryError>)
        requires
            old(self).finalized(),
        ensures
            *final(self) == *old(self),
            r == old(self).estimate(q),
            query_outcome(old(self).ingested(), q, r),
            r matches Ok(v) ==> Self::admissible(old(self).ingested(), q, v),
    ;

    /// Incorporates one sample.
    fn insert(&mut self, value: Sample)
        requires
            !old(self).finalized(),
        ensures
            final(self).ingested() == old(self).ingested().insert(value.key),
            !final(self).finalized(),
    ;

    /// The size of the serialized state in bytes, where the kind has one.
    fn serialize_size(&self) -> (r: Option<usize>)
        ensures
            r == self.serialized(),
    ;

    /// Combines a non-empty collection of finalized instances into one that
    /// has ingested all of their samples. A single instance is handed back
    /// untouched; two or more give `None` where the kind has no merge.
    fn merge(other: Vec<Self>) -> (r: Option<Self>)
        requires
            other.len() >= 1,
            forall|i: int| 0 <= i < other.len() ==> (#[trigger] other@[i]).finalized(),
        ensures
            other.len() == 1 ==> r == Some(other@[0]),
            other.len() >= 2 ==> (r is Some <==> Self::mergeable()),
            r matches Some(m) ==> m.finalized() && m.ingested() == sum_multisets(
                other@.map_values(|a: Self| a.ingested()),
            ),
    ;

    /// Finalizes the instance, then estimates each of `quantiles` in turn.
    /// On a finalized instance it changes nothing, so a second call gives
    /// the same estimates.
    fn get_percentiles(&mut self, quantiles: &Vec<Quantile>) -> (r: Vec<Percentile>)
        ensures
            final(self).ingested() == old(self).ingested(),
            final(self).finalized(),
            old(self).finalized() ==> *final(self) == *old(self),
            r.len() == quantiles.len(),
            forall|j: int|
                0 <= j < r.len() ==> (#[trigger] r@[j]).quantile == quantiles@[j]
                    && r@[j].estimate == final(self).estimate(quantiles@[j]),
            forall|j: int|
                0 <= j < r.len() ==> query_outcome(
                    old(self).ingested(),
                    quantiles@[j],
                    (#[trigger] r@[j]).estimate,
                ) && (r@[j].estimate matches Ok(v) ==> Self::admissible(
                    old(self).ingested(),
                    quantiles@[j],
                    v,
                )),
    {
        self.finalize();
        let mut r: Vec<Percentile> = Vec::new();
        let mut j: usize = 0;
        while j < quantiles.len()
            invariant
                self.ingested() == old(self).ingested(),
                self.finalized(),
                old(self).finalized() ==> *self == *old(self),
                j <= quantiles.len(),
                forall|k: int|
                    0 <= k < j ==> (#[trigger] r@[k]).estimate == self.estimate(quantiles@[k]),
                r.len() == j,
                forall|k: int|
                    0 <= k < j ==> (#[trigger] r@[k]).quantile == quantiles@[k] && query_outcome(
                        old(self).ingested(),
                        quantiles@[k],
                        r@[k].estimate,
                    ) && (r@[k].estimate matches Ok(v) ==> Self::admissible(
                        old(self).ingested(),
                        quantiles@[k],
                        v,
                    )),
            decreases quantiles.len() - j,
        {
            let q = quantiles[j];
            let estimate = self.get_quantil(q);
            r.push(Percentile { quantile: q, estimate });
            j = j + 1;
        }
        r
    }
}


/// Decides the two errors of a query before an estimator is consulted: a
/// quantile outside `[0, 1]`, then an estimator that holds no sample.
pub fn query_guard(q: Quantile, count: u64) -> (r: Result<(), QueryError>)
    ensures
        !q.spec_valid() ==> r == Err::<(), QueryError>(QueryError::OutOfRange),
        q.spec_valid() && count == 0 ==> r == Err::<(), QueryError>(QueryError::Empty),
        q.spec_valid() && count > 0 ==> r is Ok,
{
    if !q.valid() {
        Err(QueryError::OutOfRange)
    } else if count == 0 {
        Err(QueryError::Empty)
    } else {
        Ok(())
    }
}

} // verus!
