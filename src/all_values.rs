use vstd::multiset::Multiset;
use vstd::prelude::*;

use crate::aggregate::{sum_multisets, Aggregate};
use crate::sample::{Quantile, QueryError, Sample, order_index};

verus! {

/// Whether `s` is in ascending order.
pub open spec fn sorted(s: Seq<u64>) -> bool {
    forall|i: int, j: int| 0 <= i <= j < s.len() ==> s[i] <= s[j]
}

/// The ascending arrangement of the multiset `m`.
pub open spec fn sorted_of(m: Multiset<u64>) -> Seq<u64> {
    choose|s: Seq<u64>| sorted(s) && s.to_multiset() == m
}

/// The exact answer to quantile `q` over the non-empty multiset `m`: the
/// order statistic at index `ceil(|m| * q)`, clamped to the last index.
pub open spec fn exact_quantile(m: Multiset<u64>, q: Quantile) -> u64 {
    sorted_of(m)[order_index(m.len(), q)]
}

/// Two ascending sequences that hold the same multiset are equal: the
/// ascending arrangement of a multiset is unique.
pub proof fn lemma_sorted_unique(a: Seq<u64>, b: Seq<u64>)
    requires
        sorted(a),
        sorted(b),
        a.to_multiset() == b.to_multiset(),
    ensures
        a == b,
    decreases a.len(),
{
    a.to_multiset_ensures();
    b.to_multiset_ensures();
    if a.len() == 0 {
        assert(a =~= b);
    } else {
        let x = a[0];
        let y = b[0];
        assert(b.contains(y));
        assert(b.to_multiset().count(y) > 0);
        assert(a.to_multiset().count(y) > 0);
        assert(a.contains(y));
        let i = choose|i: int| 0 <= i < a.len() && a[i] == y;
        assert(a.contains(x));
        assert(a.to_multiset().count(x) > 0);
        assert(b.to_multiset().count(x) > 0);
        assert(b.contains(x));
        let k = choose|k: int| 0 <= k < b.len() && b[k] == x;
        assert(x <= a[i]);
        assert(y <= b[k]);
        assert(x == y);
        assert(a.remove(0).to_multiset() == a.to_multiset().remove(x));
        assert(b.remove(0).to_multiset() == b.to_multiset().remove(y));
        lemma_sorted_unique(a.remove(0), b.remove(0));
        assert(a =~= seq![x] + a.remove(0));
        assert(b =~= seq![y] + b.remove(0));
    }
}

/// An ascending sequence is the ascending arrangement of its own multiset.
pub proof fn lemma_sorted_of(s: Seq<u64>)
    requires
        sorted(s),
    ensures
        sorted_of(s.to_multiset()) == s,
{
    let t = sorted_of(s.to_multiset());
    assert(sorted(s) && s.to_multiset() == s.to_multiset());
    lemma_sorted_unique(t, s);
}

/// Relies on std's `slice::sort_unstable`: it puts the keys in ascending
/// order and keeps each of them.
#[verifier::external_body]
pub(crate) fn sort_keys(v: &mut Vec<u64>)
    ensures
        sorted(final(v)@),
        final(v)@.to_multiset() == old(v)@.to_multiset(),
{
    v.sort_unstable();
}

/// The exact-retention estimator: it keeps every sample and answers a query
/// with an order statistic of all of them.
pub struct AllValues {
    values: Vec<u64>,
    done: bool,
}

impl AllValues {
    #[verifier::type_invariant]
    spec fn inv(&self) -> bool {
        self.done ==> sorted(self.values@)
    }

    /// The retained sample keys, in ascending order once finalized.
    pub closed spec fn values(&self) -> Seq<u64> {
        self.values@
    }

    /// An empty instance that accepts samples.
    pub fn new() -> (r: AllValues)
        ensures
            r.values() == Seq::<u64>::empty(),
            r.ingested() == Multiset::<u64>::empty(),
            !r.finalized(),
    {
        let r = AllValues { values: Vec::new(), done: false };
        proof {
            r.values@.to_multiset_ensures();
            assert(r.values@.to_multiset().len() == 0);
            assert(r.values@.to_multiset() =~= Multiset::<u64>::empty());
        }
        r
    }

    /// The number of retained samples.
    pub fn len(&self) -> (r: usize)
        ensures
            r == self.values().len(),
            r == self.ingested().len(),
    {
        proof {
            self.values@.to_multiset_ensures();
        }
        self.values.len()
    }

    fn into_values(self) -> (r: Vec<u64>)
        ensures
            r@ == self.values(),
    {
        self.values
    }
}

impl Aggregate for AllValues {
    closed spec fn ingested(&self) -> Multiset<u64> {
        self.values@.to_multiset()
    }

    closed spec fn finalized(&self) -> bool {
        self.done
    }

    open spec fn admissible(m: Multiset<u64>, q: Quantile, v: Sample) -> bool {
        v.key == exact_quantile(m, q)
    }

    closed spec fn estimate(&self, q: Quantile) -> Result<Sample, QueryError> {
        if !q.spec_valid() {
            Err(QueryError::OutOfRange)
        } else if self.values@.len() == 0 {
            Err(QueryError::Empty)
        } else {
            Ok(Sample { key: self.values@[order_index(self.values@.len(), q)] })
        }
    }

    closed spec fn serialized(&self) -> Option<usize> {
        if self.values@.len() * 8 <= usize::MAX {
            Some((self.values@.len() * 8) as usize)
        } else {
            None
        }
    }

    open spec fn kind_name(&self) -> Seq<char> {
        seq!['A', 'l', 'l', 'V', 'a', 'l', 'u', 'e', 's']
    }

    open spec fn mergeable() -> bool {
        true
    }

    fn name(&self) -> (r: &str) {
        proof {
            reveal_strlit("AllValues");
        }
        "AllValues"
    }

    fn finalize(&mut self)
        ensures
            final(self).values() == sorted_of(old(self).ingested()),
            old(self).finalized() ==> final(self).values() == old(self).values(),
    {
        proof {
            use_type_invariant(&*self);
        }
        if !self.done {
            let mut v = Vec::new();
            std::mem::swap(&mut v, &mut self.values);
            sort_keys(&mut v);
            proof {
                lemma_sorted_of(v@);
            }
            *self = AllValues { values: v, done: true };
        } else {
            proof {
                lemma_sorted_of(self.values@);
            }
        }
    }

    fn get_quantil(&mut self, q: Quantile) -> (r: Result<Sample, QueryError>) {
        proof {
            use_type_invariant(&*self);
            self.values@.to_multiset_ensures();
            lemma_sorted_of(self.values@);
        }
        if !q.valid() {
            return Err(QueryError::OutOfRange);
        }
        let n = self.values.len();
        if n == 0 {
            return Err(QueryError::Empty);
        }
        let idx = q.order_index(n);
        Ok(Sample { key: self.values[idx] })
    }

    fn insert(&mut self, value: Sample)
        ensures
            final(self).values() == old(self).values().push(value.key),
    {
        proof {
            self.values@.to_multiset_ensures();
        }
        let mut v = Vec::new();
        std::mem::swap(&mut v, &mut self.values);
        v.push(value.key);
        *self = AllValues { values: v, done: false };
    }

    fn serialize_size(&self) -> (r: Option<usize>)
        ensures
            r == (if self.values().len() * 8 <= usize::MAX {
                Some((self.values().len() * 8) as usize)
            } else {
                None::<usize>
            }),
    {
        let n = self.values.len();
        if n <= usize::MAX / 8 {
            Some(n * 8)
        } else {
            None
        }
    }

    fn merge(other: Vec<Self>) -> (r: Option<Self>) {
        if other.len() == 1 {
            let ghost given = other@;
            let mut other = other;
            let only = other.pop().unwrap();
            proof {
                assert(given =~= seq![only]);
                let ms = given.map_values(|a: Self| a.ingested());
                assert(ms.drop_last() =~= Seq::<Multiset<u64>>::empty());
                assert(sum_multisets(ms.drop_last()) == Multiset::<u64>::empty());
                assert(sum_multisets(ms) =~= only.ingested());
            }
            return Some(only);
        }
        let ghost total = sum_multisets(other@.map_values(|a: Self| a.ingested()));
        let mut other = other;
        let mut acc: Vec<u64> = Vec::new();
        proof {
            acc@.to_multiset_ensures();
            assert(acc@.to_multiset() =~= Multiset::<u64>::empty());
        }
        while other.len() > 0
            invariant
                acc@.to_multiset().add(sum_multisets(other@.map_values(|a: Self| a.ingested())))
                    == total,
            decreases other.len(),
        {
            let ghost before = other@;
            let el = other.pop().unwrap();
            let mut vals = el.into_values();
            proof {
                let ms = before.map_values(|a: Self| a.ingested());
                assert(ms.drop_last() =~= other@.map_values(|a: Self| a.ingested()));
                assert(ms.last() == vals@.to_multiset());
                vstd::seq_lib::lemma_multiset_commutative(acc@, vals@);
            }
            acc.append(&mut vals);
            proof {
                assert(acc@.to_multiset().add(sum_multisets(other@.map_values(|a: Self| a.ingested())))
                    =~= total);
            }
        }
        proof {
            assert(other@.map_values(|a: Self| a.ingested()) =~= Seq::<Multiset<u64>>::empty());
            assert(acc@.to_multiset() =~= total);
        }
        sort_keys(&mut acc);
        Some(AllValues { values: acc, done: true })
    }
}

} // verus!
