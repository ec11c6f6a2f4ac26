use vstd::prelude::*;

use crate::sample::Sample;

verus! {

/// A fixed dataset used as a sample source: index `i` reads the sample at
/// `i mod len`, so the data wraps around.
pub struct Dataset {
    values: Vec<Sample>,
}

impl Dataset {
    #[verifier::type_invariant]
    spec fn inv(&self) -> bool {
        self.values@.len() > 0
    }

    /// The samples of the dataset, in order.
    pub closed spec fn values(&self) -> Seq<Sample> {
        self.values@
    }

    /// A dataset over `values`, or `None` where there are none.
    pub fn new(values: Vec<Sample>) -> (r: Option<Dataset>)
        ensures
            values@.len() == 0 <==> r is None,
            r matches Some(d) ==> d.values() == values@,
    {
        if values.len() == 0 {
            None
        } else {
            Some(Dataset { values })
        }
    }

    /// The number of samples before the data wraps around.
    pub fn len(&self) -> (r: usize)
        ensures
            r == self.values().len(),
            r > 0,
    {
        proof {
            use_type_invariant(self);
        }
        self.values.len()
    }

    /// The sample at `index`, wrapping around the end of the data.
    pub fn sample(&self, index: usize) -> (r: Sample)
        ensures
            r == self.values()[index as int % self.values().len() as int],
    {
        proof {
            use_type_invariant(self);
        }
        self.values[index % self.values.len()]
    }
}

} // verus!
