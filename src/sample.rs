use vstd::prelude::*;

verus! {

/// The bit pattern at which the sign bit of a 64-bit float is set.
pub const SIGN_BIT: u64 = 0x8000_0000_0000_0000;

/// Maps the bit pattern of a 64-bit float to a key whose unsigned order is the
/// float's total order: negative values (sign bit set) are complemented, the
/// others get the sign bit set.
pub open spec fn key_of_bits(bits: u64) -> u64 {
    if bits >= SIGN_BIT {
        (u64::MAX - bits) as u64
    } else {
        (bits + SIGN_BIT) as u64
    }
}

/// The inverse of `key_of_bits`.
pub open spec fn bits_of_key(key: u64) -> u64 {
    if key >= SIGN_BIT {
        (key - SIGN_BIT) as u64
    } else {
        (u64::MAX - key) as u64
    }
}

/// One sample, held as its order key: samples compare as their keys do.
#[derive(Clone, Copy, PartialEq, Eq, Structural, Debug)]
pub struct Sample {
    pub key: u64,
}

impl Sample {
    /// The sample whose 64-bit float has the bit pattern `bits`.
    pub fn from_bits(bits: u64) -> (r: Sample)
        ensures
            r.key == key_of_bits(bits),
            bits_of_key(r.key) == bits,
    {
        if bits >= SIGN_BIT {
            Sample { key: u64::MAX - bits }
        } else {
            Sample { key: bits + SIGN_BIT }
        }
    }

    /// The bit pattern of the 64-bit float that this sample stands for.
    pub fn to_bits(&self) -> (r: u64)
        ensures
            r == bits_of_key(self.key),
            key_of_bits(r) == self.key,
    {
        if self.key >= SIGN_BIT {
            self.key - SIGN_BIT
        } else {
            u64::MAX - self.key
        }
    }
}

/// Why a quantile query gave no value.
#[derive(Clone, Copy, PartialEq, Eq, Structural, Debug)]
pub enum QueryError {
    /// The quantile lies outside `[0, 1]`.
    OutOfRange,
    /// The estimator has ingested no sample.
    Empty,
}

/// A quantile as the exact fraction `num / den`.
#[derive(Clone, Copy, PartialEq, Eq, Structural, Debug)]
pub struct Quantile {
    pub num: u64,
    pub den: u64,
}

/// `ceil(a / b)` for a positive `b`.
pub open spec fn ceil_div(a: int, b: int) -> int {
    (a + b - 1) / b
}

/// The index of the order statistic that answers quantile `q` over `n > 0`
/// sorted values: `ceil(n * q)`, clamped to the last index.
pub open spec fn order_index(n: nat, q: Quantile) -> int {
    let c = ceil_div((n * q.num) as int, q.den as int);
    if c < n {
        c
    } else {
        n - 1
    }
}

proof fn lemma_order_index_bounds(n: nat, num: nat, den: nat)
    requires
        den > 0,
        num <= den,
    ensures
        0 <= ceil_div((n * num) as int, den as int) <= n,
{
    assert(n * num <= n * den) by (nonlinear_arith)
        requires
            num <= den,
    ;
    assert((n * num + den - 1) / (den as int) <= n) by (nonlinear_arith)
        requires
            n * num <= n * den,
            den > 0,
    ;
    assert(0 <= (n * num + den - 1) / (den as int)) by (nonlinear_arith)
        requires
            den > 0,
            n * num >= 0,
    ;
}

impl Quantile {
    pub open spec fn spec_valid(&self) -> bool {
        self.den > 0 && self.num <= self.den
    }

    /// The quantile `num / den`, which need not lie in `[0, 1]`.
    pub fn new(num: u64, den: u64) -> (r: Quantile)
        ensures
            r.num == num,
            r.den == den,
    {
        Quantile { num, den }
    }

    /// Whether the quantile is a number in `[0, 1]`.
    #[verifier::when_used_as_spec(spec_valid)]
    pub fn valid(&self) -> (r: bool)
        ensures
            r == self.spec_valid(),
    {
        self.den > 0 && self.num <= self.den
    }

    /// The index of the order statistic that answers this quantile over
    /// `n > 0` sorted values.
    pub fn order_index(&self, n: usize) -> (r: usize)
        requires
            self.spec_valid(),
            n > 0,
        ensures
            r == order_index(n as nat, *self),
            r < n,
    {
        proof {
            lemma_order_index_bounds(n as nat, self.num as nat, self.den as nat);
            assert((n as int) * (self.num as int) <= (u64::MAX as int) * (u64::MAX as int))
                by (nonlinear_arith)
                requires
                    n <= u64::MAX,
                    self.num <= u64::MAX,
            ;
        }
        let prod: u128 = (n as u128) * (self.num as u128);
        let c: u128 = (prod + (self.den as u128) - 1) / (self.den as u128);
        if c < n as u128 {
            c as usize
        } else {
            n - 1
        }
    }
}

} // verus!
