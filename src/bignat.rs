//! An arbitrary-precision natural number held as base-2^32 limbs, with its
//! arithmetic delegated to `num_bigint::BigUint`.
//!
//! Each wrapper below turns limbs into a `BigUint` with `BigUint::new` and
//! hands results back through `BigUint::to_u32_digits`, which lists the
//! digits least significant first and never ends in a zero digit.
use crate::digits::{bits_of, power};
use num_bigint::BigUint;
use num_integer::Integer;
use vstd::prelude::*;

verus! {

/// The value of little-endian base-2^32 limbs.
pub open spec fn limbs_value(s: Seq<u32>) -> nat
    decreases s.len(),
{
    if s.len() == 0 {
        0
    } else {
        s[0] as nat + 0x1_0000_0000 * limbs_value(s.drop_first())
    }
}

/// Limbs without a most significant zero limb: each value has exactly one
/// such form, and zero is the empty sequence.
pub open spec fn canonical(s: Seq<u32>) -> bool {
    s.len() == 0 || s.last() != 0
}

/// An arbitrary-precision natural number.
#[derive(Debug, PartialEq, Eq)]
pub struct BigNat {
    limbs: Vec<u32>,
}

impl View for BigNat {
    type V = nat;

    closed spec fn view(&self) -> nat {
        limbs_value(self.limbs@)
    }
}

/// Relies on `BigUint::from(u128)` and `BigUint::to_u32_digits`: the number
/// is the given integer, and its digits come least significant first with no
/// trailing zero digit.
#[verifier::external_body]
fn limbs_from_u128(v: u128) -> (r: Vec<u32>)
    ensures
        limbs_value(r@) == v,
        canonical(r@),
{
    BigUint::from(v).to_u32_digits()
}

/// Relies on `BigUint::new`, which takes little-endian base-2^32 digits and
/// drops the leading zero digits.
#[verifier::external_body]
fn limbs_normalize(v: Vec<u32>) -> (r: Vec<u32>)
    ensures
        limbs_value(r@) == limbs_value(v@),
        canonical(r@),
{
    BigUint::new(v).to_u32_digits()
}

/// Relies on `Add` for `BigUint`: the exact sum.
#[verifier::external_body]
fn limbs_add(a: &Vec<u32>, b: &Vec<u32>) -> (r: Vec<u32>)
    ensures
        limbs_value(r@) == limbs_value(a@) + limbs_value(b@),
        canonical(r@),
{
    (BigUint::new(a.clone()) + BigUint::new(b.clone())).to_u32_digits()
}

/// Relies on `Mul<u8>` for `&BigUint`: the exact product.
#[verifier::external_body]
fn limbs_mul_u8(a: &Vec<u32>, k: u8) -> (r: Vec<u32>)
    ensures
        limbs_value(r@) == limbs_value(a@) * k,
        canonical(r@),
{
    (&BigUint::new(a.clone()) * k).to_u32_digits()
}

/// Relies on `Integer::div_rem` for `BigUint`: Euclidean quotient and
/// remainder. It panics on a zero divisor.
#[verifier::external_body]
fn limbs_div_rem(a: &Vec<u32>, d: &Vec<u32>) -> (r: (Vec<u32>, Vec<u32>))
    requires
        limbs_value(d@) > 0,
    ensures
        limbs_value(r.0@) == limbs_value(a@) / limbs_value(d@),
        limbs_value(r.1@) == limbs_value(a@) % limbs_value(d@),
        canonical(r.0@),
        canonical(r.1@),
{
    let (q, m) = BigUint::new(a.clone()).div_rem(&BigUint::new(d.clone()));
    (q.to_u32_digits(), m.to_u32_digits())
}

/// Relies on `PartialOrd` for `BigUint`, which orders by value.
#[verifier::external_body]
fn limbs_gt(a: &Vec<u32>, b: &Vec<u32>) -> (r: bool)
    ensures
        r == (limbs_value(a@) > limbs_value(b@)),
{
    BigUint::new(a.clone()) > BigUint::new(b.clone())
}

/// Relies on `BigUint::bits`: the fewest bits needed to express the number.
#[verifier::external_body]
fn limbs_bits(a: &Vec<u32>) -> (r: u64)
    ensures
        r == bits_of(limbs_value(a@)).len(),
{
    BigUint::new(a.clone()).bits()
}

/// Relies on `BigUint::bit`: whether the bit at the given position is set.
#[verifier::external_body]
fn limbs_bit(a: &Vec<u32>, i: u64) -> (r: bool)
    ensures
        r == ((limbs_value(a@) / power(2, i as nat)) % 2 == 1),
{
    BigUint::new(a.clone()).bit(i)
}

impl Clone for BigNat {
    fn clone(&self) -> (r: Self)
        ensures
            r@ == self@,
    {
        proof {
            use_type_invariant(self);
        }
        BigNat { limbs: self.limbs.clone() }
    }
}

impl BigNat {
    #[verifier::type_invariant]
    spec fn inv(&self) -> bool {
        canonical(self.limbs@)
    }

    /// The number `v`.
    pub fn from_u128(v: u128) -> (r: BigNat)
        ensures
            r@ == v,
    {
        BigNat { limbs: limbs_from_u128(v) }
    }

    /// The number whose base-2^32 digits, least significant first, are
    /// `digits`; trailing zero digits are allowed.
    pub fn from_u32_digits(digits: Vec<u32>) -> (r: BigNat)
        ensures
            r@ == limbs_value(digits@),
    {
        BigNat { limbs: limbs_normalize(digits) }
    }

    /// The base-2^32 digits, least significant first, without trailing zero
    /// digits (zero has none).
    pub fn to_u32_digits(&self) -> (r: Vec<u32>)
        ensures
            limbs_value(r@) == self@,
            canonical(r@),
    {
        proof {
            use_type_invariant(self);
        }
        self.limbs.clone()
    }

    /// The number of bits needed to write this number: its bit length.
    pub fn bits(&self) -> (r: u64)
        ensures
            r == bits_of(self@).len(),
    {
        limbs_bits(&self.limbs)
    }

    /// Whether the bit of weight `2^i` is set.
    pub fn bit(&self, i: u64) -> (r: bool)
        ensures
            r == ((self@ / power(2, i as nat)) % 2 == 1),
    {
        limbs_bit(&self.limbs, i)
    }

    /// The sum of two numbers.
    pub fn add(&self, o: &BigNat) -> (r: BigNat)
        ensures
            r@ == self@ + o@,
    {
        BigNat { limbs: limbs_add(&self.limbs, &o.limbs) }
    }

    /// The product of this number and `k`.
    pub fn mul_u8(&self, k: u8) -> (r: BigNat)
        ensures
            r@ == self@ * k,
    {
        BigNat { limbs: limbs_mul_u8(&self.limbs, k) }
    }

    /// Euclidean division: quotient and remainder.
    pub fn div_rem(&self, d: &BigNat) -> (r: (BigNat, BigNat))
        requires
            d@ > 0,
        ensures
            r.0@ == self@ / d@,
            r.1@ == self@ % d@,
    {
        let (q, m) = limbs_div_rem(&self.limbs, &d.limbs);
        (BigNat { limbs: q }, BigNat { limbs: m })
    }

    /// Whether this number is greater than `o`.
    pub fn gt(&self, o: &BigNat) -> (r: bool)
        ensures
            r == (self@ > o@),
    {
        limbs_gt(&self.limbs, &o.limbs)
    }
}

} // verus!
