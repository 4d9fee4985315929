//! Reading zero-one numerals in a base, and testing whether a number is a
//! zero-one numeral in one base or in a range of bases.
use crate::bignat::BigNat;
use crate::digits::{power, unpack_value, zero_one, zero_one_all};
use vstd::arithmetic::div_mod::lemma_div_decreases;
use vstd::prelude::*;

verus! {

/// The smallest base in which a number can have a digit above one.
pub const MIN_NON_TRIVIAL_BASE: u8 = 3;

/// The value of the numeral whose digits, least significant first, are
/// `digits` (a set entry is a one) read in base `radix`.
pub fn unpack_as_radix(digits: &[bool], radix: u8) -> (r: BigNat)
    ensures
        r@ == unpack_value(digits@, radix as nat),
{
    let mut sum = BigNat::from_u128(0);
    let mut pow = BigNat::from_u128(1);
    let mut i: usize = 0;
    while i < digits.len()
        invariant
            i <= digits@.len(),
            sum@ == unpack_value(digits@.take(i as int), radix as nat),
            pow@ == power(radix as nat, i as nat),
        decreases digits.len() - i,
    {
        if digits[i] {
            sum = sum.add(&pow);
        }
        pow = pow.mul_u8(radix);
        proof {
            assert(power(radix as nat, (i + 1) as nat) == radix * power(radix as nat, i as nat));
            vstd::arithmetic::mul::lemma_mul_is_commutative(
                radix as int,
                power(radix as nat, i as nat) as int,
            );
            assert(digits@.take(i + 1).drop_last() =~= digits@.take(i as int));
        }
        i = i + 1;
    }
    proof {
        assert(digits@.take(i as int) =~= digits@);
    }
    sum
}

/// Whether every digit of `n` in base `radix` is 0 or 1; bases below 3 are
/// not examined, as every numeral in them passes.
pub fn is_0_1(n: BigNat, radix: u8) -> (r: bool)
    ensures
        r == zero_one(n@, radix as nat),
{
    if radix < MIN_NON_TRIVIAL_BASE {
        proof {
            assert(zero_one(n@, radix as nat));
        }
        return true;
    }
    let radix_big = BigNat::from_u128(radix as u128);
    let one = BigNat::from_u128(1);
    let mut m = n;
    while m.gt(&one)
        invariant
            radix >= 3,
            radix_big@ == radix,
            one@ == 1,
            zero_one(m@, radix as nat) == zero_one(n@, radix as nat),
        decreases m@,
    {
        let (q, digit) = m.div_rem(&radix_big);
        if digit.gt(&one) {
            proof {
                assert(!zero_one(m@, radix as nat));
            }
            return false;
        }
        proof {
            lemma_div_decreases(m@ as int, radix as int);
        }
        m = q;
    }
    proof {
        assert(zero_one(m@, radix as nat));
    }
    true
}

/// Whether `n` is a zero-one numeral in every base from 3 up to, not
/// including, `max_radix`.
pub fn is_0_1_all(n: &BigNat, max_radix: u8) -> (r: bool)
    ensures
        r == zero_one_all(n@, max_radix as nat),
{
    let mut radix: u8 = MIN_NON_TRIVIAL_BASE;
    while radix < max_radix
        invariant
            3 <= radix,
            forall|b: nat| 3 <= b < radix ==> #[trigger] zero_one(n@, b),
        decreases max_radix - radix,
    {
        if !is_0_1(n.clone(), radix) {
            return false;
        }
        radix = radix + 1;
    }
    true
}

} // verus!
