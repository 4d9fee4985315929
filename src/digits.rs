//! The mathematics of numerals: powers, binary digits, the value of a
//! zero-one numeral in a base, and the zero-one property itself.
use vstd::arithmetic::div_mod::{lemma_div_decreases, lemma_div_denominator};
use vstd::arithmetic::mul::lemma_mul_is_distributive_add;
use vstd::prelude::*;

verus! {

/// `b` raised to the power `e`.
pub open spec fn power(b: nat, e: nat) -> nat
    decreases e,
{
    if e == 0 {
        1
    } else {
        b * power(b, (e - 1) as nat)
    }
}

/// The binary digits of `v`, least significant first, without leading
/// zeros: as many as the bit length of `v`.
pub open spec fn bits_of(v: nat) -> Seq<bool>
    decreases v,
{
    if v == 0 {
        Seq::empty()
    } else {
        seq![v % 2 == 1] + bits_of(v / 2)
    }
}

/// The value of the numeral whose digits, least significant first, are
/// `d` (each 0 or 1) in base `radix`: the sum of `radix^i` over the
/// positions `i` that hold a one.
pub open spec fn unpack_value(d: Seq<bool>, radix: nat) -> nat
    decreases d.len(),
{
    if d.len() == 0 {
        0
    } else {
        unpack_value(d.drop_last(), radix) + if d.last() {
            power(radix, (d.len() - 1) as nat)
        } else {
            0
        }
    }
}

/// Every digit of `n` in base `radix` is 0 or 1. Bases below 3 hold this
/// of every number.
pub open spec fn zero_one(n: nat, radix: nat) -> bool
    decreases n,
    via zero_one_decreases
{
    if radix < 3 || n <= 1 {
        true
    } else {
        n % radix <= 1 && zero_one(n / radix, radix)
    }
}

#[via_fn]
proof fn zero_one_decreases(n: nat, radix: nat) {
    if !(radix < 3 || n <= 1) {
        lemma_div_decreases(n as int, radix as int);
    }
}

/// `n` is a zero-one numeral in every base from 3 up to, not including,
/// `max_radix`.
pub open spec fn zero_one_all(n: nat, max_radix: nat) -> bool {
    forall|b: nat| 3 <= b < max_radix ==> #[trigger] zero_one(n, b)
}

pub proof fn lemma_power_positive(b: nat, e: nat)
    requires
        b > 0,
    ensures
        power(b, e) > 0,
    decreases e,
{
    if e > 0 {
        lemma_power_positive(b, (e - 1) as nat);
        assert(b * power(b, (e - 1) as nat) > 0) by (nonlinear_arith)
            requires
                b > 0,
                power(b, (e - 1) as nat) > 0,
        ;
    }
}

/// Position `i` of the binary digits of `v` is the bit of weight `2^i`.
pub proof fn lemma_bits_of_index(v: nat, i: nat)
    requires
        i < bits_of(v).len(),
    ensures
        bits_of(v)[i as int] == ((v / power(2, i)) % 2 == 1),
    decreases i,
{
    assert(v > 0);
    assert(bits_of(v) == seq![v % 2 == 1] + bits_of(v / 2));
    if i == 0 {
        assert(power(2, 0) == 1);
    } else {
        let j = (i - 1) as nat;
        assert(bits_of(v)[i as int] == bits_of(v / 2)[j as int]);
        lemma_bits_of_index(v / 2, j);
        lemma_power_positive(2, j);
        lemma_div_denominator(v as int, 2, power(2, j) as int);
        assert(power(2, i) == 2 * power(2, j));
    }
}

/// A numeral's lowest digit followed by the rest: `d0 + radix * rest`.
pub proof fn lemma_unpack_push_front(b: bool, s: Seq<bool>, radix: nat)
    ensures
        unpack_value(seq![b] + s, radix) == (if b {
            1nat
        } else {
            0nat
        }) + radix * unpack_value(s, radix),
    decreases s.len(),
{
    let t = seq![b] + s;
    assert(t.last() == if s.len() == 0 {
        b
    } else {
        s.last()
    });
    if s.len() == 0 {
        assert(t.drop_last() =~= Seq::<bool>::empty());
        assert(power(radix, 0) == 1);
        assert(unpack_value(s, radix) == 0);
        assert(radix * unpack_value(s, radix) == 0);
        assert(unpack_value(t.drop_last(), radix) == 0);
        assert(unpack_value(t, radix) == (if b {
            1nat
        } else {
            0nat
        }));
    } else {
        let k = (s.len() - 1) as nat;
        assert(power(radix, s.len()) == radix * power(radix, k));
        assert(t.drop_last() =~= seq![b] + s.drop_last());
        lemma_unpack_push_front(b, s.drop_last(), radix);
        let top: nat = if s.last() {
            power(radix, k)
        } else {
            0
        };
        let rest = unpack_value(s.drop_last(), radix);
        assert(radix * (rest + top) == radix * rest + radix * top) by {
            lemma_mul_is_distributive_add(radix as int, rest as int, top as int);
        }
        let bv: nat = if b {
            1
        } else {
            0
        };
        assert(unpack_value(s, radix) == unpack_value(s.drop_last(), radix) + top);
        assert(radix * top == if t.last() {
            power(radix, (t.len() - 1) as nat)
        } else {
            0
        });
        assert(unpack_value(t, radix) == unpack_value(seq![b] + s.drop_last(), radix) + radix * top);
        assert(unpack_value(t, radix) == bv + radix * unpack_value(s.drop_last(), radix) + radix * top);
    }
}

/// Reading the binary digits of `n` in base 2 gives `n` back.
pub proof fn lemma_unpack_bits_round_trip(n: nat)
    ensures
        unpack_value(bits_of(n), 2) == n,
    decreases n,
{
    if n > 0 {
        lemma_unpack_bits_round_trip(n / 2);
        lemma_unpack_push_front(n % 2 == 1, bits_of(n / 2), 2);
    }
}

/// With fewer than one base in the range, every number passes.
pub proof fn lemma_empty_range(n: nat, max_radix: nat)
    requires
        max_radix <= 3,
    ensures
        zero_one_all(n, max_radix),
{
}

} // verus!
