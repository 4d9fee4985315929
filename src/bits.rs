//! A growable sequence of binary digits packed into a `BigNat`, and an
//! iterator over those digits.
use crate::bignat::BigNat;
use crate::digits::{bits_of, lemma_bits_of_index};
use vstd::prelude::*;

verus! {

/// Walks the binary digits of a number, least significant first, up to its
/// bit length.
pub struct BitIter {
    i: u64,
    n: BigNat,
}

/// Another name for [`BitIter`].
pub type BoolIter = BitIter;

impl BitIter {
    /// The position of the next digit.
    pub closed spec fn pos(&self) -> nat {
        self.i as nat
    }

    /// The number whose digits are walked.
    pub closed spec fn value(&self) -> nat {
        self.n@
    }

    /// An iterator at the lowest digit of `n`.
    pub fn new(n: BigNat) -> (r: BitIter)
        ensures
            r.pos() == 0,
            r.value() == n@,
    {
        BitIter { i: 0, n }
    }

    /// The next digit, or `None` once all digits have been handed out.
    pub fn next(&mut self) -> (r: Option<bool>)
        ensures
            final(self).value() == old(self).value(),
            old(self).pos() < bits_of(old(self).value()).len() ==> r == Some(
                bits_of(old(self).value())[old(self).pos() as int],
            ) && final(self).pos() == old(self).pos() + 1,
            old(self).pos() >= bits_of(old(self).value()).len() ==> r is None && final(self).pos()
                == old(self).pos(),
    {
        if self.i >= self.n.bits() {
            return None;
        }
        let out = self.n.bit(self.i);
        proof {
            lemma_bits_of_index(self.n@, self.i as nat);
        }
        self.i = self.i + 1;
        Some(out)
    }
}

/// A sequence of binary digits, least significant first, packed into the
/// bits of a number; its view is that number.
pub struct BitVec(BigNat);

impl View for BitVec {
    type V = nat;

    closed spec fn view(&self) -> nat {
        self.0@
    }
}

impl Clone for BitVec {
    fn clone(&self) -> (r: Self)
        ensures
            r@ == self@,
    {
        BitVec(self.0.clone())
    }
}

impl BitVec {
    /// The digits of `n`.
    pub fn new(n: BigNat) -> (r: BitVec)
        ensures
            r@ == n@,
    {
        BitVec(n)
    }

    /// The digits of the next number.
    pub fn clone_inc(&self) -> (r: BitVec)
        ensures
            r@ == self@ + 1,
    {
        BitVec(self.0.add(&BigNat::from_u128(1)))
    }

    /// Moves to the digits of the next number.
    pub fn inc(&mut self)
        ensures
            final(self)@ == old(self)@ + 1,
    {
        self.0 = self.0.add(&BigNat::from_u128(1));
    }

    /// The number that packs the digits.
    pub fn deref(&self) -> (r: &BigNat)
        ensures
            r@ == self@,
    {
        &self.0
    }

    /// An iterator over the digits.
    pub fn into_iter(self) -> (r: BitIter)
        ensures
            r.pos() == 0,
            r.value() == self@,
    {
        BitIter::new(self.0)
    }

    /// The digits, least significant first.
    pub fn to_digits(&self) -> (r: Vec<bool>)
        ensures
            r@ == bits_of(self@),
    {
        let mut it = self.clone().into_iter();
        let mut out: Vec<bool> = Vec::new();
        loop
            invariant
                it.value() == self@,
                it.pos() <= bits_of(self@).len(),
                out@ == bits_of(self@).take(it.pos() as int),
            ensures
                out@ == bits_of(self@),
            decreases bits_of(self@).len() - it.pos(),
        {
            match it.next() {
                Some(b) => {
                    proof {
                        assert(bits_of(self@).take(it.pos() as int) =~= out@.push(b));
                    }
                    out.push(b);
                },
                None => {
                    proof {
                        assert(out@ =~= bits_of(self@));
                    }
                    break;
                },
            }
        }
        out
    }
}

} // verus!
