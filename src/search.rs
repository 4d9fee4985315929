//! The search for the first packed numeral whose reading in a base is a
//! zero-one numeral in every smaller non-trivial base.
use crate::bits::BitVec;
use crate::digits::{bits_of, unpack_value, zero_one_all};
use crate::radix::{is_0_1_all, unpack_as_radix};
use vstd::prelude::*;

verus! {

/// The numeral packed in the bits of `p`, read in base `base`, is a zero-one
/// numeral in every base from 3 up to, not including, `base`.
pub open spec fn qualifies(p: nat, base: nat) -> bool {
    zero_one_all(unpack_value(bits_of(p), base), base)
}

/// How a bounded stretch of the search ended.
pub enum SearchOutcome {
    /// The first qualifying packed numeral of the stretch.
    Found(BitVec),
    /// None qualified; the search resumes at the packed numeral held here.
    Exhausted(BitVec),
}

/// Examines the packed numerals `start`, `start + 1`, ... in turn, `count`
/// of them at most, and stops at the first one that qualifies.
pub fn search(start: &BitVec, count: u64, base: u8) -> (r: SearchOutcome)
    ensures
        match r {
            SearchOutcome::Found(p) => {
                &&& start@ <= p@ < start@ + count
                &&& qualifies(p@, base as nat)
                &&& forall|v: nat| start@ <= v < p@ ==> !#[trigger] qualifies(v, base as nat)
            },
            SearchOutcome::Exhausted(next) => {
                &&& next@ == start@ + count
                &&& forall|v: nat|
                    start@ <= v < start@ + count ==> !#[trigger] qualifies(v, base as nat)
            },
        },
{
    let mut cur = start.clone();
    let mut k: u64 = 0;
    while k < count
        invariant
            k <= count,
            cur@ == start@ + k,
            forall|v: nat| start@ <= v < cur@ ==> !#[trigger] qualifies(v, base as nat),
        decreases count - k,
    {
        let digits = cur.to_digits();
        let n = unpack_as_radix(digits.as_slice(), base);
        if is_0_1_all(&n, base) {
            return SearchOutcome::Found(cur);
        }
        cur.inc();
        k = k + 1;
    }
    SearchOutcome::Exhausted(cur)
}

} // verus!
