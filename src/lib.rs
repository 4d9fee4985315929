//! Search for numbers whose numerals in every base of a range use only the
//! digits zero and one.
pub mod bignat;
pub mod bits;
pub mod digits;
pub mod radix;
pub mod search;

pub use bignat::BigNat;
pub use bits::{BitIter, BitVec, BoolIter};
pub use radix::{is_0_1, is_0_1_all, unpack_as_radix};
pub use search::{search, SearchOutcome};
