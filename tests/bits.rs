use zero_one_search::{BigNat, BitIter, BitVec, BoolIter};

#[test]
fn iterator_walks_bits_then_stops() {
    let mut it = BitIter::new(BigNat::from_u128(0b1101));
    assert_eq!(it.next(), Some(true));
    assert_eq!(it.next(), Some(false));
    assert_eq!(it.next(), Some(true));
    assert_eq!(it.next(), Some(true));
    assert_eq!(it.next(), None);
    assert_eq!(it.next(), None);
}

#[test]
fn iterator_of_zero_is_empty() {
    let mut it = BoolIter::new(BigNat::from_u128(0));
    assert_eq!(it.next(), None);
}

#[test]
fn into_iter_matches_to_digits() {
    let v = BitVec::new(BigNat::from_u128(0b1011_0000_0000_0000_0000_0000_0000_0000_0001));
    let digits = v.to_digits();
    assert_eq!(digits.len(), 36);
    let mut it = v.into_iter();
    for d in digits {
        assert_eq!(it.next(), Some(d));
    }
    assert_eq!(it.next(), None);
}

#[test]
fn clone_inc_and_inc_add_one() {
    let v = BitVec::new(BigNat::from_u128(u32::MAX as u128));
    let w = v.clone_inc();
    assert_eq!(*w.deref(), BigNat::from_u128(1u128 << 32));
    assert_eq!(*v.deref(), BigNat::from_u128(u32::MAX as u128));
    let mut x = v.clone();
    x.inc();
    assert_eq!(x.deref(), w.deref());
    let mut top = BitVec::new(BigNat::from_u128(u128::MAX));
    top.inc();
    assert_eq!(top.deref().to_u32_digits(), vec![0, 0, 0, 0, 1]);
}

#[test]
fn digits_of_wide_number() {
    let v = BitVec::new(BigNat::from_u128(1u128 << 100));
    let d = v.to_digits();
    assert_eq!(d.len(), 101);
    assert!(d[100]);
    assert!(d[..100].iter().all(|b| !b));
}

#[test]
fn bignat_limbs_are_canonical() {
    let n = BigNat::from_u32_digits(vec![5, 0, 7, 0, 0]);
    assert_eq!(n.to_u32_digits(), vec![5, 0, 7]);
    assert_eq!(BigNat::from_u32_digits(vec![0, 0]), BigNat::from_u128(0));
    assert!(BigNat::from_u128(0).to_u32_digits().is_empty());
    assert_eq!(
        BigNat::from_u128((3u128 << 64) | 9).to_u32_digits(),
        vec![9, 0, 3]
    );
}

#[test]
fn bignat_arithmetic() {
    let a = BigNat::from_u128(1u128 << 70);
    let b = BigNat::from_u128(12345);
    assert_eq!(a.add(&b), BigNat::from_u128((1u128 << 70) + 12345));
    assert_eq!(b.mul_u8(200), BigNat::from_u128(12345 * 200));
    let (q, r) = a.add(&b).div_rem(&BigNat::from_u128(1000));
    assert_eq!(q, BigNat::from_u128(((1u128 << 70) + 12345) / 1000));
    assert_eq!(r, BigNat::from_u128(((1u128 << 70) + 12345) % 1000));
    assert!(a.gt(&b));
    assert!(!b.gt(&a));
    assert!(!b.gt(&b));
}

#[test]
fn bignat_bit_access() {
    let n = BigNat::from_u128((1u128 << 90) | 0b101);
    assert_eq!(n.bits(), 91);
    assert!(n.bit(0));
    assert!(!n.bit(1));
    assert!(n.bit(2));
    assert!(n.bit(90));
    assert!(!n.bit(91));
    assert!(!n.bit(u64::MAX));
    assert_eq!(BigNat::from_u128(0).bits(), 0);
}
