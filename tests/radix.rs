use zero_one_search::{is_0_1, is_0_1_all, unpack_as_radix, BigNat, BitVec};

fn big(v: u128) -> BigNat {
    BigNat::from_u128(v)
}

#[test]
fn unpacker_bin_idempotent() {
    assert!((0..=u16::MAX).all(|n| {
        let n = big(n as u128);
        n == unpack_as_radix(&BitVec::new(n.clone()).to_digits(), 2)
    }));
}

#[test]
fn unpacker_works_non_bin() {
    assert_eq!(unpack_as_radix(&[false, true, false, true], 3), big(27 + 3));
    assert_eq!(unpack_as_radix(&[false, true, false, true], 4), big(64 + 4));
    assert_eq!(unpack_as_radix(&[false, true, true], 5), big(25 + 5));
}

#[test]
fn checker_happy() {
    assert!([(3u8, 3), (4, 3)]
        .into_iter()
        .all(|(n, radix)| is_0_1(big(n as u128), radix)));
    assert!([(4u32, 5), (82000u32, 6)]
        .into_iter()
        .all(|(n, radix)| is_0_1_all(&big(n as u128), radix)));
}

#[test]
fn checker_sad() {
    assert!([(2u8, 3), (3, 4)]
        .into_iter()
        .all(|(n, radix)| !is_0_1(big(n as u128), radix)));
    assert!([(3u8, 5), (5, 5), (4, 6)]
        .into_iter()
        .all(|(n, radix)| !is_0_1_all(&big(n as u128), radix)));
}

#[test]
fn unpack_empty_is_zero() {
    assert_eq!(unpack_as_radix(&[], 7), big(0));
}

#[test]
fn unpack_large_radix_and_length() {
    let mut digits = vec![false; 40];
    digits[0] = true;
    digits[39] = true;
    let r = unpack_as_radix(&digits, 2);
    assert_eq!(r, big((1u128 << 39) + 1));
    let wide = unpack_as_radix(&[false, false, false, false, true], 255);
    assert_eq!(wide, big(255u128.pow(4)));
}

#[test]
fn round_trip_beyond_u64() {
    let n = big(u128::MAX - 12345);
    assert_eq!(unpack_as_radix(&BitVec::new(n.clone()).to_digits(), 2), n);
}

#[test]
fn checker_small_bases_always_pass() {
    assert!(is_0_1(big(12345), 0));
    assert!(is_0_1(big(12345), 1));
    assert!(is_0_1(big(12345), 2));
}

#[test]
fn checker_zero_and_one_pass_everywhere() {
    for radix in 3u8..=255 {
        assert!(is_0_1(big(0), radix));
        assert!(is_0_1(big(1), radix));
    }
}

#[test]
fn checker_digit_above_one_deep_in_numeral() {
    // 2 * 3^4 + 1 = 163 is "20001" in base 3.
    assert!(!is_0_1(big(163), 3));
    // 3^4 + 3^2 + 1 = 91 is "10101" in base 3.
    assert!(is_0_1(big(91), 3));
}

#[test]
fn degenerate_range_is_vacuous() {
    for n in [0u128, 2, 5, 7, u128::MAX] {
        assert!(is_0_1_all(&big(n), 3));
        assert!(is_0_1_all(&big(n), 0));
    }
}

#[test]
fn multi_base_upper_bound_excluded() {
    // 82000 is a zero-one numeral in bases 3, 4 and 5 but not in base 6.
    assert!(is_0_1_all(&big(82000), 6));
    assert!(!is_0_1_all(&big(82000), 7));
}
