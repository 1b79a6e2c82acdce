//! Decimal text conversions.

use rockscached::byte_utils::{bytes_to_u32, bytes_to_u64, convert_bytes_to_u64, u64_to_bytes};

#[test]
fn bytes_to_u64_nominal() {
    assert_eq!(bytes_to_u64(b"12345"), 12345u64);
}

#[test]
fn bytes_to_u32_nominal() {
    assert_eq!(bytes_to_u32(b"12345"), 12345u32);
}

#[test]
fn u64_to_bytes_nominal() {
    assert_eq!(u64_to_bytes(12345u64), b"12345");
}

#[test]
fn convert_accepts_zero_and_max() {
    assert_eq!(convert_bytes_to_u64(b"0"), Ok(0));
    assert_eq!(convert_bytes_to_u64(b"18446744073709551615"), Ok(u64::MAX));
    assert_eq!(convert_bytes_to_u64(b"007"), Ok(7));
}

#[test]
fn convert_rejects_empty_and_non_digits() {
    assert!(convert_bytes_to_u64(b"").is_err());
    assert!(convert_bytes_to_u64(b"12a4").is_err());
    assert!(convert_bytes_to_u64(b"-1").is_err());
    assert!(convert_bytes_to_u64(b" 1").is_err());
}

#[test]
fn convert_rejects_out_of_range() {
    assert!(convert_bytes_to_u64(b"18446744073709551616").is_err());
    assert!(convert_bytes_to_u64(b"99999999999999999999999999").is_err());
}

#[test]
fn u64_to_bytes_edges() {
    assert_eq!(u64_to_bytes(0), b"0");
    assert_eq!(u64_to_bytes(10), b"10");
    assert_eq!(u64_to_bytes(u64::MAX), b"18446744073709551615");
}
