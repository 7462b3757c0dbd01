use geth_runner::codec::{
    ascii_eq_ignore_case, copy_bytes, parse_u64, random_hex_payload, to_hex,
};
use geth_runner::errors::Error;

#[test]
fn parse_u64_reads_decimal_text() {
    assert_eq!(parse_u64(&b"0".to_vec()), Ok(0));
    assert_eq!(parse_u64(&b"42".to_vec()), Ok(42));
    assert_eq!(parse_u64(&b"007".to_vec()), Ok(7));
    assert_eq!(parse_u64(&b"18446744073709551615".to_vec()), Ok(u64::MAX));
}

#[test]
fn parse_u64_rejects_unparseable_counts() {
    assert_eq!(parse_u64(&b"".to_vec()), Err(Error::UnparseableCount));
    assert_eq!(parse_u64(&b"12a".to_vec()), Err(Error::UnparseableCount));
    assert_eq!(parse_u64(&b" 12".to_vec()), Err(Error::UnparseableCount));
    assert_eq!(parse_u64(&b"-3".to_vec()), Err(Error::UnparseableCount));
    // One past u64::MAX no longer fits.
    assert_eq!(parse_u64(&b"18446744073709551616".to_vec()), Err(Error::UnparseableCount));
}

#[test]
fn to_hex_renders_two_digits_per_byte() {
    assert_eq!(to_hex(&vec![]), b"".to_vec());
    assert_eq!(to_hex(&vec![0x0f, 0xa0, 0x00, 0xff]), b"0fa000ff".to_vec());
}

#[test]
fn ascii_case_insensitive_comparison() {
    assert!(ascii_eq_ignore_case(&b"0xAbCdEf".to_vec(), &b"0xaBcDeF".to_vec()));
    assert!(ascii_eq_ignore_case(&b"".to_vec(), &b"".to_vec()));
    assert!(!ascii_eq_ignore_case(&b"0xab".to_vec(), &b"0xabc".to_vec()));
    assert!(!ascii_eq_ignore_case(&b"0xab".to_vec(), &b"0xba".to_vec()));
}

#[test]
fn random_payload_is_hex_text_of_requested_size() {
    for len in [0usize, 1, 8, 33] {
        let p = random_hex_payload(len);
        assert_eq!(p.len(), 2 * len);
        assert!(p.iter().all(|b| b.is_ascii_hexdigit()));
    }
    // Two draws of a non-trivial payload almost surely differ: the
    // payload really is random, not an echo of its length.
    let a = random_hex_payload(32);
    let b = random_hex_payload(32);
    assert_ne!(a, b);
}

#[test]
fn copy_bytes_copies() {
    assert_eq!(copy_bytes(&b"enode://abc".to_vec()), b"enode://abc".to_vec());
}
