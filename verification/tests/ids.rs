use trace::ids::parse_trace_id;
use trace::ids::ID_HEX_LEN;

#[test]
fn parse_accepts_canonical_lowercase() {
    let id = parse_trace_id("0123456789abcdef0123456789abcdef").unwrap();
    assert_eq!(id.value, 0x0123456789abcdef0123456789abcdefu128);
}

#[test]
fn parse_accepts_uppercase_digits() {
    let id = parse_trace_id("ABCDEF000000000000000000000000FF").unwrap();
    assert_eq!(id.value, 0xabcdef000000000000000000000000ffu128);
}

#[test]
fn parse_small_values() {
    let id = parse_trace_id("00000000000000000000000000000001").unwrap();
    assert_eq!(id.value, 1);
    let id = parse_trace_id("00000000000000000000000000000000").unwrap();
    assert_eq!(id.value, 0);
    let id = parse_trace_id("ffffffffffffffffffffffffffffffff").unwrap();
    assert_eq!(id.value, u128::MAX);
}

#[test]
fn parse_rejects_wrong_length() {
    assert!(parse_trace_id("").is_none());
    assert!(parse_trace_id("0123456789abcdef").is_none());
    assert!(parse_trace_id("0123456789abcdef0123456789abcde").is_none());
    assert!(parse_trace_id("0123456789abcdef0123456789abcdef0").is_none());
}

#[test]
fn parse_rejects_non_hex_characters() {
    assert!(parse_trace_id("0123456789abcdef0123456789abcdeg").is_none());
    assert!(parse_trace_id("0123456789abcdef 123456789abcdef").is_none());
    assert!(parse_trace_id("0123456789abcdef0123456789abcd-f").is_none());
}

#[test]
fn canonical_length_is_32() {
    assert_eq!(ID_HEX_LEN, 32);
}

#[test]
fn parsed_ids_compare_by_value() {
    let a = parse_trace_id("00000000000000000000000000000001").unwrap();
    let b = parse_trace_id("00000000000000000000000000000001").unwrap();
    let c = parse_trace_id("00000000000000000000000000000002").unwrap();
    assert_eq!(a, b);
    assert_ne!(a, c);
}
