use eve_sqlite::scan::{field, find, matches_at};

#[test]
fn find_returns_first_occurrence_from_start() {
    let s = b"abcabc";
    assert_eq!(find(s, b"bc", 0), Some(1));
    assert_eq!(find(s, b"bc", 2), Some(4));
    assert_eq!(find(s, b"bc", 5), None);
    assert_eq!(find(s, b"abcabcd", 0), None);
}

#[test]
fn matches_at_checks_bounds() {
    assert!(matches_at(b"hello", b"llo", 2));
    assert!(!matches_at(b"hello", b"llo", 3));
    assert!(!matches_at(b"hello", b"x", 9));
}

#[test]
fn field_reads_up_to_the_next_quote() {
    let s = br#"{"k":"value","k":"other"}"#;
    assert_eq!(field(s, br#""k":""#), Some((6, 11)));
    assert_eq!(field(br#"{"k":"open"#, br#""k":""#), None);
    assert_eq!(field(s, br#""z":""#), None);
}
