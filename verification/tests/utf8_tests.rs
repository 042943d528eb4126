use dg::utf8::{is_valid_utf8, trim_to_boundary};

#[test]
fn ascii_is_valid() {
    assert!(is_valid_utf8(&b"hello world".to_vec()));
    assert!(is_valid_utf8(&b"".to_vec()));
}

#[test]
fn multibyte_is_valid() {
    assert!(is_valid_utf8(&b"caf\xC3\xA9".to_vec()));
    assert!(is_valid_utf8(&b"\xE2\x82\xAC".to_vec())); // euro sign
    assert!(is_valid_utf8(&b"\xF0\x9F\x98\x80".to_vec())); // U+1F600
}

#[test]
fn truncated_sequences_are_invalid() {
    assert!(!is_valid_utf8(&b"\xC3".to_vec()));
    assert!(!is_valid_utf8(&b"\xF0\x9F\x98".to_vec()));
    assert!(!is_valid_utf8(&b"a\x80".to_vec()));
}

#[test]
fn overlong_and_surrogates_are_invalid() {
    assert!(!is_valid_utf8(&b"\xC0\x80".to_vec())); // overlong NUL
    assert!(!is_valid_utf8(&b"\xED\xA0\x80".to_vec())); // surrogate
    assert!(!is_valid_utf8(&b"\xF4\x90\x80\x80".to_vec())); // above U+10FFFF
}

#[test]
fn trim_keeps_complete_text() {
    let mut v = b"hello".to_vec();
    trim_to_boundary(&mut v);
    assert_eq!(v, b"hello".to_vec());

    let mut v = b"caf\xC3\xA9".to_vec();
    trim_to_boundary(&mut v);
    assert_eq!(v, b"caf\xC3\xA9".to_vec());
}

#[test]
fn trim_drops_incomplete_tail() {
    // three of the four bytes of U+1F600
    let mut v = b"ab\xF0\x9F\x98".to_vec();
    trim_to_boundary(&mut v);
    assert_eq!(v, b"ab".to_vec());

    let mut v = b"x\xC3".to_vec();
    trim_to_boundary(&mut v);
    assert_eq!(v, b"x".to_vec());
}

#[test]
fn trim_of_lone_partial_is_empty() {
    let mut v = b"\xF0\x9F\x98".to_vec();
    trim_to_boundary(&mut v);
    assert_eq!(v, b"".to_vec());
}

#[test]
fn trim_stops_at_single_byte() {
    // continuation bytes directly after ASCII are dropped, the ASCII stays
    let mut v = b"ok\x80\x80".to_vec();
    trim_to_boundary(&mut v);
    assert_eq!(v, b"ok".to_vec());
}
