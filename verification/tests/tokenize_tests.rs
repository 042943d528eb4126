use dg::tokenize::WordTokenizer;

#[test]
fn words_of_simple_line() {
    let bytes = b"hello world\n";
    let mut tok = WordTokenizer::new(bytes);
    let (start, w) = tok.next().unwrap().unwrap();
    assert_eq!(start, 0);
    assert_eq!(w, b"hello".to_vec());
    let (start, w) = tok.next().unwrap().unwrap();
    assert_eq!(start, 6);
    assert_eq!(w, b"world".to_vec());
    assert!(tok.next().is_none());
}

#[test]
fn separators_are_skipped() {
    let bytes = b"  a,b. c";
    let mut tok = WordTokenizer::new(bytes);
    let (start, w) = tok.next().unwrap().unwrap();
    assert_eq!((start, w), (2, b"a".to_vec()));
    let (start, w) = tok.next().unwrap().unwrap();
    assert_eq!((start, w), (4, b"b".to_vec()));
    let (start, w) = tok.next().unwrap().unwrap();
    assert_eq!((start, w), (7, b"c".to_vec()));
    assert!(tok.next().is_none());
}

#[test]
fn multibyte_stays_inside_word() {
    // "caf\u{e9}" followed by a space: the accented letter does not end it
    let bytes = b"caf\xC3\xA9 x";
    let mut tok = WordTokenizer::new(bytes);
    let (start, w) = tok.next().unwrap().unwrap();
    assert_eq!(start, 0);
    assert_eq!(w, b"caf\xC3\xA9".to_vec());
    let (_, w) = tok.next().unwrap().unwrap();
    assert_eq!(w, b"x".to_vec());
}

#[test]
fn emoji_word() {
    // U+1F600 between letters forms one word
    let bytes = b"a\xF0\x9F\x98\x80b";
    let mut tok = WordTokenizer::new(bytes);
    let (start, w) = tok.next().unwrap().unwrap();
    assert_eq!(start, 0);
    assert_eq!(w, bytes.to_vec());
    assert!(tok.next().is_none());
}

#[test]
fn stray_continuation_bytes_are_skipped() {
    let bytes = b"\x80\x81 ok";
    let mut tok = WordTokenizer::new(bytes);
    let (start, w) = tok.next().unwrap().unwrap();
    assert_eq!((start, w), (3, b"ok".to_vec()));
    assert!(tok.next().is_none());
}

#[test]
fn invalid_word_is_an_error() {
    let bytes = b"\xFFabc";
    let mut tok = WordTokenizer::new(bytes);
    let e = tok.next().unwrap().unwrap_err();
    assert_eq!(e.kind(), dg::error::ErrorKind::InvalidInput);
    assert!(tok.next().is_none());
}

#[test]
fn empty_input_has_no_words() {
    let bytes = b"";
    let mut tok = WordTokenizer::new(bytes);
    assert!(tok.next().is_none());
}
