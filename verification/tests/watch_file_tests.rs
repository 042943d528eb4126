use dg::error::ErrorKind;
use dg::watch_file::{FileSubscriber, WatchedFile, WatchedTextFile};

#[test]
fn subscribers_get_fresh_channels() {
    let mut f = WatchedTextFile::new(b"root/a.txt".to_vec());
    let s1 = f.subscribe();
    let s2 = f.subscribe();
    assert_eq!(s1.channel, 0);
    assert_eq!(s2.channel, 1);
    assert_eq!(f.forwards, vec![0, 1]);
    assert_eq!(s1.path, b"root/a.txt".to_vec());
}

#[test]
fn failed_forward_leaves_the_list() {
    let mut f = WatchedTextFile::new(b"root/a.txt".to_vec());
    let _s1 = f.subscribe();
    let _s2 = f.subscribe();
    let _s3 = f.subscribe();
    f.on_forward_send_failed(0);
    assert_eq!(f.forwards, vec![2, 1]);
}

#[test]
fn check_content_yields_text_chunks() {
    let mut f = WatchedTextFile::new(b"root/a.txt".to_vec());
    let mut s = f.subscribe();
    let c = s.check_content(b"hello world\n".to_vec(), 12).unwrap().unwrap();
    assert_eq!(c.offset, 0);
    assert_eq!(c.data, b"hello world\n".to_vec());
    assert_eq!(s.position, 12);
}

#[test]
fn check_content_trims_partial_character() {
    let mut f = WatchedTextFile::new(b"root/a.txt".to_vec());
    let mut s = f.subscribe();
    // only the lead byte of a two-byte character was visible
    let r = s.check_content(b"\xC3".to_vec(), 1).unwrap();
    assert!(r.is_none());
    assert_eq!(s.position, 0);
    // the full character arrives on the next pass
    s.on_update_signal();
    assert!(s.begin_check_if_due());
    let c = s.check_content(b"\xC3\xA9".to_vec(), 2).unwrap().unwrap();
    assert_eq!(c.offset, 0);
    assert_eq!(c.data, b"\xC3\xA9".to_vec());
    assert_eq!(s.position, 2);
}

#[test]
fn check_content_rejects_binary_bytes() {
    let mut f = WatchedTextFile::new(b"root/a.txt".to_vec());
    let mut s = f.subscribe();
    let e = s.check_content(b"\xFFdata".to_vec(), 5).unwrap_err();
    assert_eq!(e.kind(), ErrorKind::InvalidInput);
    assert_eq!(s.position, 0);
}

#[test]
fn consecutive_chunks_are_contiguous() {
    let mut f = WatchedTextFile::new(b"root/a.txt".to_vec());
    let mut s = f.subscribe();
    let c1 = s.check_content(b"ab".to_vec(), 2).unwrap().unwrap();
    s.on_update_signal();
    assert!(s.begin_check_if_due());
    let c2 = s.check_content(b"cde".to_vec(), 3).unwrap().unwrap();
    assert_eq!(c1.offset + c1.data.len() as u64, c2.offset);
}

#[test]
fn watched_file_delegates_to_text() {
    let mut w = WatchedFile::new(b"root/t.txt".to_vec());
    assert_eq!(w.path(), b"root/t.txt".to_vec());
    let FileSubscriber::Text(s) = w.subscribe();
    assert_eq!(s.channel, 0);
    assert_eq!(s.position, 0);
}
