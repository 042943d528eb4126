use dg::tailer::{
    finish_read, FileWatcher, PlainFileWatcher, ReadDelay, MIN_READ_CONTENT_INTERVAL,
    READ_BUFFER_SIZE,
};

#[test]
fn finish_read_sets_eof_and_truncates() {
    let mut buf = vec![0u8; 8];
    buf[..3].copy_from_slice(b"abc");
    let c = finish_read(buf, 3, 5);
    assert_eq!(c.offset, 5);
    assert_eq!(c.data, b"abc".to_vec());
    assert!(c.eof);

    let full = b"abcd".to_vec();
    let c = finish_read(full, 4, 0);
    assert!(!c.eof);
    assert_eq!(c.data, b"abcd".to_vec());
}

#[test]
fn finish_read_trims_incomplete_sequence() {
    // a read that caught the file mid-character drops the partial tail
    let mut buf = vec![0u8; 8];
    buf[..5].copy_from_slice(b"ab\xF0\x9F\x98");
    let c = finish_read(buf, 5, 0);
    assert_eq!(c.data, b"ab".to_vec());
    assert!(c.eof);
}

#[test]
fn initial_read_is_scheduled() {
    let t = PlainFileWatcher::new(b"root/a.txt".to_vec());
    assert!(t.reading);
    assert_eq!(t.current_position, 0);
    assert_eq!(t.path(), &b"root/a.txt".to_vec());
}

#[test]
fn chunks_are_contiguous() {
    let mut t = PlainFileWatcher::new(b"f".to_vec());
    let (c1, next) = t.on_read_complete(b"hello ".to_vec(), true);
    let c1 = c1.unwrap();
    assert_eq!(c1.offset, 0);
    assert!(next.is_none());
    t.on_update_signal();
    assert_eq!(t.begin_read_if_due(), Some(ReadDelay::MinInterval));
    let (c2, _) = t.on_read_complete(b"world".to_vec(), true);
    let c2 = c2.unwrap();
    assert_eq!(c1.offset + c1.data.len() as u64, c2.offset);
    assert_eq!(t.current_position, 11);
}

#[test]
fn empty_read_yields_no_chunk() {
    let mut t = PlainFileWatcher::new(b"f".to_vec());
    let (c, next) = t.on_read_complete(Vec::new(), true);
    assert!(c.is_none());
    assert!(next.is_none());
    assert_eq!(t.current_position, 0);
}

#[test]
fn backlog_is_drained_immediately() {
    let mut t = PlainFileWatcher::new(b"f".to_vec());
    let (c, next) = t.on_read_complete(b"x".to_vec(), false);
    assert!(c.is_some());
    assert_eq!(next, Some(ReadDelay::Immediate));
    assert!(t.reading);
}

#[test]
fn signal_while_reading_is_coalesced() {
    let mut t = PlainFileWatcher::new(b"f".to_vec());
    t.on_update_signal();
    // a read is already pending: no second one starts
    assert_eq!(t.begin_read_if_due(), None);
}

#[test]
fn multibyte_split_read() {
    // first pass catches three of the four bytes of U+1F600
    let mut t = PlainFileWatcher::new(b"f".to_vec());
    let mut buf = vec![0u8; 8];
    buf[..3].copy_from_slice(b"\xF0\x9F\x98");
    let c = finish_read(buf, 3, t.current_position);
    assert_eq!(c.data, b"".to_vec());
    let (chunk, _) = t.on_read_complete(c.data, c.eof);
    assert!(chunk.is_none());
    assert_eq!(t.current_position, 0);
    // the fourth byte arrives; the full character is re-read
    t.on_update_signal();
    assert_eq!(t.begin_read_if_due(), Some(ReadDelay::MinInterval));
    let mut buf = vec![0u8; 8];
    buf[..4].copy_from_slice(b"\xF0\x9F\x98\x80");
    let c = finish_read(buf, 4, t.current_position);
    assert_eq!(c.data, b"\xF0\x9F\x98\x80".to_vec());
    let (chunk, _) = t.on_read_complete(c.data, c.eof);
    let chunk = chunk.unwrap();
    assert_eq!(chunk.offset, 0);
    assert_eq!(chunk.data.len(), 4);
}

#[test]
fn read_buffer_size_is_one_mebibyte() {
    assert_eq!(READ_BUFFER_SIZE, 1024 * 1024);
    assert_eq!(MIN_READ_CONTENT_INTERVAL, 60);
}

#[test]
fn file_watcher_wraps_plain() {
    let w = FileWatcher::new(b"root/p.log".to_vec());
    assert_eq!(w.path(), &b"root/p.log".to_vec());
}
