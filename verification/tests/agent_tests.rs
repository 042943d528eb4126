use dg::agent::{Agent, FileEvent, FileState};
use dg::tailer::FileContent;

fn content(offset: u64, data: &[u8], eof: bool) -> FileContent {
    FileContent { offset, data: data.to_vec(), eof }
}

#[test]
fn seed_file_words_are_indexed() {
    let mut st = FileState::new();
    st.update_cuckoo_filter(content(0, b"hello world\n", true));
    assert!(!st.is_binary);
    assert!(st.contains(&b"hello".to_vec()));
    assert!(st.contains(&b"world".to_vec()));
    // the trailing separator is carried, the words are drained
    assert_eq!(st.buf, b"\n".to_vec());
}

#[test]
fn append_after_start() {
    let mut st = FileState::new();
    st.update_cuckoo_filter(content(0, b"foo", true));
    st.update_cuckoo_filter(content(3, b" bar", true));
    assert!(st.contains(&b"foo".to_vec()));
    assert!(st.contains(&b"bar".to_vec()));
    assert!(!st.is_binary);
}

#[test]
fn fresh_filter_is_empty() {
    let st = FileState::new();
    assert!(!st.contains(&b"hello".to_vec()));
    assert!(!st.contains(&b"anything".to_vec()));
}

#[test]
fn word_split_across_chunks_is_carried() {
    let mut st = FileState::new();
    // "he" ends the chunk as an open word: it is indexed as seen,
    // and the carry is empty because the word reached the buffer's end
    st.update_cuckoo_filter(content(0, b"say he", true));
    assert!(st.contains(&b"say".to_vec()));
    assert_eq!(st.buf, b"".to_vec());
}

#[test]
fn binary_latch() {
    let mut st = FileState::new();
    st.update_cuckoo_filter(content(0, b"fo\xFF\xFF", true));
    assert!(st.is_binary);
    assert_eq!(st.buf, b"".to_vec());
    // later text appends change nothing
    st.update_cuckoo_filter(content(4, b" hello ", true));
    assert!(st.is_binary);
    assert!(!st.contains(&b"hello".to_vec()));
}

#[test]
fn multibyte_word_is_indexed() {
    let mut st = FileState::new();
    st.update_cuckoo_filter(content(0, b"\xF0\x9F\x98\x80 ", true));
    assert!(!st.is_binary);
    assert!(st.contains(&b"\xF0\x9F\x98\x80".to_vec()));
}

#[test]
fn agent_tracks_and_drops_files() {
    let mut agent = Agent::new();
    let path = b"root/d.txt".to_vec();
    agent.register_file(path.clone());
    assert!(agent.files.get(&path).is_some());
    agent.handle_file_event(FileEvent::Updated {
        path: path.clone(),
        content: content(0, b"keep me", true),
    });
    assert!(agent.files.get(&path).unwrap().contains(&b"keep".to_vec()));
    // remove during tail: the state is dropped, no further inserts land
    agent.handle_file_event(FileEvent::Deleted { path: path.clone() });
    assert!(agent.files.get(&path).is_none());
    agent.handle_file_event(FileEvent::Updated {
        path: path.clone(),
        content: content(7, b" gone", true),
    });
    assert!(agent.files.get(&path).is_none());
}

#[test]
fn chunk_for_unknown_path_is_dropped() {
    let mut agent = Agent::new();
    agent.handle_file_event(FileEvent::Updated {
        path: b"root/x.txt".to_vec(),
        content: content(0, b"abc", true),
    });
    assert!(agent.files.get(&b"root/x.txt".to_vec()).is_none());
}
