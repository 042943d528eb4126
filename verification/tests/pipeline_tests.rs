//! The whole chain on one concrete story: a directory listing discovers a
//! seeded file, the watcher starts a tailer, the tailer reads the contents,
//! and the agent indexes the words.

use dg::agent::{Agent, FileEvent};
use dg::directory::{Action, DirectoryEvent, DirectoryWatcher, WatcherEvent};
use dg::fs_watcher::{FileSystemWatcher, FsAction};
use dg::inotify_service::{Event, MASK_DELETE};
use dg::tailer::{finish_read, PlainFileWatcher};

#[test]
fn seed_file_through_the_whole_pipeline() {
    // the watch is installed, then the listing finds root/a.txt
    let mut dw = DirectoryWatcher::new(b"root".to_vec());
    assert!(matches!(dw.on_watcher_event(WatcherEvent::StartWatching), Action::Continue));
    let ev = dw.on_listing_entry(b"root/a.txt".to_vec(), false);

    // the file-system watcher allocates a tailer for the new file
    let mut fsw = FileSystemWatcher::new();
    let (path, ch) = match fsw.handle_dir_event(ev) {
        FsAction::NewFile(path, ch) => (path, ch),
        other => panic!("unexpected action: {:?}", other),
    };
    assert_eq!(ch, 0);

    // the agent learns of the file, the tailer reads its current contents
    let mut agent = Agent::new();
    agent.register_file(path.clone());
    let mut tailer = PlainFileWatcher::new(path.clone());
    assert!(tailer.reading);
    let mut buf = vec![0u8; 64];
    buf[..12].copy_from_slice(b"hello world\n");
    let content = finish_read(buf, 12, tailer.current_position);
    assert!(content.eof);
    let (chunk, next) = tailer.on_read_complete(content.data, content.eof);
    assert!(next.is_none());
    let chunk = chunk.unwrap();
    assert_eq!(chunk.offset, 0);
    assert_eq!(chunk.data, b"hello world\n".to_vec());

    // the chunk reaches the file's filter
    agent.handle_file_event(FileEvent::Updated { path: path.clone(), content: chunk });
    let st = agent.files.get(&path).unwrap();
    assert!(st.contains(&b"hello".to_vec()));
    assert!(st.contains(&b"world".to_vec()));
    assert!(!st.is_binary);

    // the file disappears: its tailer's mapping and its state go with it
    let ev = dw.handle_inotify_event(Event { mask: MASK_DELETE, cookie: 0, name: Some(b"a.txt".to_vec()) });
    let removed = match ev {
        Action::Notify(e) => e,
        other => panic!("unexpected action: {:?}", other),
    };
    match &removed {
        DirectoryEvent::Removed { path: p, is_dir } => {
            assert_eq!(p, &path);
            assert!(!is_dir);
        },
        other => panic!("unexpected event: {:?}", other),
    }
    agent.handle_file_event(FileEvent::Deleted { path: path.clone() });
    assert!(matches!(fsw.handle_dir_event(removed), FsAction::Pass));
    assert!(agent.files.get(&path).is_none());
}
