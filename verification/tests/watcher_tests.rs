use dg::directory::{Action, DirectoryEvent, DirectoryWatcher, WatcherEvent};
use dg::fs_watcher::{FileSystemWatcher, FsAction};
use dg::inotify_service::{
    Event, MASK_CREATE, MASK_DELETE, MASK_DELETE_SELF, MASK_ISDIR, MASK_MODIFY,
};

fn ev(mask: u32, name: Option<&[u8]>) -> Event {
    Event { mask, cookie: 0, name: name.map(|n| n.to_vec()) }
}

#[test]
fn create_becomes_updated() {
    let w = DirectoryWatcher::new(b"root".to_vec());
    match w.handle_inotify_event(ev(MASK_CREATE, Some(b"a.txt"))) {
        Action::Notify(DirectoryEvent::Updated { path, is_dir }) => {
            assert_eq!(path, b"root/a.txt".to_vec());
            assert!(!is_dir);
        },
        other => panic!("unexpected action: {:?}", other),
    }
}

#[test]
fn create_dir_carries_isdir() {
    let w = DirectoryWatcher::new(b"root".to_vec());
    match w.handle_inotify_event(ev(MASK_CREATE | MASK_ISDIR, Some(b"sub"))) {
        Action::Notify(DirectoryEvent::Updated { path, is_dir }) => {
            assert_eq!(path, b"root/sub".to_vec());
            assert!(is_dir);
        },
        other => panic!("unexpected action: {:?}", other),
    }
}

#[test]
fn delete_becomes_removed() {
    let w = DirectoryWatcher::new(b"root".to_vec());
    match w.handle_inotify_event(ev(MASK_DELETE, Some(b"a.txt"))) {
        Action::Notify(DirectoryEvent::Removed { path, is_dir }) => {
            assert_eq!(path, b"root/a.txt".to_vec());
            assert!(!is_dir);
        },
        other => panic!("unexpected action: {:?}", other),
    }
}

#[test]
fn self_deletion_terminates() {
    let w = DirectoryWatcher::new(b"root".to_vec());
    assert!(matches!(
        w.handle_inotify_event(ev(MASK_DELETE_SELF, None)),
        Action::Terminate
    ));
}

#[test]
fn unknown_bits_are_discarded() {
    let w = DirectoryWatcher::new(b"root".to_vec());
    // IN_ATTRIB is not part of the subscription's interests
    assert!(matches!(w.handle_inotify_event(ev(0x4, None)), Action::Continue));
}

#[test]
fn listing_starts_only_after_the_watch() {
    let mut w = DirectoryWatcher::new(b"root".to_vec());
    assert!(!w.listing_started);
    assert!(matches!(w.on_watcher_event(WatcherEvent::StartWatching), Action::Continue));
    assert!(w.listing_started);
    assert!(matches!(w.on_watcher_event(WatcherEvent::RestartWatching), Action::Terminate));
    let e = DirectoryWatcher::new(b"root".to_vec())
        .on_listing_entry(b"root/seed.txt".to_vec(), false);
    match e {
        DirectoryEvent::Updated { path, is_dir } => {
            assert_eq!(path, b"root/seed.txt".to_vec());
            assert!(!is_dir);
        },
        other => panic!("unexpected event: {:?}", other),
    }
}

#[test]
fn new_file_gets_one_tailer() {
    let mut w = FileSystemWatcher::new();
    let e = DirectoryEvent::Updated { path: b"root/b.txt".to_vec(), is_dir: false };
    match w.handle_dir_event(e) {
        FsAction::NewFile(path, ch) => {
            assert_eq!(path, b"root/b.txt".to_vec());
            assert_eq!(ch, 0);
        },
        other => panic!("unexpected action: {:?}", other),
    }
    // a second update on the same path signals the existing tailer
    let e = DirectoryEvent::Updated { path: b"root/b.txt".to_vec(), is_dir: false };
    match w.handle_dir_event(e) {
        FsAction::Signal(ch) => assert_eq!(ch, 0),
        other => panic!("unexpected action: {:?}", other),
    }
}

#[test]
fn subdirectory_appearance() {
    let mut w = FileSystemWatcher::new();
    let e = DirectoryEvent::Updated { path: b"root/sub".to_vec(), is_dir: true };
    match w.handle_dir_event(e) {
        FsAction::WatchDirectory(path) => assert_eq!(path, b"root/sub".to_vec()),
        other => panic!("unexpected action: {:?}", other),
    }
    // the new directory's own watcher then reports the file
    let dw = DirectoryWatcher::new(b"root/sub".to_vec());
    let a = dw.handle_inotify_event(ev(MASK_CREATE, Some(b"c.txt")));
    let path = match a {
        Action::Notify(DirectoryEvent::Updated { path, is_dir: false }) => path,
        other => panic!("unexpected action: {:?}", other),
    };
    match w.handle_dir_event(DirectoryEvent::Updated { path, is_dir: false }) {
        FsAction::NewFile(path, _) => assert_eq!(path, b"root/sub/c.txt".to_vec()),
        other => panic!("unexpected action: {:?}", other),
    }
}

#[test]
fn removed_file_leaves_the_live_set() {
    let mut w = FileSystemWatcher::new();
    let path = b"root/d.txt".to_vec();
    w.handle_dir_event(DirectoryEvent::Updated { path: path.clone(), is_dir: false });
    assert!(matches!(
        w.handle_dir_event(DirectoryEvent::Removed { path: path.clone(), is_dir: false }),
        FsAction::Pass
    ));
    // the path is gone: a new update creates a fresh tailer on a new channel
    match w.handle_dir_event(DirectoryEvent::Updated { path, is_dir: false }) {
        FsAction::NewFile(_, ch) => assert_eq!(ch, 1),
        other => panic!("unexpected action: {:?}", other),
    }
}

#[test]
fn dead_tailer_is_replaced() {
    let mut w = FileSystemWatcher::new();
    let path = b"root/e.txt".to_vec();
    w.handle_dir_event(DirectoryEvent::Updated { path: path.clone(), is_dir: false });
    let ch = w.on_signal_send_failed(&path);
    assert_eq!(ch, 1);
    match w.handle_dir_event(DirectoryEvent::Updated { path, is_dir: false }) {
        FsAction::Signal(c) => assert_eq!(c, ch),
        other => panic!("unexpected action: {:?}", other),
    }
}

#[test]
fn removed_directory_is_passed_over() {
    let mut w = FileSystemWatcher::new();
    assert!(matches!(
        w.handle_dir_event(DirectoryEvent::Removed { path: b"root/sub".to_vec(), is_dir: true }),
        FsAction::Pass
    ));
}
