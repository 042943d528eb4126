//! The recursive file-system watcher: from one root it discovers every
//! directory below, and owns the live set mapping each tracked file to its
//! tailer's signal channel.
//!
//! The live set is the single authority: a path already mapped to a live
//! tailer never produces a second tailer; duplicates collapse into a signal
//! on the existing channel.

use vstd::prelude::*;

use crate::bytes::clone_bytes;
use crate::directory::DirectoryEvent;
use crate::pathmap::PathMap;

verus! {

/// What the surrounding loop must do after one directory event.
#[derive(Debug)]
pub enum FsAction {
    /// Watch this directory too (recursive discovery).
    WatchDirectory(Vec<u8>),
    /// Deliver a file-updated signal on this existing channel.
    Signal(u64),
    /// Start a tailer for this path, listening on this fresh channel.
    NewFile(Vec<u8>, u64),
    /// Nothing to do.
    Pass,
}

/// The watcher's own state: the live set of tailed files.
pub struct FileSystemWatcher {
    /// Maps each tracked file's path to its tailer's signal channel.
    pub watching_files: PathMap<u64>,
    /// The next channel identifier to hand out.
    pub next_channel: u64,
}

impl FileSystemWatcher {
    /// Paths are unique in the live set, and channels are unique too: each
    /// one was handed out once, below the counter.
    pub open spec fn wf(self) -> bool {
        &&& self.watching_files.wf()
        &&& forall|p: Seq<u8>|
            self.watching_files@.dom().contains(p) ==> #[trigger] self.watching_files@[p]
                < self.next_channel
        &&& forall|p: Seq<u8>, q: Seq<u8>|
            self.watching_files@.dom().contains(p) && self.watching_files@.dom().contains(q) && p
                != q ==> #[trigger] self.watching_files@[p] != #[trigger] self.watching_files@[q]
    }

    /// A watcher with an empty live set.
    pub fn new() -> (r: Self)
        ensures
            r.wf(),
            r.watching_files@ == Map::<Seq<u8>, u64>::empty(),
            r.next_channel == 0,
    {
        FileSystemWatcher { watching_files: PathMap::new(), next_channel: 0 }
    }

    /// Digests one directory event. A new directory is watched recursively; a
    /// changed file is signalled on its existing channel, or given a fresh
    /// tailer if it has none; a removed file leaves the live set.
    pub fn handle_dir_event(&mut self, event: DirectoryEvent) -> (r: FsAction)
        requires
            old(self).wf(),
            old(self).next_channel < u64::MAX,
        ensures
            final(self).wf(),
            match event {
                DirectoryEvent::Updated { path, is_dir } => {
                    if is_dir {
                        &&& r matches FsAction::WatchDirectory(p) && p@ == path@
                        &&& *final(self) == *old(self)
                    } else if old(self).watching_files@.dom().contains(path@) {
                        &&& r == FsAction::Signal(old(self).watching_files@[path@])
                        &&& *final(self) == *old(self)
                    } else {
                        &&& r matches FsAction::NewFile(p, ch) && p@ == path@ && ch == old(
                            self,
                        ).next_channel
                        &&& final(self).watching_files@ == old(self).watching_files@.insert(
                            path@,
                            old(self).next_channel,
                        )
                        &&& final(self).next_channel == old(self).next_channel + 1
                    }
                },
                DirectoryEvent::Removed { path, is_dir } => {
                    &&& r is Pass
                    &&& if is_dir {
                        *final(self) == *old(self)
                    } else {
                        final(self).watching_files@ == old(self).watching_files@.remove(path@)
                            && final(self).next_channel == old(self).next_channel
                    }
                },
            },
    {
        match event {
            DirectoryEvent::Updated { path, is_dir: true } => FsAction::WatchDirectory(path),
            DirectoryEvent::Updated { path, is_dir: false } => {
                match self.watching_files.get(&path) {
                    Some(ch) => FsAction::Signal(*ch),
                    None => {
                        let ch = self.next_channel;
                        self.next_channel = ch + 1;
                        let p2 = clone_bytes(&path);
                        self.watching_files.insert(path, ch);
                        FsAction::NewFile(p2, ch)
                    },
                }
            },
            DirectoryEvent::Removed { path, is_dir: true } => FsAction::Pass,
            DirectoryEvent::Removed { path, is_dir: false } => {
                let _ = self.watching_files.take(&path);
                FsAction::Pass
            },
        }
    }

    /// A signal on `path`'s channel failed: its tailer is gone. The stale
    /// mapping is replaced by a fresh channel for a new tailer.
    pub fn on_signal_send_failed(&mut self, path: &Vec<u8>) -> (ch: u64)
        requires
            old(self).wf(),
            old(self).next_channel < u64::MAX,
        ensures
            final(self).wf(),
            ch == old(self).next_channel,
            final(self).watching_files@ == old(self).watching_files@.insert(path@, ch),
            final(self).next_channel == old(self).next_channel + 1,
    {
        let ch = self.next_channel;
        self.next_channel = ch + 1;
        self.watching_files.insert(clone_bytes(path), ch);
        ch
    }
}

/// One tailer per live path: the live set holds at most one entry for any
/// path, so a path maps to exactly one signal channel.
pub proof fn lemma_one_tailer_per_path(w: FileSystemWatcher, i: int, j: int)
    requires
        w.wf(),
        0 <= i < w.watching_files.entries_view().len(),
        0 <= j < w.watching_files.entries_view().len(),
        w.watching_files.entries_view()[i].0@ == w.watching_files.entries_view()[j].0@,
    ensures
        i == j,
{
}

} // verus!
