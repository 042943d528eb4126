//! One directory as a stream of events: a snapshot listing first, then live
//! kernel events, until the directory itself goes away.

use vstd::prelude::*;

use crate::bytes::join_path;
use crate::inotify_service::{
    Event, MASK_CREATE, MASK_DELETE, MASK_DELETE_SELF, MASK_EXCL_UNLINK, MASK_IGNORED, MASK_ISDIR,
    MASK_MODIFY, MASK_MOVED_FROM, MASK_MOVED_TO, MASK_MOVE, MASK_MOVE_SELF,
};

verus! {

/// The bits a directory watcher subscribes to.
pub const DIR_WATCH_MASK: u32 = MASK_CREATE | MASK_DELETE | MASK_DELETE_SELF | MASK_MODIFY
    | MASK_MOVE | MASK_MOVE_SELF | MASK_EXCL_UNLINK;

/// One change under a watched directory. `path` is the directory joined with
/// the entry's name.
#[derive(Debug)]
pub enum DirectoryEvent {
    /// The entry appeared or changed (also every entry of the initial
    /// listing).
    Updated { path: Vec<u8>, is_dir: bool },
    /// The entry was deleted or moved away.
    Removed { path: Vec<u8>, is_dir: bool },
}

/// What the watcher stream does after one upstream event.
#[derive(Debug)]
pub enum Action {
    /// The stream ends: the directory itself is gone or invalidated.
    Terminate,
    /// Nothing to report; poll on.
    Continue,
    /// Hand this event downstream.
    Notify(DirectoryEvent),
}

/// What the notification subscription hands the directory watcher.
#[derive(Debug)]
pub enum WatcherEvent {
    /// A kernel event on the directory.
    Notified(Event),
    /// The watch is installed; the listing may begin.
    StartWatching,
    /// The watch was lost and restarted; entries may have been missed.
    RestartWatching,
}

/// How one kernel event on a directory is interpreted, as a relation between
/// the event and the action taken.
pub open spec fn inotify_action_spec(dir: Seq<u8>, event: Event, r: Action) -> bool {
    let m = event.mask;
    if m & (MASK_DELETE_SELF | MASK_MOVE_SELF | MASK_IGNORED) != 0 {
        r is Terminate
    } else if m & (MASK_CREATE | MASK_MODIFY | MASK_MOVED_TO) != 0 {
        &&& event.name matches Some(nm)
        &&& r matches Action::Notify(DirectoryEvent::Updated { path, is_dir }) && path@ == dir
            + seq![47u8] + nm@ && is_dir == (m & MASK_ISDIR != 0)
    } else if m & (MASK_DELETE | MASK_MOVED_FROM) != 0 {
        &&& event.name matches Some(nm)
        &&& r matches Action::Notify(DirectoryEvent::Removed { path, is_dir }) && path@ == dir
            + seq![47u8] + nm@ && is_dir == (m & MASK_ISDIR != 0)
    } else {
        r is Continue
    }
}

/// The event bits that carry an entry name when they fire.
pub open spec fn names_entry(m: u32) -> bool {
    m & (MASK_DELETE_SELF | MASK_MOVE_SELF | MASK_IGNORED) == 0 && (m & (MASK_CREATE | MASK_MODIFY
        | MASK_MOVED_TO) != 0 || m & (MASK_DELETE | MASK_MOVED_FROM) != 0)
}

/// The stream of one directory's events.
pub struct DirectoryWatcher {
    /// The watched directory.
    pub path: Vec<u8>,
    /// The initial listing has been started: set only once the watch is
    /// installed, so entries created in between are seen by the kernel.
    pub listing_started: bool,
}

impl DirectoryWatcher {
    /// A watcher for `path`. The caller must have checked that `path` is an
    /// existing directory; the listing waits for the watch to be installed.
    pub fn new(path: Vec<u8>) -> (r: Self)
        ensures
            r.path@ == path@,
            !r.listing_started,
    {
        DirectoryWatcher { path, listing_started: false }
    }

    /// Interprets one kernel event on this directory: self-removal ends the
    /// stream; create/modify/move-in and delete/move-out name an entry and
    /// become directory events; other bits are discarded.
    pub fn handle_inotify_event(&self, event: Event) -> (r: Action)
        requires
            names_entry(event.mask) ==> event.name is Some,
        ensures
            inotify_action_spec(self.path@, event, r),
    {
        let m = event.mask;
        if m & (MASK_DELETE_SELF | MASK_MOVE_SELF | MASK_IGNORED) != 0 {
            Action::Terminate
        } else if m & (MASK_CREATE | MASK_MODIFY | MASK_MOVED_TO) != 0 {
            let name = match event.name {
                Some(n) => n,
                None => vstd::pervasive::unreached(),
            };
            let path = join_path(&self.path, &name);
            Action::Notify(DirectoryEvent::Updated { path, is_dir: m & MASK_ISDIR != 0 })
        } else if m & (MASK_DELETE | MASK_MOVED_FROM) != 0 {
            let name = match event.name {
                Some(n) => n,
                None => vstd::pervasive::unreached(),
            };
            let path = join_path(&self.path, &name);
            Action::Notify(DirectoryEvent::Removed { path, is_dir: m & MASK_ISDIR != 0 })
        } else {
            Action::Continue
        }
    }

    /// Reacts to the subscription's lifecycle: once the watch is installed
    /// the listing starts (watch first, list second — entries created in the
    /// gap are reported by the kernel); a restarted watch terminates the
    /// stream rather than risk silently missed entries.
    pub fn on_watcher_event(&mut self, event: WatcherEvent) -> (r: Action)
        requires
            (match event {
                WatcherEvent::Notified(e) => names_entry(e.mask) ==> e.name is Some,
                _ => true,
            }),
        ensures
            final(self).path@ == old(self).path@,
            match event {
                WatcherEvent::Notified(e) => inotify_action_spec(old(self).path@, e, r)
                    && final(self).listing_started == old(self).listing_started,
                WatcherEvent::StartWatching => r is Continue && final(self).listing_started,
                WatcherEvent::RestartWatching => r is Terminate && final(self).listing_started
                    == old(self).listing_started,
            },
    {
        match event {
            WatcherEvent::Notified(e) => self.handle_inotify_event(e),
            WatcherEvent::StartWatching => {
                self.listing_started = true;
                Action::Continue
            },
            WatcherEvent::RestartWatching => Action::Terminate,
        }
    }

    /// One entry of the initial listing becomes an `Updated` event.
    pub fn on_listing_entry(&self, path: Vec<u8>, is_dir: bool) -> (r: DirectoryEvent)
        ensures
            r matches DirectoryEvent::Updated { path: p, is_dir: d } && p@ == path@ && d == is_dir,
    {
        DirectoryEvent::Updated { path, is_dir }
    }
}

} // verus!
