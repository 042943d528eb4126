//! A recursive file-system tailing agent, verified.
//!
//! From a root directory the agent discovers every file beneath it, follows
//! each file's contents from the last observed byte, and feeds newly appended
//! bytes into a per-file probabilistic word index. The pipeline is
//! event-driven: the notification service fans kernel events out to directory
//! watchers, the file-system watcher keeps the live set of tailed files, each
//! tailer turns change signals into ordered, contiguous, UTF-8-boundary-safe
//! chunks, and the agent tokenises them into a scalable cuckoo filter.
//!
//! This crate holds the decisions and the data: positions, live sets, masks,
//! carry buffers and filters, each with its contract. The surrounding I/O —
//! the kernel watch calls, the file reads, the channels and timers — lives
//! outside and hands plain values in and out.

use vstd::prelude::*;

pub mod agent;
pub mod bytes;
pub mod directory;
pub mod error;
pub mod filter;
pub mod fs_watcher;
pub mod inotify_service;
pub mod pathmap;
pub mod tailer;
pub mod tokenize;
pub mod utf8;
pub mod watch_file;

verus! {

} // verus!
