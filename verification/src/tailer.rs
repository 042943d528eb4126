//! The per-file tailer: turns "file updated" signals into a strictly ordered,
//! contiguous stream of content chunks.
//!
//! The tailer owns only decisions and positions; the actual open/seek/read
//! runs outside the event loop and hands its bytes back in. Each completed
//! read is trimmed to a UTF-8 code-point boundary, the position advances by
//! the trimmed length, and the dropped bytes are read again on the next pass.

use vstd::prelude::*;

use crate::utf8::{boundary_len, trim_to_boundary};

verus! {

/// Seconds that must pass between two signal-triggered reads of one file.
pub const MIN_READ_CONTENT_INTERVAL: u64 = 60;

/// Bytes read at most in one pass.
pub const READ_BUFFER_SIZE: usize = 1024 * 1024;

/// Signal that a watched file has changed.
#[derive(Debug, Clone, Copy, PartialEq, Eq, Structural)]
pub struct FileUpdated;

/// Bytes read from one position of a file. `offset` is the absolute position
/// of the first byte of `data`; `eof` says the read drained the file.
#[derive(Debug)]
pub struct FileContent {
    pub offset: u64,
    pub data: Vec<u8>,
    pub eof: bool,
}

/// How long to wait before a scheduled read runs.
#[derive(Debug, Clone, Copy, PartialEq, Eq, Structural)]
pub enum ReadDelay {
    /// Run at once: the initial read, and draining a backlog after a
    /// non-`eof` read.
    Immediate,
    /// Wait the minimum inter-read interval: a signal-triggered re-read.
    MinInterval,
}

/// Turns a finished raw read into a chunk: the buffer is cut to the read
/// length, `eof` records whether the read filled the buffer, and the tail is
/// trimmed back to a UTF-8 code-point boundary.
pub fn finish_read(buf: Vec<u8>, read_size: usize, offset: u64) -> (c: FileContent)
    requires
        read_size <= buf@.len(),
    ensures
        c.offset == offset,
        c.data@ == buf@.take(read_size as int).take(boundary_len(buf@.take(read_size as int))),
        c.eof == (read_size < buf@.len()),
{
    let eof = read_size < buf.len();
    let mut data = buf;
    data.truncate(read_size);
    trim_to_boundary(&mut data);
    FileContent { offset, data, eof }
}

/// The tailer of one plain file.
pub struct PlainFileWatcher {
    /// The file's path.
    pub path: Vec<u8>,
    /// The position from which the next read continues.
    pub current_position: u64,
    /// A change signal arrived while no read was pending.
    pub is_updated: bool,
    /// A read is scheduled or running.
    pub reading: bool,
    /// Every chunk emitted so far, as (offset, length).
    pub history: Ghost<Seq<(u64, int)>>,
}

impl PlainFileWatcher {
    /// Chunks are non-empty, contiguous, start at zero, and end at the
    /// current position.
    pub open spec fn wf(self) -> bool {
        let h = self.history@;
        &&& forall|i: int| 0 <= i < h.len() ==> #[trigger] h[i].1 > 0
        &&& forall|i: int| 0 <= i && i + 1 < h.len() ==> #[trigger] h[i].0 + h[i].1 == h[i + 1].0
        &&& h.len() > 0 ==> h[0].0 == 0 && h.last().0 + h.last().1 == self.current_position
        &&& h.len() == 0 ==> self.current_position == 0
    }

    /// A fresh tailer: positioned at the start, with its initial read already
    /// scheduled (to seed from content existing at discovery time).
    pub fn new(path: Vec<u8>) -> (r: Self)
        ensures
            r.wf(),
            r.path@ == path@,
            r.current_position == 0,
            !r.is_updated,
            r.reading,
            r.history@ == Seq::<(u64, int)>::empty(),
    {
        PlainFileWatcher {
            path,
            current_position: 0,
            is_updated: false,
            reading: true,
            history: Ghost(Seq::empty()),
        }
    }

    /// The path of the tailed file.
    pub fn path(&self) -> (r: &Vec<u8>)
        ensures
            r@ == self.path@,
    {
        &self.path
    }

    /// A change signal arrived on the tailer's channel.
    pub fn on_update_signal(&mut self)
        ensures
            *final(self) == (PlainFileWatcher { is_updated: true, ..*old(self) }),
    {
        self.is_updated = true;
    }

    /// If a signal is pending and no read is under way, schedule one after
    /// the minimum interval; the pending signal is consumed.
    pub fn begin_read_if_due(&mut self) -> (r: Option<ReadDelay>)
        ensures
            if !old(self).reading && old(self).is_updated {
                r == Some(ReadDelay::MinInterval) && *final(self) == (PlainFileWatcher {
                    is_updated: false,
                    reading: true,
                    ..*old(self)
                })
            } else {
                r == None::<ReadDelay> && *final(self) == *old(self)
            },
    {
        if !self.reading && self.is_updated {
            self.is_updated = false;
            self.reading = true;
            Some(ReadDelay::MinInterval)
        } else {
            None
        }
    }

    /// A scheduled read finished with the already trimmed `data`. The
    /// position advances by its length; a non-empty chunk is emitted; after a
    /// partial read the backlog is drained by an immediate follow-up read,
    /// after `eof` the tailer waits for the next signal.
    pub fn on_read_complete(&mut self, data: Vec<u8>, eof: bool) -> (r: (
        Option<FileContent>,
        Option<ReadDelay>,
    ))
        requires
            old(self).wf(),
            old(self).reading,
            old(self).current_position + data@.len() <= u64::MAX,
        ensures
            final(self).wf(),
            final(self).path@ == old(self).path@,
            final(self).current_position == old(self).current_position + data@.len(),
            final(self).reading == !eof,
            eof ==> final(self).is_updated == old(self).is_updated,
            !eof ==> !final(self).is_updated,
            r.1 == if eof {
                None::<ReadDelay>
            } else {
                Some(ReadDelay::Immediate)
            },
            data@.len() == 0 ==> r.0 == None::<FileContent> && final(self).history@ == old(
                self,
            ).history@,
            data@.len() > 0 ==> (match r.0 {
                Some(c) => c.offset == old(self).current_position && c.data@ == data@ && c.eof
                    == eof && final(self).history@ == old(self).history@.push(
                    (c.offset, c.data@.len() as int),
                ),
                None => false,
            }),
    {
        let len = data.len();
        let offset = self.current_position;
        self.current_position = offset + len as u64;
        let next = if !eof {
            self.is_updated = false;
            self.reading = true;
            Some(ReadDelay::Immediate)
        } else {
            self.reading = false;
            None
        };
        if len > 0 {
            proof {
                self.history@ = self.history@.push((offset, len as int));
                let h = old(self).history@;
                let h2 = self.history@;
                assert forall|i: int| 0 <= i < h2.len() implies #[trigger] h2[i].1 > 0 by {
                    if i < h.len() {
                        assert(h2[i] == h[i]);
                    } else {
                        assert(h2[i] == (offset, len as int));
                    }
                }
                assert forall|i: int| 0 <= i && i + 1 < h2.len() implies #[trigger] h2[i].0 + h2[i].1
                    == h2[i + 1].0 by {
                    assert(h2[i] == h[i]);
                    if i + 1 < h.len() {
                        assert(h2[i + 1] == h[i + 1]);
                    } else {
                        assert(h2[i + 1] == (offset, len as int));
                        assert(h[i] == h.last());
                    }
                }
            }
            let content = FileContent { offset, data, eof };
            (Some(content), next)
        } else {
            (None, next)
        }
    }

    /// The inbound channel closed: the stream is over. Nothing changes; the
    /// caller drops the tailer.
    pub fn on_channel_closed(&self) -> (r: bool)
        ensures
            r,
    {
        true
    }
}

/// Chunk contiguity: of two consecutively emitted chunks, the second starts
/// exactly where the first ended.
pub proof fn lemma_chunks_contiguous(w: PlainFileWatcher, i: int)
    requires
        w.wf(),
        0 <= i,
        i + 1 < w.history@.len(),
    ensures
        w.history@[i].0 + w.history@[i].1 == w.history@[i + 1].0,
{
}

/// The kinds of file a watcher may follow; only plain files are handled
/// today, the other arms leave room for archive formats.
pub enum FileWatcher {
    Plain(PlainFileWatcher),
    Gzip,
    TarGzip,
}

impl FileWatcher {
    /// A watcher for a plain file.
    pub fn new(path: Vec<u8>) -> (r: Self)
        ensures
            r matches FileWatcher::Plain(w) && w.wf() && w.path@ == path@ && w.current_position
                == 0 && !w.is_updated && w.reading && w.history@ == Seq::<(u64, int)>::empty(),
    {
        FileWatcher::Plain(PlainFileWatcher::new(path))
    }

    /// The path of the watched file.
    pub fn path(&self) -> (r: &Vec<u8>)
        requires
            self matches FileWatcher::Plain(_),
        ensures
            self matches FileWatcher::Plain(w) && r@ == w.path@,
    {
        match self {
            FileWatcher::Plain(w) => w.path(),
            _ => vstd::pervasive::unreached(),
        }
    }
}

} // verus!
