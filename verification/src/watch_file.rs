//! One tracked file with its subscribers: change signals fan out to every
//! subscriber, and each subscriber turns reads into UTF-8-clean text chunks.

use vstd::prelude::*;

use crate::bytes::clone_bytes;
use crate::error::{Error, ErrorKind};
use crate::utf8::{boundary_len, is_utf8, is_valid_utf8, trim_to_boundary};

verus! {

/// A change signal for one file.
#[derive(Debug, Clone, Copy, PartialEq, Eq, Structural)]
pub enum FileEvent {
    Updated,
}

/// A piece of a file's text: `offset` is the absolute position of the first
/// byte of `data`, and `data` is valid UTF-8.
#[derive(Debug)]
pub struct FileChunk {
    pub offset: u64,
    pub data: Vec<u8>,
}

/// One tracked file, fanning change signals out to its subscribers'
/// channels.
pub struct WatchedTextFile {
    /// The file's path.
    pub path: Vec<u8>,
    /// The forwarding channels, one per live subscriber.
    pub forwards: Vec<u64>,
    /// The next subscriber channel identifier.
    pub next_forward: u64,
}

impl WatchedTextFile {
    /// A tracked file with no subscribers yet.
    pub fn new(path: Vec<u8>) -> (r: Self)
        ensures
            r.path@ == path@,
            r.forwards@ == Seq::<u64>::empty(),
            r.next_forward == 0,
    {
        WatchedTextFile { path, forwards: Vec::new(), next_forward: 0 }
    }

    /// Adds a subscriber: a fresh channel joins the forwarding list and the
    /// subscriber starts at position zero, with its first content check
    /// already scheduled.
    pub fn subscribe(&mut self) -> (r: TextFileSubscriber)
        requires
            old(self).next_forward < u64::MAX,
        ensures
            final(self).path@ == old(self).path@,
            final(self).forwards@ == old(self).forwards@.push(old(self).next_forward),
            final(self).next_forward == old(self).next_forward + 1,
            r.wf(),
            r.path@ == old(self).path@,
            r.channel == old(self).next_forward,
            r.position == 0,
            r.check_pending,
            !r.is_updated,
            r.history@ == Seq::<(u64, int)>::empty(),
    {
        let ch = self.next_forward;
        self.next_forward = ch + 1;
        self.forwards.push(ch);
        TextFileSubscriber {
            path: clone_bytes(&self.path),
            channel: ch,
            position: 0,
            check_pending: true,
            is_updated: false,
            history: Ghost(Seq::empty()),
        }
    }

    /// Forwarding to the subscriber at index `i` failed: its channel leaves
    /// the list, the last entry taking its place.
    pub fn on_forward_send_failed(&mut self, i: usize)
        requires
            i < old(self).forwards@.len(),
        ensures
            final(self).path@ == old(self).path@,
            final(self).next_forward == old(self).next_forward,
            final(self).forwards@ == old(self).forwards@.update(
                i as int,
                old(self).forwards@.last(),
            ).drop_last(),
    {
        let _ = self.forwards.swap_remove(i);
    }
}

/// One subscriber's view of a tracked file: it follows the file from its own
/// position and yields chunks of validated text.
pub struct TextFileSubscriber {
    /// The file's path.
    pub path: Vec<u8>,
    /// The channel this subscriber receives signals on.
    pub channel: u64,
    /// The position from which the next read continues.
    pub position: u64,
    /// A content check is scheduled or running.
    pub check_pending: bool,
    /// A change signal arrived while no check was pending.
    pub is_updated: bool,
    /// Every chunk emitted so far, as (offset, length).
    pub history: Ghost<Seq<(u64, int)>>,
}

impl TextFileSubscriber {
    /// Chunks are non-empty, contiguous, start at zero, and end at the
    /// current position.
    pub open spec fn wf(self) -> bool {
        let h = self.history@;
        &&& forall|i: int| 0 <= i < h.len() ==> #[trigger] h[i].1 > 0
        &&& forall|i: int| 0 <= i && i + 1 < h.len() ==> #[trigger] h[i].0 + h[i].1 == h[i + 1].0
        &&& h.len() > 0 ==> h[0].0 == 0 && h.last().0 + h.last().1 == self.position
        &&& h.len() == 0 ==> self.position == 0
    }

    /// A change signal arrived on this subscriber's channel.
    pub fn on_update_signal(&mut self)
        ensures
            *final(self) == (TextFileSubscriber { is_updated: true, ..*old(self) }),
    {
        self.is_updated = true;
    }

    /// If a signal is pending and no check is under way, schedule one; the
    /// pending signal is consumed. The caller waits the minimum inter-read
    /// interval before performing it.
    pub fn begin_check_if_due(&mut self) -> (r: bool)
        ensures
            if !old(self).check_pending && old(self).is_updated {
                r && *final(self) == (TextFileSubscriber {
                    is_updated: false,
                    check_pending: true,
                    ..*old(self)
                })
            } else {
                !r && *final(self) == *old(self)
            },
    {
        if !self.check_pending && self.is_updated {
            self.is_updated = false;
            self.check_pending = true;
            true
        } else {
            false
        }
    }

    /// A scheduled check read `read_size` bytes at this subscriber's
    /// position. The tail is trimmed to a UTF-8 code-point boundary; what
    /// remains must be valid UTF-8 and becomes the next chunk, advancing the
    /// position. Bytes that are not text fail with `InvalidInput` and leave
    /// the subscriber where it was; an empty remainder yields no chunk.
    pub fn check_content(&mut self, buf: Vec<u8>, read_size: usize) -> (r: Result<
        Option<FileChunk>,
        Error,
    >)
        requires
            old(self).wf(),
            old(self).check_pending,
            read_size <= buf@.len(),
            old(self).position + read_size <= u64::MAX,
        ensures
            final(self).wf(),
            final(self).path@ == old(self).path@,
            final(self).channel == old(self).channel,
            final(self).is_updated == old(self).is_updated,
            ({
                let raw = buf@.take(read_size as int);
                let cut = raw.take(boundary_len(raw));
                if is_utf8(cut) {
                    &&& final(self).position == old(self).position + cut.len()
                    &&& !final(self).check_pending
                    &&& if cut.len() == 0 {
                        r == Ok::<Option<FileChunk>, Error>(None)
                            && final(self).history@ == old(self).history@
                    } else {
                        &&& r matches Ok(Some(c)) && c.offset == old(self).position && c.data@
                            == cut
                        &&& final(self).history@ == old(self).history@.push(
                            (old(self).position, cut.len() as int),
                        )
                    }
                } else {
                    &&& r matches Err(e) && e.kind == ErrorKind::InvalidInput
                    &&& *final(self) == *old(self)
                }
            }),
    {
        proof {
            crate::utf8::lemma_boundary_len_bounds(buf@.take(read_size as int));
        }
        let mut data = buf;
        data.truncate(read_size);
        trim_to_boundary(&mut data);
        if !is_valid_utf8(&data) {
            return Err(Error::new(ErrorKind::InvalidInput));
        }
        let len = data.len();
        let offset = self.position;
        self.position = offset + len as u64;
        self.check_pending = false;
        if len == 0 {
            Ok(None)
        } else {
            proof {
                self.history@ = self.history@.push((offset, len as int));
                let h = old(self).history@;
                let h2 = self.history@;
                assert forall|i: int| 0 <= i < h2.len() implies #[trigger] h2[i].1 > 0 by {
                    if i < h.len() {
                        assert(h2[i] == h[i]);
                    } else {
                        assert(h2[i] == (offset, len as int));
                    }
                }
                assert forall|i: int| 0 <= i && i + 1 < h2.len() implies #[trigger] h2[i].0
                    + h2[i].1 == h2[i + 1].0 by {
                    assert(h2[i] == h[i]);
                    if i + 1 < h.len() {
                        assert(h2[i + 1] == h[i + 1]);
                    } else {
                        assert(h2[i + 1] == (offset, len as int));
                        assert(h[i] == h.last());
                    }
                }
            }
            Ok(Some(FileChunk { offset, data }))
        }
    }
}

/// Chunk contiguity for a subscriber: of two consecutively emitted chunks,
/// the second starts exactly where the first ended.
pub proof fn lemma_text_chunks_contiguous(s: TextFileSubscriber, i: int)
    requires
        s.wf(),
        0 <= i,
        i + 1 < s.history@.len(),
    ensures
        s.history@[i].0 + s.history@[i].1 == s.history@[i + 1].0,
{
}

/// The kinds of tracked file; text is the only kind handled today.
pub enum WatchedFile {
    Text(WatchedTextFile),
}

impl WatchedFile {
    /// Tracks `path` as a text file.
    pub fn new(path: Vec<u8>) -> (r: Self)
        ensures
            r matches WatchedFile::Text(f) && f.path@ == path@ && f.forwards@ == Seq::<
                u64,
            >::empty() && f.next_forward == 0,
    {
        WatchedFile::Text(WatchedTextFile::new(path))
    }

    /// The tracked file's path.
    pub fn path(&self) -> (r: Vec<u8>)
        ensures
            self matches WatchedFile::Text(f) && r@ == f.path@,
    {
        match self {
            WatchedFile::Text(f) => clone_bytes(&f.path),
        }
    }

    /// Adds a subscriber to the tracked file.
    pub fn subscribe(&mut self) -> (r: FileSubscriber)
        requires
            *old(self) matches WatchedFile::Text(f) && f.next_forward < u64::MAX,
        ensures
            *old(self) matches WatchedFile::Text(f0) ==> (*final(self) matches WatchedFile::Text(f1)
                && r matches FileSubscriber::Text(s) && f1.path@ == f0.path@ && f1.forwards@
                == f0.forwards@.push(f0.next_forward) && f1.next_forward == f0.next_forward + 1
                && s.wf() && s.path@ == f0.path@ && s.channel == f0.next_forward && s.position == 0
                && s.check_pending && !s.is_updated),
    {
        match self {
            WatchedFile::Text(f) => FileSubscriber::Text(f.subscribe()),
        }
    }
}

/// A subscriber to one tracked file.
pub enum FileSubscriber {
    Text(TextFileSubscriber),
}

} // verus!
