//! The indexing agent: one filter per file, fed with words from the chunk
//! stream.
//!
//! Word boundaries may straddle chunk boundaries, so unconsumed trailing
//! bytes are carried to the next round. A word that fails UTF-8 validation
//! latches the file as binary: its carry is discarded and later chunks are
//! dropped unprocessed.

use vstd::prelude::*;

use crate::bytes::clone_bytes;
use crate::pathmap::PathMap;
use crate::filter::{WordFilter, filter_contains, filter_insert, filter_items, filter_new};
use crate::tailer::FileContent;
use crate::tokenize::{
    WordTokenizer, all_words_utf8, carry_start, last_end_from, lemma_next_word_start_bounds,
    lemma_word_stop_bounds, next_word_start, word_stop, words, words_from,
};
use crate::utf8::is_utf8;

verus! {

/// The set of the first `k` entries of `ws`.
pub open spec fn word_set_prefix(ws: Seq<Seq<u8>>, k: int) -> Set<Seq<u8>>
    decreases k,
{
    if k <= 0 {
        Set::empty()
    } else {
        word_set_prefix(ws, k - 1).insert(ws[k - 1])
    }
}

/// The set of all words of `s`.
pub open spec fn word_set(s: Seq<u8>) -> Set<Seq<u8>> {
    word_set_prefix(words(s), words(s).len() as int)
}

pub proof fn lemma_word_set_prefix_contains(ws: Seq<Seq<u8>>, k: int, j: int)
    requires
        0 <= j < k,
    ensures
        word_set_prefix(ws, k).contains(ws[j]),
    decreases k,
{
    if j < k - 1 {
        lemma_word_set_prefix_contains(ws, k - 1, j);
    }
}

/// The per-file indexing state: the membership filter, the carry buffer, and
/// the binary latch.
pub struct FileState {
    /// The scalable cuckoo filter of words seen in this file.
    pub cuckoo_filter: WordFilter,
    /// Bytes after the last complete word, carried to the next chunk.
    pub buf: Vec<u8>,
    /// Latched once a word failed UTF-8 validation; disables further work.
    pub is_binary: bool,
}

/// What one `update_cuckoo_filter` call does: nothing on a binary file;
/// otherwise every word of carry-plus-chunk joins the filter and the new
/// carry starts after the last word — unless some word is not valid UTF-8,
/// which empties the carry and latches the binary flag, with exactly the
/// words before the first invalid one indexed.
pub open spec fn update_effect(pre: FileState, post: FileState, data: Seq<u8>) -> bool {
    if pre.is_binary {
        post == pre
    } else {
        let s = pre.buf@ + data;
        &&& filter_items(pre.cuckoo_filter).subset_of(filter_items(post.cuckoo_filter))
        &&& if all_words_utf8(s) {
            &&& !post.is_binary
            &&& post.buf@ == s.skip(carry_start(s))
            &&& filter_items(post.cuckoo_filter) == filter_items(pre.cuckoo_filter).union(
                word_set(s),
            )
        } else {
            &&& post.is_binary
            &&& post.buf@ == Seq::<u8>::empty()
            &&& exists|k: int|
                {
                    &&& 0 <= k < words(s).len()
                    &&& !is_utf8(words(s)[k])
                    &&& forall|j: int| 0 <= j < k ==> is_utf8(#[trigger] words(s)[j])
                    &&& filter_items(post.cuckoo_filter) == filter_items(
                        pre.cuckoo_filter,
                    ).union(#[trigger] word_set_prefix(words(s), k))
                }
        }
    }
}

impl FileState {
    /// A fresh state: an empty filter, an empty carry, not binary.
    pub fn new() -> (r: FileState)
        ensures
            filter_items(r.cuckoo_filter) == Set::<Seq<u8>>::empty(),
            r.buf@ == Seq::<u8>::empty(),
            !r.is_binary,
    {
        FileState { cuckoo_filter: filter_new(), buf: Vec::new(), is_binary: false }
    }

    /// Whether the filter reports `w` as present. An inserted word is always
    /// reported present; a never-inserted word may be, with small
    /// probability.
    pub fn contains(&self, w: &Vec<u8>) -> (r: bool)
        ensures
            filter_items(self.cuckoo_filter).contains(w@) ==> r,
    {
        filter_contains(&self.cuckoo_filter, w)
    }

    /// Feeds one chunk into the filter.
    pub fn update_cuckoo_filter(&mut self, content: FileContent)
        ensures
            update_effect(*old(self), *final(self), content.data@),
    {
        if self.is_binary {
            return ;
        }
        let mut d = content.data;
        let mut scan = clone_bytes(&self.buf);
        scan.append(&mut d);
        let ghost s = scan@;
        let ghost pre_items = filter_items(self.cuckoo_filter);
        let mut tok = WordTokenizer::new(scan.as_slice());
        let mut end: usize = 0;
        let mut failed: bool = false;
        let ghost mut k: int = 0;
        proof {
            assert(words_from(s, 0) =~= words(s).skip(0));
            assert(filter_items(self.cuckoo_filter) =~= pre_items.union(word_set_prefix(words(s), 0)));
        }
        loop
            invariant_except_break
                tok.bytes@ == s,
                tok.position <= s.len(),
                0 <= k <= words(s).len(),
                words_from(s, tok.position as int) == words(s).skip(k),
                forall|j: int| 0 <= j < k ==> is_utf8(#[trigger] words(s)[j]),
                last_end_from(s, 0, 0) == last_end_from(s, tok.position as int, end as int),
                end as int <= s.len(),
                filter_items(self.cuckoo_filter) == pre_items.union(word_set_prefix(words(s), k)),
                !failed,
                self.is_binary == false,
            ensures
                end as int <= s.len(),
                self.is_binary == false,
                if failed {
                    &&& !all_words_utf8(s)
                    &&& pre_items.subset_of(filter_items(self.cuckoo_filter))
                    &&& exists|kk: int|
                        {
                            &&& 0 <= kk < words(s).len()
                            &&& !is_utf8(words(s)[kk])
                            &&& forall|j: int| 0 <= j < kk ==> is_utf8(#[trigger] words(s)[j])
                            &&& filter_items(self.cuckoo_filter) == pre_items.union(
                                #[trigger] word_set_prefix(words(s), kk),
                            )
                        }
                } else {
                    &&& all_words_utf8(s)
                    &&& end as int == carry_start(s)
                    &&& filter_items(self.cuckoo_filter) == pre_items.union(word_set(s))
                },
            decreases s.len() - tok.position,
        {
            let ghost p0 = tok.position as int;
            let next = tok.next();
            match next {
                None => {
                    proof {
                        // No word remains: the scan is complete.
                        assert(words(s).skip(k).len() == words(s).len() - k);
                        assert(words_from(s, p0) == Seq::<Seq<u8>>::empty());
                        assert(k == words(s).len());
                        assert(last_end_from(s, p0, end as int) == end as int);
                        assert(word_set_prefix(words(s), k) =~= word_set(s));
                        assert(filter_items(self.cuckoo_filter) =~= pre_items.union(word_set(s)));
                    }
                    break ;
                },
                Some(step) => {
                    let ghost st = next_word_start(s, p0);
                    proof {
                        lemma_next_word_start_bounds(s, p0);
                        lemma_word_stop_bounds(s, st + 1);
                    }
                    let ghost en = word_stop(s, st + 1);
                    proof {
                        let ws = words(s);
                        assert(words_from(s, p0) == seq![s.subrange(st, en)] + words_from(s, en));
                        assert(ws.skip(k)[0] == ws[k]);
                        assert(ws[k] == s.subrange(st, en));
                        assert forall|j: int|
                            0 <= j < ws.len() - (k + 1) implies ws.skip(k + 1)[j] == words_from(
                            s,
                            en,
                        )[j] by {
                            assert(ws.skip(k + 1)[j] == ws[k + 1 + j]);
                            assert(ws.skip(k)[1 + j] == ws[k + 1 + j]);
                            assert((seq![s.subrange(st, en)] + words_from(s, en))[1 + j]
                                == words_from(s, en)[j]);
                        }
                        assert(ws.skip(k + 1) =~= words_from(s, en));
                        assert(last_end_from(s, p0, end as int) == last_end_from(s, en, en));
                    }
                    match step {
                        Ok((_start, w)) => {
                            proof {
                                assert(w@ == words(s)[k]);
                            }
                            filter_insert(&mut self.cuckoo_filter, &w);
                            proof {
                                assert(word_set_prefix(words(s), k + 1) == word_set_prefix(
                                    words(s),
                                    k,
                                ).insert(words(s)[k]));
                                assert(filter_items(self.cuckoo_filter) =~= pre_items.union(
                                    word_set_prefix(words(s), k + 1),
                                ));
                                k = k + 1;
                            }
                            end = tok.position;
                        },
                        Err(_e) => {
                            proof {
                                assert(!is_utf8(words(s)[k]));
                                assert(!all_words_utf8(s));
                                assert forall|x: Seq<u8>| pre_items.contains(x) implies
                                    filter_items(self.cuckoo_filter).contains(x) by {
                                    assert(pre_items.union(word_set_prefix(words(s), k)).contains(
                                        x,
                                    ));
                                }
                                // the filter holds exactly the words before this one
                                assert(0 <= k < words(s).len() && !is_utf8(words(s)[k]) && (
                                forall|j: int| 0 <= j < k ==> is_utf8(#[trigger] words(s)[j]))
                                    && filter_items(self.cuckoo_filter) == pre_items.union(
                                    word_set_prefix(words(s), k),
                                ));
                            }
                            failed = true;
                            break ;
                        },
                    }
                },
            }
        }
        if failed {
            self.is_binary = true;
            self.buf.clear();
        } else {
            let mut nb: Vec<u8> = Vec::new();
            let mut idx: usize = end;
            while idx < scan.len()
                invariant
                    end <= idx <= scan@.len(),
                    scan@ == s,
                    nb@ == s.subrange(end as int, idx as int),
                decreases scan@.len() - idx,
            {
                let b = scan[idx];
                nb.push(b);
                idx = idx + 1;
                assert(nb@ =~= s.subrange(end as int, idx as int));
            }
            assert(nb@ =~= s.skip(carry_start(s)));
            self.buf = nb;
        }
    }
}

/// What the agent is told about one file.
#[derive(Debug)]
pub enum FileEvent {
    /// A tailer produced a chunk for this path.
    Updated { path: Vec<u8>, content: FileContent },
    /// The tailer for this path ended.
    Deleted { path: Vec<u8> },
}

/// The indexing agent: one `FileState` per discovered file.
pub struct Agent {
    /// Per-path indexing state.
    pub files: PathMap<FileState>,
}

impl Agent {
    /// An agent tracking no files.
    pub fn new() -> (r: Self)
        ensures
            r.files.wf(),
            r.files@ == Map::<Seq<u8>, FileState>::empty(),
    {
        Agent { files: PathMap::new() }
    }

    /// A new file came out of the file-system watcher: give it a fresh state.
    pub fn register_file(&mut self, path: Vec<u8>)
        requires
            old(self).files.wf(),
        ensures
            final(self).files.wf(),
            final(self).files@.dom() == old(self).files@.dom().insert(path@),
            forall|q: Seq<u8>|
                q != path@ && old(self).files@.dom().contains(q) ==> #[trigger] (final(
                self).files@[q]) == old(self).files@[q],
            final(self).files@.contains_key(path@),
            filter_items(final(self).files@[path@].cuckoo_filter) == Set::<Seq<u8>>::empty(),
            final(self).files@[path@].buf@ == Seq::<u8>::empty(),
            !final(self).files@[path@].is_binary,
    {
        self.files.insert(path, FileState::new());
    }

    /// The tailer for `path` ended: its state is dropped; no further inserts
    /// can reach its filter.
    pub fn handle_file_deleted(&mut self, path: &Vec<u8>)
        requires
            old(self).files.wf(),
        ensures
            final(self).files.wf(),
            final(self).files@ == old(self).files@.remove(path@),
    {
        let _ = self.files.take(path);
    }

    /// A chunk arrived for `path`: feed it to that file's filter. A chunk for
    /// an unknown path is dropped.
    pub fn handle_file_updated(&mut self, path: &Vec<u8>, content: FileContent)
        requires
            old(self).files.wf(),
        ensures
            final(self).files.wf(),
            if old(self).files@.contains_key(path@) {
                &&& final(self).files@ == old(self).files@.insert(path@, final(self).files@[path@])
                &&& update_effect(old(self).files@[path@], final(self).files@[path@], content.data@)
            } else {
                final(self).files@ == old(self).files@
            },
    {
        match self.files.take(path) {
            Some(mut st) => {
                st.update_cuckoo_filter(content);
                self.files.insert(clone_bytes(path), st);
                proof {
                    assert(final(self).files@ =~= old(self).files@.insert(
                        path@,
                        final(self).files@[path@],
                    ));
                }
            },
            None => {},
        }
    }

    /// Dispatches one file event.
    pub fn handle_file_event(&mut self, event: FileEvent)
        requires
            old(self).files.wf(),
        ensures
            final(self).files.wf(),
            match event {
                FileEvent::Updated { path, content } => {
                    if old(self).files@.contains_key(path@) {
                        &&& final(self).files@ == old(self).files@.insert(
                            path@,
                            final(self).files@[path@],
                        )
                        &&& update_effect(
                            old(self).files@[path@],
                            final(self).files@[path@],
                            content.data@,
                        )
                    } else {
                        final(self).files@ == old(self).files@
                    }
                },
                FileEvent::Deleted { path } => final(self).files@ == old(self).files@.remove(
                    path@,
                ),
            },
    {
        match event {
            FileEvent::Updated { path, content } => self.handle_file_updated(&path, content),
            FileEvent::Deleted { path } => self.handle_file_deleted(&path),
        }
    }
}

/// Binary latch: once a file is binary, an update changes nothing — in
/// particular the filter stays as it was.
pub proof fn lemma_binary_latch(pre: FileState, post: FileState, data: Seq<u8>)
    requires
        update_effect(pre, post, data),
        pre.is_binary,
    ensures
        post == pre,
        filter_items(post.cuckoo_filter) == filter_items(pre.cuckoo_filter),
{
}

/// No false negatives: after an update that kept the file textual, every
/// word of carry-plus-chunk is in the filter's contents, so `contains`
/// reports it present.
pub proof fn lemma_no_false_negatives(pre: FileState, post: FileState, data: Seq<u8>, j: int)
    requires
        update_effect(pre, post, data),
        !pre.is_binary,
        !post.is_binary,
        0 <= j < words(pre.buf@ + data).len(),
    ensures
        filter_items(post.cuckoo_filter).contains(words(pre.buf@ + data)[j]),
{
    let s = pre.buf@ + data;
    lemma_word_set_prefix_contains(words(s), words(s).len() as int, j);
}

/// The filter only grows: anything present before an update is present
/// after it, whatever the update did.
pub proof fn lemma_filter_monotone(pre: FileState, post: FileState, data: Seq<u8>, w: Seq<u8>)
    requires
        update_effect(pre, post, data),
        filter_items(pre.cuckoo_filter).contains(w),
    ensures
        filter_items(post.cuckoo_filter).contains(w),
{
}

/// Words persist across later updates: a word indexed in one round is still
/// reported present after any following round.
pub proof fn lemma_words_persist(
    s0: FileState,
    s1: FileState,
    s2: FileState,
    d1: Seq<u8>,
    d2: Seq<u8>,
    j: int,
)
    requires
        update_effect(s0, s1, d1),
        update_effect(s1, s2, d2),
        !s0.is_binary,
        !s1.is_binary,
        0 <= j < words(s0.buf@ + d1).len(),
    ensures
        filter_items(s2.cuckoo_filter).contains(words(s0.buf@ + d1)[j]),
{
    lemma_no_false_negatives(s0, s1, d1, j);
    lemma_filter_monotone(s1, s2, d2, words(s0.buf@ + d1)[j]);
}

/// A whole life of one file's state: `states[i]` went to `states[i + 1]` by
/// an update with chunk `datas[i]`.
pub open spec fn update_chain(states: Seq<FileState>, datas: Seq<Seq<u8>>) -> bool {
    &&& states.len() == datas.len() + 1
    &&& forall|i: int|
        0 <= i < datas.len() ==> update_effect(#[trigger] states[i], states[i + 1], datas[i])
}

/// Whatever the filter holds at any point of a file's life, it still holds
/// at the end.
pub proof fn lemma_chain_monotone(states: Seq<FileState>, datas: Seq<Seq<u8>>, w: Seq<u8>, i: int)
    requires
        update_chain(states, datas),
        0 <= i < states.len(),
        filter_items(states[i].cuckoo_filter).contains(w),
    ensures
        filter_items(states.last().cuckoo_filter).contains(w),
    decreases states.len() - i,
{
    if i + 1 < states.len() {
        assert(update_effect(states[i], states[i + 1], datas[i]));
        lemma_chain_monotone(states, datas, w, i + 1);
    }
}

/// No false negatives across the full lifetime: every word tokenised in any
/// round the file was still textual is in the final filter's contents.
pub proof fn lemma_chain_no_false_negatives(
    states: Seq<FileState>,
    datas: Seq<Seq<u8>>,
    i: int,
    j: int,
)
    requires
        update_chain(states, datas),
        0 <= i < datas.len(),
        !states[i].is_binary,
        !states[i + 1].is_binary,
        0 <= j < words(states[i].buf@ + datas[i]).len(),
    ensures
        filter_items(states.last().cuckoo_filter).contains(words(states[i].buf@ + datas[i])[j]),
{
    assert(update_effect(states[i], states[i + 1], datas[i]));
    lemma_no_false_negatives(states[i], states[i + 1], datas[i], j);
    lemma_chain_monotone(states, datas, words(states[i].buf@ + datas[i])[j], i + 1);
}

} // verus!
