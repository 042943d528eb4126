//! Word extraction from a byte stream.
//!
//! A word is a maximal run of bytes that are ASCII alphanumeric or UTF-8 lead
//! bytes; once inside a word, only a byte below 0x80 that is not alphanumeric
//! ends it, so multi-byte characters stay whole. Each extracted word must be
//! valid UTF-8, otherwise the stream is declared binary.

use vstd::prelude::*;

use crate::error::{Error, ErrorKind};
use crate::utf8::{is_utf8, is_valid_utf8};

verus! {

/// An ASCII digit or letter.
pub open spec fn is_ascii_alnum(b: u8) -> bool {
    0x30 <= b <= 0x39 || 0x41 <= b <= 0x5A || 0x61 <= b <= 0x7A
}

/// A byte that can begin a word: ASCII alphanumeric, or a byte with its top
/// two bits set (a UTF-8 lead byte).
pub open spec fn is_word_start(b: u8) -> bool {
    is_ascii_alnum(b) || b >= 0xC0
}

/// A byte that ends a word: below 0x80 and not alphanumeric. Bytes at or
/// above 0x80 never end a word, so multi-byte sequences are carried through.
pub open spec fn is_word_end(b: u8) -> bool {
    b < 0x80 && !is_ascii_alnum(b)
}

/// Index of the first word-start byte at or after `i`, or the length of `s`.
pub open spec fn next_word_start(s: Seq<u8>, i: int) -> int
    decreases s.len() - i when 0 <= i <= s.len()
{
    if i >= s.len() {
        s.len() as int
    } else if is_word_start(s[i]) {
        i
    } else {
        next_word_start(s, i + 1)
    }
}

/// Index of the first word-end byte at or after `i`, or the length of `s`.
pub open spec fn word_stop(s: Seq<u8>, i: int) -> int
    decreases s.len() - i when 0 <= i <= s.len()
{
    if i >= s.len() {
        s.len() as int
    } else if is_word_end(s[i]) {
        i
    } else {
        word_stop(s, i + 1)
    }
}

pub proof fn lemma_next_word_start_bounds(s: Seq<u8>, i: int)
    requires
        0 <= i <= s.len(),
    ensures
        i <= next_word_start(s, i) <= s.len(),
    decreases s.len() - i,
{
    if i < s.len() && !is_word_start(s[i]) {
        lemma_next_word_start_bounds(s, i + 1);
    }
}

pub proof fn lemma_word_stop_bounds(s: Seq<u8>, i: int)
    requires
        0 <= i <= s.len(),
    ensures
        i <= word_stop(s, i) <= s.len(),
    decreases s.len() - i,
{
    if i < s.len() && !is_word_end(s[i]) {
        lemma_word_stop_bounds(s, i + 1);
    }
}

/// The scan for a word start stops exactly at the first qualifying byte.
pub proof fn lemma_next_word_start_char(s: Seq<u8>, i: int, m: int)
    requires
        0 <= i <= m <= s.len(),
        forall|j: int| i <= j < m ==> !is_word_start(#[trigger] s[j]),
        m == s.len() || is_word_start(s[m]),
    ensures
        next_word_start(s, i) == m,
    decreases m - i,
{
    if i < m {
        lemma_next_word_start_char(s, i + 1, m);
    }
}

/// The scan for a word end stops exactly at the first qualifying byte.
pub proof fn lemma_word_stop_char(s: Seq<u8>, i: int, m: int)
    requires
        0 <= i <= m <= s.len(),
        forall|j: int| i <= j < m ==> !is_word_end(#[trigger] s[j]),
        m == s.len() || is_word_end(s[m]),
    ensures
        word_stop(s, i) == m,
    decreases m - i,
{
    if i < m {
        lemma_word_stop_char(s, i + 1, m);
    }
}

#[via_fn]
proof fn words_from_dec(s: Seq<u8>, i: int) {
    lemma_next_word_start_bounds(s, i);
    let st = next_word_start(s, i);
    if st < s.len() {
        lemma_word_stop_bounds(s, st + 1);
    }
}

/// The words of `s` from index `i` on: each is the byte run from a word-start
/// byte to the next word-end byte (or the end of `s`).
pub open spec fn words_from(s: Seq<u8>, i: int) -> Seq<Seq<u8>>
    decreases s.len() - i when 0 <= i <= s.len()
    via words_from_dec
{
    let st = next_word_start(s, i);
    if st >= s.len() {
        Seq::empty()
    } else {
        let en = word_stop(s, st + 1);
        seq![s.subrange(st, en)] + words_from(s, en)
    }
}

/// All words of `s`.
pub open spec fn words(s: Seq<u8>) -> Seq<Seq<u8>> {
    words_from(s, 0)
}

#[via_fn]
proof fn last_end_from_dec(s: Seq<u8>, i: int, cur: int) {
    lemma_next_word_start_bounds(s, i);
    let st = next_word_start(s, i);
    if st < s.len() {
        lemma_word_stop_bounds(s, st + 1);
    }
}

/// The end index of the last word of `s` scanned from `i`, or `cur` if there
/// is none. Bytes from this index on form the carry: a possible final word
/// still open at the end of the buffer has its end at the length of `s` and
/// leaves no carry behind.
pub open spec fn last_end_from(s: Seq<u8>, i: int, cur: int) -> int
    decreases s.len() - i when 0 <= i <= s.len()
    via last_end_from_dec
{
    let st = next_word_start(s, i);
    if st >= s.len() {
        cur
    } else {
        let en = word_stop(s, st + 1);
        last_end_from(s, en, en)
    }
}

/// Where the carry buffer begins: just after the last word of `s`.
pub open spec fn carry_start(s: Seq<u8>) -> int {
    last_end_from(s, 0, 0)
}

/// Every word of `s` is valid UTF-8.
pub open spec fn all_words_utf8(s: Seq<u8>) -> bool {
    forall|k: int| 0 <= k < words(s).len() ==> is_utf8(#[trigger] words(s)[k])
}

/// Checks for an ASCII digit or letter.
fn ascii_alnum_byte(b: u8) -> (r: bool)
    ensures
        r == is_ascii_alnum(b),
{
    (0x30 <= b && b <= 0x39) || (0x41 <= b && b <= 0x5A) || (0x61 <= b && b <= 0x7A)
}

/// Splits a byte slice into words, one call per word.
pub struct WordTokenizer<'a> {
    /// The bytes being scanned.
    pub bytes: &'a [u8],
    /// The scan resumes at this index.
    pub position: usize,
}

impl<'a> WordTokenizer<'a> {
    /// A tokenizer over `bytes`, starting at the beginning.
    pub fn new(bytes: &'a [u8]) -> (r: Self)
        ensures
            r.bytes@ == bytes@,
            r.position == 0,
    {
        WordTokenizer { bytes, position: 0 }
    }

    /// The next word at or after the current position, with its start index,
    /// or `None` when no word remains. A word that is not valid UTF-8 comes
    /// back as an `InvalidInput` error; the scan still advances past it.
    pub fn next(&mut self) -> (r: Option<Result<(usize, Vec<u8>), Error>>)
        requires
            old(self).position <= old(self).bytes@.len(),
        ensures
            final(self).bytes@ == old(self).bytes@,
            ({
                let s = old(self).bytes@;
                let st = next_word_start(s, old(self).position as int);
                match r {
                    None => st == s.len() && final(self).position == s.len(),
                    Some(inner) => {
                        let en = word_stop(s, st + 1);
                        &&& st < s.len()
                        &&& final(self).position == en
                        &&& match inner {
                            Ok((start, w)) => start == st && w@ == s.subrange(st, en) && is_utf8(
                                w@,
                            ),
                            Err(e) => !is_utf8(s.subrange(st, en)) && e.kind
                                == ErrorKind::InvalidInput,
                        }
                    },
                }
            }),
    {
        let len: usize = self.bytes.len();
        let ghost s = self.bytes@;
        let ghost p0 = self.position as int;
        let mut i: usize = self.position;
        loop
            invariant
                p0 <= i <= len,
                len == s.len(),
                self.bytes@ == s,
                self.position == p0,
                forall|j: int| p0 <= j < i ==> !is_word_start(#[trigger] s[j]),
            ensures
                self.bytes@ == s,
                self.position == p0,
                i as int == next_word_start(s, p0),
                i <= len,
            decreases len - i,
        {
            if i == len {
                proof {
                    lemma_next_word_start_char(s, p0, i as int);
                }
                break ;
            }
            let b = self.bytes[i];
            if ascii_alnum_byte(b) || b >= 0xC0 {
                proof {
                    lemma_next_word_start_char(s, p0, i as int);
                }
                break ;
            }
            i = i + 1;
        }
        if i == len {
            self.position = len;
            return None;
        }
        let start: usize = i;
        let mut j: usize = start + 1;
        loop
            invariant
                start + 1 <= j <= len,
                len == s.len(),
                self.bytes@ == s,
                forall|k: int| start + 1 <= k < j ==> !is_word_end(#[trigger] s[k]),
            ensures
                self.bytes@ == s,
                j as int == word_stop(s, start + 1),
                start < j <= len,
            decreases len - j,
        {
            if j == len {
                proof {
                    lemma_word_stop_char(s, start + 1, j as int);
                }
                break ;
            }
            let b = self.bytes[j];
            if b < 0x80 && !ascii_alnum_byte(b) {
                proof {
                    lemma_word_stop_char(s, start + 1, j as int);
                }
                break ;
            }
            j = j + 1;
        }
        let mut w: Vec<u8> = Vec::new();
        let mut k: usize = start;
        while k < j
            invariant
                start <= k <= j <= len,
                len == s.len(),
                self.bytes@ == s,
                w@ == s.subrange(start as int, k as int),
            decreases j - k,
        {
            let b = self.bytes[k];
            w.push(b);
            k = k + 1;
            assert(w@ =~= s.subrange(start as int, k as int));
        }
        self.position = j;
        if is_valid_utf8(&w) {
            Some(Ok((start, w)))
        } else {
            Some(Err(Error::new(ErrorKind::InvalidInput)))
        }
    }
}

} // verus!
