//! Byte-level UTF-8 reasoning: validity of a byte sequence, and trimming a
//! read buffer so that it ends on a code-point boundary.
//!
//! A tailer may catch a file in the middle of a multi-byte character. Before a
//! chunk is handed to textual consumers, its tail is cut back to the last
//! boundary; the dropped bytes stay in the file and are read again on the next
//! pass.

use vstd::prelude::*;

verus! {

/// A UTF-8 continuation byte: top two bits `10`.
pub open spec fn is_cont_byte(b: u8) -> bool {
    0x80 <= b < 0xC0
}

/// The length of the encoding led by `b`, or 0 if `b` can lead none.
pub open spec fn utf8_len(b: u8) -> int {
    if b < 0x80 {
        1
    } else if 0xC2 <= b <= 0xDF {
        2
    } else if 0xE0 <= b <= 0xEF {
        3
    } else if 0xF0 <= b <= 0xF4 {
        4
    } else {
        0
    }
}

/// `s` is exactly one valid encoding of a Unicode scalar value: the lead byte
/// announces the length, continuation bytes follow, and overlong forms,
/// surrogates and values above U+10FFFF are excluded by the bounds on the
/// second byte.
pub open spec fn is_char_encoding(s: Seq<u8>) -> bool {
    if s.len() == 1 {
        s[0] < 0x80
    } else if s.len() == 2 {
        0xC2 <= s[0] <= 0xDF && is_cont_byte(s[1])
    } else if s.len() == 3 {
        is_cont_byte(s[1]) && is_cont_byte(s[2]) && (s[0] == 0xE0 && 0xA0 <= s[1] || 0xE1 <= s[0]
            <= 0xEC || s[0] == 0xED && s[1] <= 0x9F || 0xEE <= s[0] <= 0xEF)
    } else if s.len() == 4 {
        is_cont_byte(s[1]) && is_cont_byte(s[2]) && is_cont_byte(s[3]) && (s[0] == 0xF0 && 0x90
            <= s[1] || 0xF1 <= s[0] <= 0xF3 || s[0] == 0xF4 && s[1] <= 0x8F)
    } else {
        false
    }
}

/// `s` is valid UTF-8: a concatenation of valid scalar-value encodings.
pub open spec fn is_utf8(s: Seq<u8>) -> bool
    decreases s.len(),
{
    s.len() == 0 || {
        let n = utf8_len(s[0]);
        1 <= n <= s.len() && is_char_encoding(s.subrange(0, n)) && is_utf8(s.skip(n))
    }
}

/// A valid encoding is as long as its lead byte announces.
pub proof fn lemma_char_encoding_len(s: Seq<u8>)
    requires
        is_char_encoding(s),
    ensures
        s.len() == utf8_len(s[0]),
        !is_cont_byte(s[0]),
        forall|i: int| 1 <= i < s.len() ==> is_cont_byte(#[trigger] s[i]),
{
}

/// Checks whether `bytes` is valid UTF-8.
pub fn is_valid_utf8(bytes: &Vec<u8>) -> (r: bool)
    ensures
        r == is_utf8(bytes@),
{
    let len: usize = bytes.len();
    let mut i: usize = 0;
    proof {
        assert(bytes@.skip(0) =~= bytes@);
    }
    while i < len
        invariant
            i <= len,
            len == bytes@.len(),
            is_utf8(bytes@) == is_utf8(bytes@.skip(i as int)),
        decreases len - i,
    {
        let ghost rest = bytes@.skip(i as int);
        assert(rest[0] == bytes@[i as int]);
        let b0 = bytes[i];
        let n: usize = if b0 < 0x80 {
            1
        } else if 0xC2 <= b0 && b0 <= 0xDF {
            2
        } else if 0xE0 <= b0 && b0 <= 0xEF {
            3
        } else if 0xF0 <= b0 && b0 <= 0xF4 {
            4
        } else {
            0
        };
        assert(n == utf8_len(rest[0]));
        if n == 0 || len - i < n {
            assert(!is_utf8(rest));
            return false;
        }
        let ghost c = rest.subrange(0, n as int);
        assert(c[0] == b0);
        let ok: bool = if n == 1 {
            true
        } else {
            let b1 = bytes[i + 1];
            assert(c[1] == b1);
            let second_ok: bool = if n == 2 {
                0x80 <= b1 && b1 < 0xC0
            } else if n == 3 {
                0x80 <= b1 && b1 < 0xC0 && !(b0 == 0xE0 && b1 < 0xA0) && !(b0 == 0xED && b1 > 0x9F)
            } else {
                0x80 <= b1 && b1 < 0xC0 && !(b0 == 0xF0 && b1 < 0x90) && !(b0 == 0xF4 && b1 > 0x8F)
            };
            let third_ok: bool = if n >= 3 {
                let b2 = bytes[i + 2];
                assert(c[2] == b2);
                0x80 <= b2 && b2 < 0xC0
            } else {
                true
            };
            let fourth_ok: bool = if n == 4 {
                let b3 = bytes[i + 3];
                assert(c[3] == b3);
                0x80 <= b3 && b3 < 0xC0
            } else {
                true
            };
            second_ok && third_ok && fourth_ok
        };
        assert(ok == is_char_encoding(c));
        if !ok {
            assert(!is_utf8(rest));
            return false;
        }
        proof {
            assert(rest.skip(n as int) =~= bytes@.skip(i + n));
        }
        i = i + n;
    }
    assert(bytes@.skip(len as int) =~= Seq::<u8>::empty());
    true
}

/// The number of trailing continuation bytes of `s`.
pub open spec fn cont_run(s: Seq<u8>) -> int
    decreases s.len(),
{
    if s.len() == 0 {
        0
    } else if is_cont_byte(s.last()) {
        1 + cont_run(s.drop_last())
    } else {
        0
    }
}

/// `cont_run` counts exactly the maximal run of trailing continuation bytes.
pub proof fn lemma_cont_run_props(s: Seq<u8>)
    ensures
        0 <= cont_run(s) <= s.len(),
        forall|j: int| s.len() - cont_run(s) <= j < s.len() ==> is_cont_byte(#[trigger] s[j]),
        cont_run(s) < s.len() ==> !is_cont_byte(s[s.len() - cont_run(s) - 1]),
    decreases s.len(),
{
    if s.len() > 0 && is_cont_byte(s.last()) {
        lemma_cont_run_props(s.drop_last());
        assert(forall|j: int|
            s.len() - cont_run(s) <= j < s.len() ==> is_cont_byte(#[trigger] s[j])) by {
            assert(forall|j: int|
                0 <= j < s.len() - 1 ==> s.drop_last()[j] == #[trigger] s[j]);
        }
    }
}

/// Any count with the run's characterisation is `cont_run`.
pub proof fn lemma_cont_run_unique(s: Seq<u8>, c: int)
    requires
        0 <= c <= s.len(),
        forall|j: int| s.len() - c <= j < s.len() ==> is_cont_byte(#[trigger] s[j]),
        c == s.len() || !is_cont_byte(s[s.len() - c - 1]),
    ensures
        c == cont_run(s),
{
    lemma_cont_run_props(s);
    let c0 = cont_run(s);
    if c < c0 {
        assert(is_cont_byte(s[s.len() - c - 1]));
    } else if c > c0 {
        assert(is_cont_byte(s[s.len() - c0 - 1]));
    }
}

/// Where a read buffer is cut so that it ends on a code-point boundary.
/// Walking back from the tail: continuation bytes are passed over; a byte
/// below 0x80 ends the walk and is kept; a lead byte whose full complement of
/// continuation bytes is present is kept together with them; an incomplete or
/// invalid lead is dropped along with the bytes after it.
pub open spec fn boundary_len(s: Seq<u8>) -> int {
    let c = cont_run(s);
    if c == s.len() {
        0
    } else {
        let b = s[s.len() - c - 1];
        if b < 0x80 {
            s.len() - c
        } else if c >= utf8_len(b) - 1 {
            s.len() - c - 1 + utf8_len(b)
        } else {
            s.len() - c - 1
        }
    }
}

/// The cut never reaches past the end of the buffer.
pub proof fn lemma_boundary_len_bounds(s: Seq<u8>)
    ensures
        0 <= boundary_len(s) <= s.len(),
{
    lemma_cont_run_props(s);
}

/// Truncates `data` so that it ends on a UTF-8 code-point boundary. The
/// dropped suffix is at most one incomplete encoding plus stray continuation
/// bytes.
pub fn trim_to_boundary(data: &mut Vec<u8>)
    ensures
        final(data)@ == old(data)@.take(boundary_len(old(data)@)),
{
    let len: usize = data.len();
    let mut c: usize = 0;
    loop
        invariant
            c <= len,
            len == data@.len(),
            data@ == old(data)@,
            forall|j: int| len - c <= j < len ==> is_cont_byte(#[trigger] data@[j]),
        ensures
            c <= len,
            len == data@.len(),
            data@ == old(data)@,
            forall|j: int| len - c <= j < len ==> is_cont_byte(#[trigger] data@[j]),
            c == len || !is_cont_byte(data@[len - c - 1]),
        decreases len - c,
    {
        if c == len {
            break ;
        }
        let b = data[len - 1 - c];
        if !(0x80 <= b && b < 0xC0) {
            break ;
        }
        c = c + 1;
    }
    proof {
        lemma_cont_run_unique(data@, c as int);
    }
    if c == len {
        data.truncate(0);
        assert(data@ =~= old(data)@.take(0));
        return ;
    }
    let b = data[len - 1 - c];
    let target: usize = if b < 0x80 {
        len - c
    } else {
        let n: usize = if 0xC2 <= b && b <= 0xDF {
            2
        } else if 0xE0 <= b && b <= 0xEF {
            3
        } else if 0xF0 <= b && b <= 0xF4 {
            4
        } else {
            0
        };
        assert(n == utf8_len(data@[len - 1 - c]));
        if n >= 1 && c >= n - 1 {
            len - c - 1 + n
        } else {
            len - c - 1
        }
    };
    assert(target == boundary_len(data@));
    proof {
        lemma_boundary_len_bounds(data@);
    }
    data.truncate(target);
    assert(data@ =~= old(data)@.take(boundary_len(old(data)@)));
}

/// A strict prefix of one multi-byte encoding: nothing at all, or a lead byte
/// followed by too few continuation bytes.
pub open spec fn is_partial_encoding(p: Seq<u8>) -> bool {
    p.len() == 0 || {
        1 <= p.len() < utf8_len(p[0]) && forall|i: int|
            1 <= i < p.len() ==> is_cont_byte(#[trigger] p[i])
    }
}

/// How the trailing run composes across a concatenation.
proof fn lemma_cont_run_append(a: Seq<u8>, t: Seq<u8>)
    ensures
        cont_run(t) < t.len() ==> cont_run(a + t) == cont_run(t),
        cont_run(t) == t.len() ==> cont_run(a + t) == t.len() + cont_run(a),
    decreases t.len(),
{
    lemma_cont_run_props(t);
    if t.len() == 0 {
        assert(a + t =~= a);
    } else {
        assert((a + t).last() == t.last());
        assert((a + t).drop_last() =~= a + t.drop_last());
        lemma_cont_run_append(a, t.drop_last());
        lemma_cont_run_props(t.drop_last());
    }
}

/// Appending anything after one complete encoding shifts the cut by its
/// length: the walk never eats into a complete character.
proof fn lemma_char_boundary(a: Seq<u8>, t: Seq<u8>)
    requires
        is_char_encoding(a),
    ensures
        boundary_len(a + t) == a.len() + boundary_len(t),
{
    lemma_char_encoding_len(a);
    lemma_cont_run_props(t);
    lemma_cont_run_props(a + t);
    lemma_cont_run_append(a, t);
    let u = a + t;
    let n = a.len() as int;
    if cont_run(t) < t.len() {
        let c = cont_run(t);
        assert(u[u.len() - c - 1] == t[t.len() - c - 1]);
    } else {
        // t is all continuation bytes; the walk continues into a.
        lemma_cont_run_unique(a, n - 1);
        let c = cont_run(u);
        assert(c == t.len() + n - 1);
        assert(u[u.len() - c - 1] == a[0]);
        if n == 1 {
            assert(a[0] < 0x80);
        } else {
            assert(utf8_len(a[0]) == n);
            assert(c >= n - 1);
            assert(boundary_len(u) == u.len() - c - 1 + n == n);
        }
    }
}

/// A lone partial encoding is dropped entirely.
proof fn lemma_partial_boundary(p: Seq<u8>)
    requires
        is_partial_encoding(p),
    ensures
        boundary_len(p) == 0,
{
    if p.len() > 0 {
        assert(utf8_len(p[0]) >= 2);
        assert(!is_cont_byte(p[0]));
        lemma_cont_run_unique(p, p.len() - 1);
    }
}

/// The boundary-safety law: a buffer made of valid UTF-8 followed by at most
/// one incomplete encoding is cut exactly at the end of the valid part, so
/// the trimmed chunk is itself valid UTF-8.
pub proof fn lemma_boundary_of_valid_with_partial(s: Seq<u8>, p: Seq<u8>)
    requires
        is_utf8(s),
        is_partial_encoding(p),
    ensures
        boundary_len(s + p) == s.len(),
        is_utf8((s + p).take(boundary_len(s + p))),
    decreases s.len(),
{
    if s.len() == 0 {
        assert(s + p =~= p);
        lemma_partial_boundary(p);
        assert((s + p).take(0) =~= Seq::<u8>::empty());
    } else {
        let n = utf8_len(s[0]);
        let a = s.subrange(0, n);
        let rest = s.skip(n);
        lemma_boundary_of_valid_with_partial(rest, p);
        assert(a + (rest + p) =~= s + p);
        lemma_char_boundary(a, rest + p);
        assert((s + p).take(s.len() as int) =~= s);
    }
}

/// Valid UTF-8 already ends on a boundary: nothing is trimmed.
pub proof fn lemma_boundary_of_valid(s: Seq<u8>)
    requires
        is_utf8(s),
    ensures
        boundary_len(s) == s.len(),
{
    lemma_boundary_of_valid_with_partial(s, Seq::<u8>::empty());
    assert(s + Seq::<u8>::empty() =~= s);
}

} // verus!
