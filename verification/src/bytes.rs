//! Small verified helpers on byte vectors, used for paths and buffers.

use vstd::prelude::*;

verus! {

/// Copies a byte vector.
pub fn clone_bytes(v: &Vec<u8>) -> (r: Vec<u8>)
    ensures
        r@ == v@,
{
    let r = v.clone();
    proof {
        assert(r@ =~= v@);
    }
    r
}

/// Compares two byte vectors for equality of contents.
pub fn bytes_eq(a: &Vec<u8>, b: &Vec<u8>) -> (r: bool)
    ensures
        r == (a@ == b@),
{
    let r = a == b;
    proof {
        if r {
            assert(a@ =~= b@);
        } else {
            if a@.len() == b@.len() {
                assert(exists|i: int| 0 <= i < a@.len() && a@[i] != b@[i]);
            }
        }
    }
    r
}

/// Appends `b` after `a`, joined with a single `/` byte.
pub fn join_path(a: &Vec<u8>, b: &Vec<u8>) -> (r: Vec<u8>)
    ensures
        r@ == a@ + seq![47u8] + b@,
{
    let mut r = clone_bytes(a);
    r.push(47u8);
    let mut i: usize = 0;
    while i < b.len()
        invariant
            i <= b@.len(),
            r@ == a@ + seq![47u8] + b@.take(i as int),
        decreases b@.len() - i,
    {
        r.push(b[i]);
        i = i + 1;
        assert(r@ =~= a@ + seq![47u8] + b@.take(i as int));
    }
    assert(r@ =~= a@ + seq![47u8] + b@);
    r
}

} // verus!
