//! The per-file membership index: a scalable cuckoo filter over words.
//!
//! The filter itself is an outside data structure; this module declares it,
//! gives its abstract contents a name, and wraps the three calls the agent
//! makes. The one property relied on downstream is the absence of false
//! negatives: an inserted word is always reported present.

use vstd::prelude::*;

use rand::SeedableRng;
use rand::rngs::StdRng;
use scalable_cuckoo_filter::{DefaultHasher, ScalableCuckooFilter, ScalableCuckooFilterBuilder};

verus! {

#[verifier::external_type_specification]
#[verifier::external_body]
#[verifier::reject_recursive_types(T)]
#[verifier::reject_recursive_types(H)]
#[verifier::reject_recursive_types(R)]
pub struct ExScalableCuckooFilter<T: ?Sized, H, R>(ScalableCuckooFilter<T, H, R>);

#[verifier::external_type_specification]
#[verifier::external_body]
pub struct ExDefaultHasher(DefaultHasher);

#[verifier::external_type_specification]
#[verifier::external_body]
pub struct ExStdRng(StdRng);

/// The filter the agent keeps per file: keyed by word bytes, hashed and
/// seeded deterministically.
pub type WordFilter = ScalableCuckooFilter<[u8], DefaultHasher, StdRng>;

/// The abstract contents of a filter: the set of words inserted so far.
pub uninterp spec fn filter_items(f: WordFilter) -> Set<Seq<u8>>;

/// Relies on `ScalableCuckooFilterBuilder`: `new` starts from the default
/// initial capacity of 100 000 and default false-positive probability of
/// 0.001; `rng` fixes a deterministically seeded generator; `finish` builds a
/// filter holding no items.
#[verifier::external_body]
pub(crate) fn filter_new() -> (f: WordFilter)
    ensures
        filter_items(f) == Set::<Seq<u8>>::empty(),
{
    ScalableCuckooFilterBuilder::new().rng(StdRng::from_seed([0u8; 32])).finish()
}

/// Relies on `ScalableCuckooFilter::insert`: the item joins the filter's
/// contents (the filter grows by itself when nearly full and never fails).
#[verifier::external_body]
pub(crate) fn filter_insert(f: &mut WordFilter, w: &Vec<u8>)
    ensures
        filter_items(*final(f)) == filter_items(*old(f)).insert(w@),
{
    f.insert(w.as_slice())
}

/// Relies on `ScalableCuckooFilter::contains`: an item in the contents is
/// always reported present (no false negatives); an absent item may be
/// reported present with bounded probability, so nothing is promised of it.
#[verifier::external_body]
pub(crate) fn filter_contains(f: &WordFilter, w: &Vec<u8>) -> (r: bool)
    ensures
        filter_items(*f).contains(w@) ==> r,
{
    f.contains(w.as_slice())
}

} // verus!
