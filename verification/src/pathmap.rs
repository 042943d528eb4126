//! A small association map keyed by byte paths, with a `Map` view.
//!
//! The watcher and the agent key their per-file state by path; this container
//! keeps one entry per path and exposes its contents as a mathematical map.

use vstd::prelude::*;

use crate::bytes::bytes_eq;

verus! {

/// First index of key `p` in `es`, or -1.
pub open spec fn find_idx<T>(es: Seq<(Vec<u8>, T)>, p: Seq<u8>) -> int
    decreases es.len(),
{
    if es.len() == 0 {
        -1
    } else if es[0].0@ == p {
        0
    } else {
        let r = find_idx(es.drop_first(), p);
        if r < 0 {
            -1
        } else {
            r + 1
        }
    }
}

pub proof fn lemma_find_idx_props<T>(es: Seq<(Vec<u8>, T)>, p: Seq<u8>)
    ensures
        -1 <= find_idx(es, p) < es.len(),
        find_idx(es, p) >= 0 ==> es[find_idx(es, p)].0@ == p,
        find_idx(es, p) == -1 ==> forall|i: int|
            0 <= i < es.len() ==> (#[trigger] es[i]).0@ != p,
        forall|i: int| 0 <= i < find_idx(es, p) ==> (#[trigger] es[i]).0@ != p,
    decreases es.len(),
{
    if es.len() > 0 && es[0].0@ != p {
        lemma_find_idx_props(es.drop_first(), p);
        assert(forall|i: int| 1 <= i < es.len() ==> es.drop_first()[i - 1] == #[trigger] es[i]);
    }
}

/// A scan that found no key before `m`, and the key at `m` (or ran out),
/// pins the first index down.
pub proof fn lemma_find_idx_char<T>(es: Seq<(Vec<u8>, T)>, p: Seq<u8>, m: int)
    requires
        0 <= m <= es.len(),
        forall|j: int| 0 <= j < m ==> (#[trigger] es[j]).0@ != p,
        m == es.len() || es[m].0@ == p,
    ensures
        find_idx(es, p) == if m == es.len() {
            -1
        } else {
            m
        },
    decreases es.len(),
{
    if es.len() > 0 && es[0].0@ != p {
        assert(forall|i: int| 1 <= i < es.len() ==> es.drop_first()[i - 1] == #[trigger] es[i]);
        lemma_find_idx_char(es.drop_first(), p, m - 1);
    }
}

/// Two entry lists with the same keys at the same places are searched alike.
pub proof fn lemma_find_idx_same_keys<T>(es1: Seq<(Vec<u8>, T)>, es2: Seq<(Vec<u8>, T)>, p: Seq<u8>)
    requires
        es1.len() == es2.len(),
        forall|i: int| 0 <= i < es1.len() ==> (#[trigger] es1[i]).0@ == es2[i].0@,
    ensures
        find_idx(es1, p) == find_idx(es2, p),
    decreases es1.len(),
{
    if es1.len() > 0 && es1[0].0@ != p {
        assert(forall|i: int| 1 <= i < es1.len() ==> es1.drop_first()[i - 1] == #[trigger] es1[i]);
        assert(forall|i: int| 1 <= i < es2.len() ==> es2.drop_first()[i - 1] == #[trigger] es2[i]);
        lemma_find_idx_same_keys(es1.drop_first(), es2.drop_first(), p);
    }
}

/// One entry per path, with a map view from path bytes to values.
pub struct PathMap<T> {
    entries: Vec<(Vec<u8>, T)>,
}

impl<T> View for PathMap<T> {
    type V = Map<Seq<u8>, T>;

    closed spec fn view(&self) -> Map<Seq<u8>, T> {
        Map::new(
            |p: Seq<u8>| find_idx(self.entries@, p) >= 0,
            |p: Seq<u8>| self.entries@[find_idx(self.entries@, p)].1,
        )
    }
}

impl<T> PathMap<T> {
    /// The underlying entries, for stating uniqueness.
    pub closed spec fn entries_view(self) -> Seq<(Vec<u8>, T)> {
        self.entries@
    }

    /// No path occurs twice.
    pub open spec fn wf(self) -> bool {
        forall|i: int, j: int|
            0 <= i < j < self.entries_view().len() ==> (#[trigger] self.entries_view()[i]).0@ != (
            #[trigger] self.entries_view()[j]).0@
    }

    /// An empty map.
    pub fn new() -> (r: Self)
        ensures
            r.wf(),
            r@ == Map::<Seq<u8>, T>::empty(),
            r.entries_view() == Seq::<(Vec<u8>, T)>::empty(),
    {
        let r = PathMap { entries: Vec::new() };
        proof {
            assert(r@ =~= Map::<Seq<u8>, T>::empty());
        }
        r
    }

    /// The number of live entries.
    pub fn len(&self) -> (r: usize)
        ensures
            r == self.entries_view().len(),
    {
        self.entries.len()
    }

    /// The index holding path `p`, if any.
    fn find(&self, p: &Vec<u8>) -> (r: Option<usize>)
        ensures
            match r {
                Some(i) => i < self.entries_view().len() && find_idx(self.entries_view(), p@)
                    == i as int,
                None => find_idx(self.entries_view(), p@) == -1,
            },
    {
        let ghost es = self.entries@;
        let n = self.entries.len();
        let mut i: usize = 0;
        while i < n
            invariant
                i <= n,
                n == es.len(),
                self.entries@ == es,
                forall|j: int| 0 <= j < i ==> (#[trigger] es[j]).0@ != p@,
            decreases n - i,
        {
            let e = &self.entries[i];
            if bytes_eq(&e.0, p) {
                proof {
                    lemma_find_idx_char(es, p@, i as int);
                }
                return Some(i);
            }
            i = i + 1;
        }
        proof {
            lemma_find_idx_char(es, p@, n as int);
        }
        None
    }

    /// Whether path `p` is present.
    pub fn contains_path(&self, p: &Vec<u8>) -> (r: bool)
        ensures
            r == self@.contains_key(p@),
    {
        match self.find(p) {
            Some(_) => true,
            None => false,
        }
    }

    /// The value stored under `p`, if any.
    pub fn get(&self, p: &Vec<u8>) -> (r: Option<&T>)
        ensures
            match r {
                Some(v) => self@.contains_key(p@) && *v == self@[p@],
                None => !self@.contains_key(p@),
            },
    {
        match self.find(p) {
            Some(i) => Some(&self.entries[i].1),
            None => None,
        }
    }

    /// Stores `v` under `p`, replacing any earlier value.
    pub fn insert(&mut self, p: Vec<u8>, v: T)
        requires
            old(self).wf(),
        ensures
            final(self).wf(),
            final(self)@ == old(self)@.insert(p@, v),
            final(self).entries_view().len() == old(self).entries_view().len() + (
            if old(self)@.contains_key(p@) {
                0int
            } else {
                1int
            }),
    {
        let ghost es = self.entries@;
        match self.find(&p) {
            Some(i) => {
                let ghost pv = p@;
                self.entries.set(i, (p, v));
                proof {
                    let es2 = self.entries@;
                    lemma_find_idx_props(es, pv);
                    assert(forall|x: int|
                        0 <= x < es.len() ==> (#[trigger] es2[x]).0@ == es[x].0@);
                    assert forall|q: Seq<u8>| true implies find_idx(es2, q) == find_idx(es, q) by {
                        lemma_find_idx_same_keys(es2, es, q);
                    }
                    assert forall|i2: int, j2: int| 0 <= i2 < j2 < es2.len() implies (
                    #[trigger] es2[i2]).0@ != (#[trigger] es2[j2]).0@ by {
                        assert(es[i2].0@ != es[j2].0@);
                    }
                    assert forall|q: Seq<u8>| #[trigger]
                        old(self)@.insert(pv, v).contains_key(q) implies self@.contains_key(q)
                        && self@[q] == old(self)@.insert(pv, v)[q] by {
                        if q == pv {
                            assert(find_idx(es, q) == i as int);
                            assert(es2[i as int].1 == v);
                        } else {
                            lemma_find_idx_props(es2, q);
                        }
                    }
                    assert forall|q: Seq<u8>| #[trigger] self@.contains_key(q) implies old(
                    self)@.insert(pv, v).contains_key(q) by {}
                    assert(self@ =~= old(self)@.insert(pv, v));
                }
            },
            None => {
                let ghost pv = p@;
                self.entries.push((p, v));
                proof {
                    let es2 = self.entries@;
                    lemma_find_idx_props(es, pv);
                    assert forall|q: Seq<u8>| true implies find_idx(es2, q) == (if q == pv {
                        es.len() as int
                    } else {
                        find_idx(es, q)
                    }) by {
                        lemma_find_idx_props(es, q);
                        if q == pv {
                            lemma_find_idx_char(es2, q, es.len() as int);
                        } else {
                            let r = find_idx(es, q);
                            if r >= 0 {
                                lemma_find_idx_char(es2, q, r);
                            } else {
                                lemma_find_idx_char(es2, q, es2.len() as int);
                            }
                        }
                    }
                    assert forall|i2: int, j2: int| 0 <= i2 < j2 < es2.len() implies (
                    #[trigger] es2[i2]).0@ != (#[trigger] es2[j2]).0@ by {
                        if j2 < es.len() {
                            assert(es[i2].0@ != es[j2].0@);
                        } else {
                            assert(es2[j2].0@ == pv);
                            assert(es2[i2] == es[i2]);
                        }
                    }
                    assert forall|q: Seq<u8>| #[trigger]
                        old(self)@.insert(pv, v).contains_key(q) implies self@.contains_key(q)
                        && self@[q] == old(self)@.insert(pv, v)[q] by {
                        if q == pv {
                            assert(es2[es.len() as int].1 == v);
                        } else {
                            lemma_find_idx_props(es, q);
                            let r = find_idx(es, q);
                            assert(es2[r] == es[r]);
                        }
                    }
                    assert forall|q: Seq<u8>| #[trigger] self@.contains_key(q) implies old(
                    self)@.insert(pv, v).contains_key(q) by {}
                    assert(self@ =~= old(self)@.insert(pv, v));
                }
            },
        }
    }

    /// Removes and returns the value under `p`, if any.
    pub fn take(&mut self, p: &Vec<u8>) -> (r: Option<T>)
        requires
            old(self).wf(),
        ensures
            final(self).wf(),
            final(self)@ == old(self)@.remove(p@),
            match r {
                Some(v) => old(self)@.contains_key(p@) && v == old(self)@[p@],
                None => !old(self)@.contains_key(p@),
            },
            final(self).entries_view().len() == old(self).entries_view().len() - (
            if old(self)@.contains_key(p@) {
                1int
            } else {
                0int
            }),
    {
        let ghost es = self.entries@;
        match self.find(p) {
            Some(i) => {
                let e = self.entries.remove(i);
                proof {
                    let es2 = self.entries@;
                    lemma_find_idx_props(es, p@);
                    assert(es2 =~= es.remove(i as int));
                    assert forall|q: Seq<u8>| #[trigger]
                        old(self)@.remove(p@).contains_key(q) implies self@.contains_key(q)
                        && self@[q] == old(self)@.remove(p@)[q] by {
                        let r = find_idx(es, q);
                        lemma_find_idx_props(es, q);
                        // the entry for q survives the removal, shifted if past i
                        if r < i as int {
                            assert(es2[r] == es[r]);
                            assert(forall|j: int| 0 <= j < r ==> es2[j] == #[trigger] es[j]);
                            lemma_find_idx_char(es2, q, r);
                        } else {
                            assert(es2[r - 1] == es[r]);
                            assert forall|j: int| 0 <= j < r - 1 implies (#[trigger] es2[j]).0@
                                != q by {
                                if j < i as int {
                                    assert(es2[j] == es[j]);
                                } else {
                                    assert(es2[j] == es[j + 1]);
                                }
                            }
                            lemma_find_idx_char(es2, q, r - 1);
                        }
                    }
                    assert forall|q: Seq<u8>| #[trigger] self@.contains_key(q) implies old(
                    self)@.remove(p@).contains_key(q) && self@[q] == old(self)@.remove(p@)[q] by {
                        lemma_find_idx_props(es2, q);
                        let r2 = find_idx(es2, q);
                        if r2 < i as int {
                            assert(es2[r2] == es[r2]);
                            lemma_find_idx_props(es, q);
                        } else {
                            assert(es2[r2] == es[r2 + 1]);
                            lemma_find_idx_props(es, q);
                        }
                        assert(q != p@);
                    }
                    assert(self@ =~= old(self)@.remove(p@));
                    assert forall|i2: int, j2: int| 0 <= i2 < j2 < es2.len() implies (
                    #[trigger] es2[i2]).0@ != (#[trigger] es2[j2]).0@ by {
                        let a = if i2 < i as int {
                            i2
                        } else {
                            i2 + 1
                        };
                        let b = if j2 < i as int {
                            j2
                        } else {
                            j2 + 1
                        };
                        assert(es2[i2] == es[a]);
                        assert(es2[j2] == es[b]);
                    }
                }
                Some(e.1)
            },
            None => {
                proof {
                    lemma_find_idx_props(es, p@);
                    assert(self@ =~= old(self)@.remove(p@));
                }
                None
            },
        }
    }
}

} // verus!
