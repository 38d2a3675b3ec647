//! An insertion-ordered map keyed by identifier strings.
//!
//! The host environment keeps every collection of the marketplace in a
//! persistent key-value store that offers get/insert/remove and iteration in
//! insertion order.  `StrMap` models such a collection as plain data: a
//! sequence of key/value entries with pairwise distinct keys.  Its view is a
//! `Map` from the key's characters to the stored value, and `key_seq` gives
//! the insertion order that the paginated listings walk.

use vstd::map::*;
use vstd::prelude::*;

verus! {

pub struct StrMap<V> {
    entries: Vec<(String, V)>,
}

/// Index of the entry of `s` whose key reads `k`, or `-1` if there is none.
/// Scans from the back, so a duplicate key would resolve to its last entry;
/// a well-formed `StrMap` has no duplicates.
pub open spec fn find_idx<V>(s: Seq<(String, V)>, k: Seq<char>) -> int
    decreases s.len(),
{
    if s.len() == 0 {
        -1
    } else if s.last().0@ == k {
        s.len() - 1
    } else {
        find_idx(s.drop_last(), k)
    }
}

/// The keys of `s` are pairwise distinct.
pub open spec fn distinct_keys<V>(s: Seq<(String, V)>) -> bool {
    forall|i: int, j: int| 0 <= i < j < s.len() ==> s[i].0@ != s[j].0@
}

/// `find_idx` finds an entry exactly when one of the keys reads `k`.
pub proof fn lemma_find_idx<V>(s: Seq<(String, V)>, k: Seq<char>)
    ensures
        -1 <= find_idx(s, k) < s.len(),
        find_idx(s, k) >= 0 ==> s[find_idx(s, k)].0@ == k,
        find_idx(s, k) == -1 <==> (forall|i: int| 0 <= i < s.len() ==> s[i].0@ != k),
    decreases s.len(),
{
    if s.len() > 0 && s.last().0@ != k {
        lemma_find_idx(s.drop_last(), k);
        assert(forall|i: int| 0 <= i < s.len() - 1 ==> s[i] == s.drop_last()[i]);
    }
}

/// With distinct keys the found entry is the only one whose key reads `k`.
pub proof fn lemma_find_idx_unique<V>(s: Seq<(String, V)>, i: int)
    requires
        distinct_keys(s),
        0 <= i < s.len(),
    ensures
        find_idx(s, s[i].0@) == i,
{
    lemma_find_idx(s, s[i].0@);
}

impl<V> StrMap<V> {
    /// The keys in insertion order.
    pub closed spec fn key_seq(&self) -> Seq<Seq<char>> {
        self.entries@.map(|i: int, e: (String, V)| e.0@)
    }

    /// No key is stored twice.
    pub closed spec fn wf(&self) -> bool {
        distinct_keys(self.entries@)
    }

    pub proof fn lemma_dom(&self)
        requires
            self.wf(),
        ensures
            forall|k: Seq<char>| self@.contains_key(k) <==> self.key_seq().contains(k),
    {
        assert forall|k: Seq<char>| self@.contains_key(k) <==> self.key_seq().contains(k) by {
            lemma_find_idx(self.entries@, k);
            if self@.contains_key(k) {
                let i = find_idx(self.entries@, k);
                assert(self.key_seq()[i] == k);
            }
            if self.key_seq().contains(k) {
                let i = choose|i: int| 0 <= i < self.key_seq().len() && self.key_seq()[i] == k;
                assert(self.entries@[i].0@ == k);
            }
        }
    }

    /// The insertion order lists pairwise distinct keys.
    pub proof fn lemma_keys_distinct(&self)
        requires
            self.wf(),
        ensures
            forall|i: int, j: int|
                0 <= i < j < self.key_seq().len() ==> self.key_seq()[i] != self.key_seq()[j],
    {
        assert(forall|i: int|
            0 <= i < self.key_seq().len() ==> self.key_seq()[i] == self.entries@[i].0@);
    }

    /// The key at position `i` of the insertion order is stored.
    pub proof fn lemma_at(&self, i: int)
        requires
            self.wf(),
            0 <= i < self.key_seq().len(),
        ensures
            self@.contains_key(self.key_seq()[i]),
    {
        lemma_find_idx_unique(self.entries@, i);
    }

    pub fn new() -> (r: Self)
        ensures
            r.wf(),
            r@ == Map::<Seq<char>, V>::empty(),
            r.key_seq() == Seq::<Seq<char>>::empty(),
    {
        let r = StrMap { entries: Vec::new() };
        proof {
            assert(r@ =~= Map::<Seq<char>, V>::empty()) by {
                assert forall|k: Seq<char>| !r@.contains_key(k) by {
                    lemma_find_idx(r.entries@, k);
                }
            }
            assert(r.key_seq() =~= Seq::<Seq<char>>::empty());
        }
        r
    }

    pub fn len(&self) -> (n: usize)
        ensures
            n == self.key_seq().len(),
    {
        self.entries.len()
    }

    /// Position of `k` in the insertion order, if it is stored.
    pub fn index_of(&self, k: &String) -> (r: Option<usize>)
        requires
            self.wf(),
        ensures
            match r {
                Some(i) => i < self.key_seq().len() && self.key_seq()[i as int] == k@
                    && self@.contains_key(k@),
                None => !self@.contains_key(k@),
            },
    {
        proof {
            lemma_find_idx(self.entries@, k@);
        }
        let n = self.entries.len();
        for j in 0..n
            invariant
                n == self.entries@.len(),
                self.wf(),
                forall|jj: int| 0 <= jj < j ==> self.entries@[jj].0@ != k@,
        {
            if self.entries[j].0.eq(k) {
                proof {
                    lemma_find_idx_unique(self.entries@, j as int);
                }
                return Some(j);
            }
        }
        None
    }

    pub fn has(&self, k: &String) -> (r: bool)
        requires
            self.wf(),
        ensures
            r == self@.contains_key(k@),
    {
        self.index_of(k).is_some()
    }

    pub fn get<'a>(&'a self, k: &String) -> (r: Option<&'a V>)
        requires
            self.wf(),
        ensures
            match r {
                Some(v) => self@.contains_key(k@) && *v == self@[k@],
                None => !self@.contains_key(k@),
            },
    {
        match self.index_of(k) {
            Some(i) => {
                proof {
                    lemma_find_idx_unique(self.entries@, i as int);
                }
                Some(&self.entries[i].1)
            },
            None => None,
        }
    }

    pub fn key_at(&self, i: usize) -> (r: &String)
        requires
            i < self.key_seq().len(),
        ensures
            r@ == self.key_seq()[i as int],
    {
        &self.entries[i].0
    }

    pub fn value_at<'a>(&'a self, i: usize) -> (r: &'a V)
        requires
            self.wf(),
            i < self.key_seq().len(),
        ensures
            self@.contains_key(self.key_seq()[i as int]),
            *r == self@[self.key_seq()[i as int]],
    {
        proof {
            lemma_find_idx_unique(self.entries@, i as int);
        }
        &self.entries[i].1
    }

    /// Replaces the value at position `i`, keeping the key and the order.
    pub fn replace_at(&mut self, i: usize, v: V)
        requires
            old(self).wf(),
            i < old(self).key_seq().len(),
        ensures
            final(self).wf(),
            final(self)@ == old(self)@.insert(old(self).key_seq()[i as int], v),
            final(self).key_seq() == old(self).key_seq(),
    {
        let k = self.entries[i].0.clone();
        let ghost s0 = self.entries@;
        self.entries.remove(i);
        self.entries.insert(i, (k, v));
        proof {
            let s1 = self.entries@;
            assert(s1 =~= s0.update(i as int, (k, v)));
            assert(forall|j: int| 0 <= j < s1.len() ==> s1[j].0@ == s0[j].0@);
            assert(self.wf());
            assert(self.key_seq() =~= old(self).key_seq());
            lemma_find_idx_unique(s0, i as int);
            assert_maps_equal!(self@, old(self)@.insert(s0[i as int].0@, v), q => {
                lemma_find_idx(s0, q);
                lemma_find_idx(s1, q);
                let f0 = find_idx(s0, q);
                let f1 = find_idx(s1, q);
                if f0 >= 0 {
                    lemma_find_idx_unique(s1, f0);
                }
                if f1 >= 0 {
                    lemma_find_idx_unique(s0, f1);
                }
            });
        }
    }

    /// Stores `v` under `k`: overwrites in place when `k` is present, else
    /// appends the entry at the end of the insertion order.
    pub fn insert(&mut self, k: String, v: V)
        requires
            old(self).wf(),
        ensures
            final(self).wf(),
            final(self)@ == old(self)@.insert(k@, v),
            old(self)@.contains_key(k@) ==> final(self).key_seq() == old(self).key_seq(),
            !old(self)@.contains_key(k@) ==> final(self).key_seq() == old(self).key_seq().push(k@),
    {
        match self.index_of(&k) {
            Some(i) => {
                proof {
                    assert(old(self).key_seq()[i as int] == k@);
                }
                self.replace_at(i, v);
                proof {
                    assert(self@ =~= old(self)@.insert(k@, v));
                }
            },
            None => {
                let ghost s0 = self.entries@;
                self.entries.push((k, v));
                proof {
                    let s1 = self.entries@;
                    lemma_find_idx(s0, k@);
                    assert(forall|i: int| 0 <= i < s0.len() ==> s1[i] == s0[i]);
                    assert(self.wf());
                    assert(self.key_seq() =~= old(self).key_seq().push(k@));
                    assert(s1.drop_last() =~= s0);
                    assert_maps_equal!(self@, old(self)@.insert(k@, v), q => {
                        lemma_find_idx(s0, q);
                        lemma_find_idx(s1, q);
                    });
                }
            },
        }
    }

    /// Takes the entry at position `i` out, closing the gap in the order.
    pub fn remove_at(&mut self, i: usize) -> (r: (String, V))
        requires
            old(self).wf(),
            i < old(self).key_seq().len(),
        ensures
            final(self).wf(),
            r.0@ == old(self).key_seq()[i as int],
            r.1 == old(self)@[old(self).key_seq()[i as int]],
            final(self)@ == old(self)@.remove(old(self).key_seq()[i as int]),
            final(self).key_seq() == old(self).key_seq().remove(i as int),
    {
        let ghost s0 = self.entries@;
        let e = self.entries.remove(i);
        proof {
            let s1 = self.entries@;
            let k = s0[i as int].0@;
            assert(forall|j: int| 0 <= j < i ==> s1[j] == s0[j]);
            assert(forall|j: int| i <= j < s1.len() ==> s1[j] == s0[j + 1]);
            assert(self.wf());
            lemma_find_idx_unique(s0, i as int);
            assert(self.key_seq() =~= old(self).key_seq().remove(i as int));
            assert_maps_equal!(self@, old(self)@.remove(k), q => {
                lemma_find_idx(s0, q);
                lemma_find_idx(s1, q);
                let f0 = find_idx(s0, q);
                let f1 = find_idx(s1, q);
                if f1 >= 0 {
                    let j: int = if f1 < i { f1 } else { f1 + 1 };
                    assert(s0[j].0@ == q);
                    lemma_find_idx_unique(s0, j);
                }
                if f0 >= 0 && q != k {
                    let j: int = if f0 < i { f0 } else { f0 - 1 };
                    assert(s1[j].0@ == q);
                    lemma_find_idx_unique(s1, j);
                }
            });
        }
        e
    }

    /// Puts an entry with a fresh key in at position `i`, shifting the
    /// later entries back.
    pub fn insert_at(&mut self, i: usize, k: String, v: V)
        requires
            old(self).wf(),
            i <= old(self).key_seq().len(),
            !old(self)@.contains_key(k@),
        ensures
            final(self).wf(),
            final(self)@ == old(self)@.insert(k@, v),
            final(self).key_seq() == old(self).key_seq().insert(i as int, k@),
    {
        let ghost s0 = self.entries@;
        self.entries.insert(i, (k, v));
        proof {
            let s1 = self.entries@;
            lemma_find_idx(s0, k@);
            assert(forall|j: int| 0 <= j < i ==> s1[j] == s0[j]);
            assert(s1[i as int] == (k, v));
            assert(forall|j: int| i < j < s1.len() ==> s1[j] == s0[j - 1]);
            assert(self.wf());
            assert(self.key_seq() =~= old(self).key_seq().insert(i as int, k@));
            assert_maps_equal!(self@, old(self)@.insert(k@, v), q => {
                lemma_find_idx(s0, q);
                lemma_find_idx(s1, q);
                let f0 = find_idx(s0, q);
                let f1 = find_idx(s1, q);
                if f1 >= 0 && q != k@ {
                    let j: int = if f1 < i { f1 } else { f1 - 1 };
                    assert(s0[j].0@ == q);
                    lemma_find_idx_unique(s0, j);
                }
                if f0 >= 0 {
                    let j: int = if f0 < i { f0 } else { f0 + 1 };
                    assert(s1[j].0@ == q);
                    lemma_find_idx_unique(s1, j);
                }
                if q == k@ {
                    lemma_find_idx_unique(s1, i as int);
                }
            });
        }
    }

    /// Removes the entry stored under `k`, closing the gap in the order.
    pub fn remove(&mut self, k: &String) -> (r: Option<V>)
        requires
            old(self).wf(),
        ensures
            final(self).wf(),
            match r {
                Some(v) => old(self)@.contains_key(k@) && v == old(self)@[k@]
                    && final(self)@ == old(self)@.remove(k@)
                    && (exists|i: int|
                    0 <= i < old(self).key_seq().len() && old(self).key_seq()[i] == k@
                        && final(self).key_seq() == old(self).key_seq().remove(i)),
                None => !old(self)@.contains_key(k@) && *final(self) == *old(self),
            },
    {
        match self.index_of(k) {
            Some(i) => {
                let ghost s0 = self.entries@;
                let (_, v) = self.entries.remove(i);
                proof {
                    let s1 = self.entries@;
                    assert(forall|j: int| 0 <= j < i ==> s1[j] == s0[j]);
                    assert(forall|j: int|
                        i <= j < s1.len() ==> s1[j] == s0[j + 1]);
                    assert(self.wf());
                    lemma_find_idx_unique(s0, i as int);
                    assert(self.key_seq() =~= old(self).key_seq().remove(i as int));
                    assert_maps_equal!(self@, old(self)@.remove(k@), q => {
                        lemma_find_idx(s0, q);
                        lemma_find_idx(s1, q);
                        let f0 = find_idx(s0, q);
                        let f1 = find_idx(s1, q);
                        if f1 >= 0 {
                            let j: int = if f1 < i { f1 } else { f1 + 1 };
                            assert(s0[j].0@ == q);
                            lemma_find_idx_unique(s0, j);
                        }
                        if f0 >= 0 && q != k@ {
                            let j: int = if f0 < i { f0 } else { f0 - 1 };
                            assert(s1[j].0@ == q);
                            lemma_find_idx_unique(s1, j);
                        }
                    });
                }
                Some(v)
            },
            None => None,
        }
    }
}

impl<V> View for StrMap<V> {
    type V = Map<Seq<char>, V>;

    closed spec fn view(&self) -> Map<Seq<char>, V> {
        Map::new(
            |k: Seq<char>| find_idx(self.entries@, k) >= 0,
            |k: Seq<char>| self.entries@[find_idx(self.entries@, k)].1,
        )
    }
}

} // verus!
