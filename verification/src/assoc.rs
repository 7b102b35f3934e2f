//! A small association list with unique keys, viewed as a finite `Map`.
//!
//! The library keeps its lookup tables (tool-name tables, routing health,
//! session bindings) in this structure; keys are compared by their views.
//! Its keys are strings. vstd's `HashMap` contracts hold only for key types
//! known to obey its key model (the integers and `bool`), and `String` is
//! not one of them, so the tables are association lists whose view is the
//! map they stand for.
use vstd::prelude::*;

verus! {

/// Equality of two values decided by their views.
pub trait ViewEq: View + Sized {
    fn view_eq(&self, other: &Self) -> (r: bool)
        ensures
            r == (self@ == other@),
    ;
}

impl ViewEq for String {
    fn view_eq(&self, other: &Self) -> (r: bool) {
        *self == *other
    }
}

/// An association list whose keys are pairwise distinct (by view).
#[derive(Debug)]
pub struct AssocMap<K, V> {
    pub entries: Vec<(K, V)>,
}

/// Some index of `s` whose key has view `k`.
pub open spec fn key_index<K: View, V: View>(s: Seq<(K, V)>, k: K::V) -> int {
    choose|i: int| 0 <= i < s.len() && s[i].0@ == k
}

pub open spec fn has_key<K: View, V: View>(s: Seq<(K, V)>, k: K::V) -> bool {
    exists|i: int| 0 <= i < s.len() && s[i].0@ == k
}

/// The map that an association list stands for.
pub open spec fn map_of<K: View, V: View>(s: Seq<(K, V)>) -> Map<K::V, V::V> {
    Map::new(|k: K::V| has_key(s, k), |k: K::V| s[key_index(s, k)].1@)
}

pub open spec fn keys_unique<K: View, V: View>(s: Seq<(K, V)>) -> bool {
    forall|i: int, j: int| 0 <= i < s.len() && 0 <= j < s.len() && i != j ==> s[i].0@ != s[j].0@
}

/// With distinct keys, the entry at `i` is what the map holds for its key.
pub proof fn lemma_map_of_index<K: View, V: View>(s: Seq<(K, V)>, i: int)
    requires
        keys_unique(s),
        0 <= i < s.len(),
    ensures
        map_of(s).contains_key(s[i].0@),
        map_of(s)[s[i].0@] == s[i].1@,
        key_index(s, s[i].0@) == i,
{
    assert(has_key(s, s[i].0@));
    let j = key_index(s, s[i].0@);
    assert(0 <= j < s.len() && s[j].0@ == s[i].0@);
}

pub proof fn lemma_map_of_finite<K: View, V: View>(s: Seq<(K, V)>)
    ensures
        map_of(s).dom().finite(),
        map_of(s).dom().len() <= s.len(),
    decreases s.len(),
{
    let f = |p: (K, V)| p.0@;
    let ks = s.map_values(f);
    assert(map_of(s).dom() =~= ks.to_set()) by {
        assert forall|k: K::V| map_of(s).dom().contains(k) implies ks.to_set().contains(k) by {
            let i = key_index(s, k);
            assert(ks[i] == k);
        }
        assert forall|k: K::V| ks.to_set().contains(k) implies map_of(s).dom().contains(k) by {
            let i = choose|i: int| 0 <= i < ks.len() && ks[i] == k;
            assert(s[i].0@ == k);
        }
    }
    ks.lemma_cardinality_of_set();
}

impl<K: ViewEq, V: View> AssocMap<K, V> {
    pub open spec fn wf(&self) -> bool {
        keys_unique(self.entries@)
    }

    pub open spec fn view(&self) -> Map<K::V, V::V> {
        map_of(self.entries@)
    }

    pub fn new() -> (r: Self)
        ensures
            r.wf(),
            r.view() == Map::<K::V, V::V>::empty(),
    {
        let r = AssocMap { entries: Vec::new() };
        assert(r.view() =~= Map::<K::V, V::V>::empty());
        r
    }

    pub fn len(&self) -> (n: usize)
        requires
            self.wf(),
        ensures
            n == self.view().len(),
            n == self.entries@.len(),
    {
        proof {
            self.lemma_len();
        }
        self.entries.len()
    }

    pub proof fn lemma_len(&self)
        requires
            self.wf(),
        ensures
            self.view().dom().finite(),
            self.view().len() == self.entries@.len(),
    {
        let s = self.entries@;
        let ks = s.map_values(|p: (K, V)| p.0@);
        lemma_map_of_finite(s);
        assert(ks.no_duplicates()) by {
            assert forall|i: int, j: int| 0 <= i < ks.len() && 0 <= j < ks.len() && i != j implies ks[i] != ks[j] by {
                assert(ks[i] == s[i].0@ && ks[j] == s[j].0@);
            }
        }
        ks.unique_seq_to_set();
        assert(self.view().dom() =~= ks.to_set()) by {
            assert forall|k: K::V| self.view().dom().contains(k) implies ks.to_set().contains(k) by {
                let i = key_index(s, k);
                assert(ks[i] == k);
            }
            assert forall|k: K::V| ks.to_set().contains(k) implies self.view().dom().contains(k) by {
                let i = choose|i: int| 0 <= i < ks.len() && ks[i] == k;
                assert(s[i].0@ == k);
            }
        }
    }

    /// The position of the entry with the given key.
    pub fn index_of(&self, k: &K) -> (r: Option<usize>)
        requires
            self.wf(),
        ensures
            r matches Some(i) ==> i < self.entries@.len() && self.entries@[i as int].0@ == k@,
            r is Some <==> self.view().contains_key(k@),
            r is None ==> forall|i: int| 0 <= i < self.entries@.len() ==> self.entries@[i].0@ != k@,
    {
        let mut i: usize = 0;
        while i < self.entries.len()
            invariant
                i <= self.entries@.len(),
                forall|j: int| 0 <= j < i ==> self.entries@[j].0@ != k@,
            decreases self.entries@.len() - i,
        {
            if self.entries[i].0.view_eq(k) {
                proof {
                    assert(has_key(self.entries@, k@));
                }
                return Some(i);
            }
            i += 1;
        }
        None
    }

    /// The value stored under the given key.
    pub fn get(&self, k: &K) -> (r: Option<&V>)
        requires
            self.wf(),
        ensures
            r matches Some(v) ==> self.view().contains_key(k@) && v@ == self.view()[k@],
            r is None ==> !self.view().contains_key(k@),
    {
        match self.index_of(k) {
            Some(i) => {
                proof {
                    lemma_map_of_index(self.entries@, i as int);
                }
                Some(&self.entries[i].1)
            },
            None => None,
        }
    }

    /// Whether the given key has an entry.
    pub fn contains_key(&self, k: &K) -> (r: bool)
        requires
            self.wf(),
        ensures
            r == self.view().contains_key(k@),
    {
        self.index_of(k).is_some()
    }

    /// Stores `v` under `k`, replacing what was there.
    pub fn insert(&mut self, k: K, v: V)
        requires
            old(self).wf(),
        ensures
            final(self).wf(),
            final(self).view() == old(self).view().insert(k@, v@),
    {
        let ghost kv = k@;
        let ghost vv = v@;
        match self.index_of(&k) {
            Some(i) => {
                let ghost old_s = self.entries@;
                self.entries.set(i, (k, v));
                proof {
                    let s = self.entries@;
                    assert(s == old_s.update(i as int, s[i as int]));
                    assert(keys_unique(s)) by {
                        assert forall|a: int, b: int| 0 <= a < s.len() && 0 <= b < s.len() && a != b implies s[a].0@ != s[b].0@ by {
                            if a != i && b != i {
                                assert(s[a] == old_s[a] && s[b] == old_s[b]);
                            } else if a == i {
                                assert(s[b] == old_s[b]);
                                assert(old_s[i as int].0@ == kv);
                            } else {
                                assert(s[a] == old_s[a]);
                                assert(old_s[i as int].0@ == kv);
                            }
                        }
                    }
                    self.lemma_update_view(old_s, i as int, kv, vv);
                }
            },
            None => {
                let ghost old_s = self.entries@;
                self.entries.push((k, v));
                proof {
                    let s = self.entries@;
                    assert(keys_unique(s)) by {
                        assert forall|a: int, b: int| 0 <= a < s.len() && 0 <= b < s.len() && a != b implies s[a].0@ != s[b].0@ by {
                            if a < old_s.len() && b < old_s.len() {
                                assert(s[a] == old_s[a] && s[b] == old_s[b]);
                            } else if a < old_s.len() {
                                assert(s[a] == old_s[a]);
                            } else {
                                assert(s[b] == old_s[b]);
                            }
                        }
                    }
                    self.lemma_push_view(old_s, kv, vv);
                }
            },
        }
    }

    proof fn lemma_update_view(&self, old_s: Seq<(K, V)>, i: int, kv: K::V, vv: V::V)
        requires
            keys_unique(old_s),
            keys_unique(self.entries@),
            0 <= i < old_s.len(),
            old_s[i].0@ == kv,
            self.entries@.len() == old_s.len(),
            self.entries@[i].0@ == kv,
            self.entries@[i].1@ == vv,
            forall|j: int| 0 <= j < old_s.len() && j != i ==> self.entries@[j] == old_s[j],
        ensures
            self.view() == map_of(old_s).insert(kv, vv),
    {
        let s = self.entries@;
        assert forall|k: K::V| #[trigger] has_key(s, k) == has_key(old_s, k) by {
            if has_key(s, k) {
                let j = choose|j: int| 0 <= j < s.len() && s[j].0@ == k;
                if j == i {
                    assert(old_s[i].0@ == k);
                } else {
                    assert(old_s[j].0@ == k);
                }
            }
            if has_key(old_s, k) {
                let j = choose|j: int| 0 <= j < old_s.len() && old_s[j].0@ == k;
                if j == i {
                    assert(s[i].0@ == k);
                } else {
                    assert(s[j].0@ == k);
                }
            }
        }
        assert forall|k: K::V| #[trigger] map_of(s).contains_key(k) implies map_of(s)[k] == map_of(old_s).insert(kv, vv)[k] by {
            let j = key_index(s, k);
            lemma_map_of_index(s, j);
            if j != i {
                lemma_map_of_index(old_s, j);
            }
        }
        assert(map_of(s) =~= map_of(old_s).insert(kv, vv)) by {
            assert(has_key(s, kv)) by {
                assert(s[i].0@ == kv);
            }
        }
    }

    proof fn lemma_push_view(&self, old_s: Seq<(K, V)>, kv: K::V, vv: V::V)
        requires
            keys_unique(old_s),
            keys_unique(self.entries@),
            self.entries@ == old_s.push(self.entries@.last()),
            self.entries@.last().0@ == kv,
            self.entries@.last().1@ == vv,
        ensures
            self.view() == map_of(old_s).insert(kv, vv),
    {
        let s = self.entries@;
        let n = old_s.len() as int;
        assert forall|k: K::V| #[trigger] has_key(s, k) == (has_key(old_s, k) || k == kv) by {
            if has_key(s, k) {
                let j = choose|j: int| 0 <= j < s.len() && s[j].0@ == k;
                if j < n {
                    assert(old_s[j].0@ == k);
                }
            }
            if has_key(old_s, k) {
                let j = choose|j: int| 0 <= j < old_s.len() && old_s[j].0@ == k;
                assert(s[j].0@ == k);
            }
            if k == kv {
                assert(s[n].0@ == k);
            }
        }
        assert forall|k: K::V| #[trigger] map_of(s).contains_key(k) implies map_of(s)[k] == map_of(old_s).insert(kv, vv)[k] by {
            let j = key_index(s, k);
            lemma_map_of_index(s, j);
            if j < n {
                assert(s[j] == old_s[j]);
                lemma_map_of_index(old_s, j);
            }
        }
        assert(map_of(s) =~= map_of(old_s).insert(kv, vv));
    }

    /// Removes the entry with the given key, if any.
    pub fn remove(&mut self, k: &K)
        requires
            old(self).wf(),
        ensures
            final(self).wf(),
            final(self).view() == old(self).view().remove(k@),
    {
        match self.index_of(k) {
            Some(i) => {
                let ghost old_s = self.entries@;
                let _ = self.entries.remove(i);
                proof {
                    let s = self.entries@;
                    assert(s =~= old_s.remove(i as int));
                    assert(keys_unique(s)) by {
                        assert forall|a: int, b: int| 0 <= a < s.len() && 0 <= b < s.len() && a != b implies s[a].0@ != s[b].0@ by {
                            let a2 = if a < i { a } else { a + 1 };
                            let b2 = if b < i { b } else { b + 1 };
                            assert(s[a] == old_s[a2] && s[b] == old_s[b2]);
                        }
                    }
                    assert forall|kk: K::V| #[trigger] has_key(s, kk) == (has_key(old_s, kk) && kk != k@) by {
                        if has_key(s, kk) {
                            let j = choose|j: int| 0 <= j < s.len() && s[j].0@ == kk;
                            let j2 = if j < i { j } else { j + 1 };
                            assert(old_s[j2].0@ == kk);
                            assert(j2 != i);
                        }
                        if has_key(old_s, kk) && kk != k@ {
                            let j = choose|j: int| 0 <= j < old_s.len() && old_s[j].0@ == kk;
                            assert(j != i);
                            let j2 = if j < i { j } else { j - 1 };
                            assert(s[j2].0@ == kk);
                        }
                    }
                    assert forall|kk: K::V| #[trigger] map_of(s).contains_key(kk) implies map_of(s)[kk] == map_of(old_s).remove(k@)[kk] by {
                        let j = key_index(s, kk);
                        lemma_map_of_index(s, j);
                        let j2 = if j < i { j } else { j + 1 };
                        assert(s[j] == old_s[j2]);
                        lemma_map_of_index(old_s, j2);
                    }
                    assert(map_of(s) =~= map_of(old_s).remove(k@));
                }
            },
            None => {
                proof {
                    assert(self.view() =~= self.view().remove(k@));
                }
            },
        }
    }
}

} // verus!
