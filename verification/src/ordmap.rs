//! A map from string keys to values, held as a vector of entries kept
//! strictly sorted by key. Inserting an existing key overwrites its value in
//! place; iteration over `entries` is therefore deterministic and in key
//! order.

use vstd::prelude::*;

use crate::strutil::{
    index_of_name, lemma_index_of_name, lemma_lex_lt_neq, lemma_lex_lt_trans, lemma_lex_total,
    lex_lt, str_eq, str_lt,
};

verus! {

/// Strictly sorted key views have no duplicates.
pub proof fn lemma_sorted_distinct(keys: Seq<Seq<char>>)
    requires
        forall|i: int, j: int| 0 <= i < j < keys.len() ==> lex_lt(#[trigger] keys[i], #[trigger] keys[j]),
    ensures
        forall|i: int, j: int|
            0 <= i < keys.len() && 0 <= j < keys.len() && i != j ==> #[trigger] keys[i]
                != #[trigger] keys[j],
{
    assert forall|i: int, j: int|
        0 <= i < keys.len() && 0 <= j < keys.len() && i != j implies #[trigger] keys[i]
        != #[trigger] keys[j] by {
        if i < j {
            lemma_lex_lt_neq(keys[i], keys[j]);
        } else {
            lemma_lex_lt_neq(keys[j], keys[i]);
        }
    }
}

/// When the keys are distinct, any index holding `k` is the index found.
pub proof fn lemma_index_witness(keys: Seq<Seq<char>>, k: Seq<char>, w: int)
    requires
        forall|i: int, j: int|
            0 <= i < keys.len() && 0 <= j < keys.len() && i != j ==> #[trigger] keys[i]
                != #[trigger] keys[j],
        0 <= w < keys.len(),
        keys[w] == k,
    ensures
        index_of_name(keys, k) == w,
{
    lemma_index_of_name(keys, k);
}

/// When no index holds `k`, nothing is found.
pub proof fn lemma_index_none(keys: Seq<Seq<char>>, k: Seq<char>)
    requires
        forall|j: int| 0 <= j < keys.len() ==> #[trigger] keys[j] != k,
    ensures
        index_of_name(keys, k) < 0,
{
    lemma_index_of_name(keys, k);
}

/// The key views of an entry list, in order.
pub open spec fn map_keys<V>(s: Seq<(String, V)>) -> Seq<Seq<char>> {
    s.map_values(|p: (String, V)| p.0@)
}

/// Strict sortedness of an entry list's keys.
pub open spec fn map_sorted<V>(s: Seq<(String, V)>) -> bool {
    forall|i: int, j: int|
        0 <= i < j < map_keys(s).len() ==> lex_lt(
            #[trigger] map_keys(s)[i],
            #[trigger] map_keys(s)[j],
        )
}

/// Index of the entry holding `k`, or -1.
pub open spec fn map_index<V>(s: Seq<(String, V)>, k: Seq<char>) -> int {
    index_of_name(map_keys(s), k)
}

/// The value stored under `k`, if any.
pub open spec fn map_get<V>(s: Seq<(String, V)>, k: Seq<char>) -> Option<V> {
    if map_index(s, k) >= 0 {
        Some(s[map_index(s, k)].1)
    } else {
        None
    }
}

/// Looks `k` up in an entry list.
pub fn entries_get<'a, V>(v: &'a Vec<(String, V)>, k: &str) -> (r: Option<&'a V>)
    ensures
        map_index(v@, k@) >= 0 ==> (r matches Some(x) && *x == v@[map_index(v@, k@)].1),
        map_index(v@, k@) < 0 ==> r is None,
{
    let mut i: usize = 0;
    while i < v.len()
        invariant
            i <= v@.len(),
            forall|j: int| 0 <= j < i ==> map_keys(v@)[j] != k@,
        decreases v@.len() - i,
    {
        proof {
            assert(map_keys(v@)[i as int] == v@[i as int].0@);
        }
        if str_eq(v[i].0.as_str(), k) {
            proof {
                lemma_index_of_name(map_keys(v@), k@);
                assert(map_index(v@, k@) == i as int) by {
                    let f = index_of_name(map_keys(v@), k@);
                    if f < 0 {
                        assert(map_keys(v@)[i as int] != k@);
                    } else if f < i {
                        assert(map_keys(v@)[f] != k@);
                    } else if f > i {
                        assert(map_keys(v@)[i as int] != k@);
                    }
                }
            }
            return Some(&v[i].1);
        }
        i = i + 1;
    }
    proof {
        lemma_index_none(map_keys(v@), k@);
    }
    None
}

/// Removes the entry holding `k` and returns its value. Sortedness and the
/// values of every other key are preserved.
pub fn entries_remove<V>(v: &mut Vec<(String, V)>, k: &str) -> (r: Option<V>)
    ensures
        map_index(old(v)@, k@) < 0 ==> r is None && final(v)@ == old(v)@,
        map_index(old(v)@, k@) >= 0 ==> (r matches Some(x) && x == old(v)@[map_index(
            old(v)@,
            k@,
        )].1 && final(v)@ == old(v)@.remove(map_index(old(v)@, k@))),
        map_sorted(old(v)@) ==> map_sorted(final(v)@),
        map_sorted(old(v)@) ==> forall|k2: Seq<char>|
            k2 != k@ ==> #[trigger] map_get(final(v)@, k2) == map_get(old(v)@, k2),
        map_sorted(old(v)@) ==> map_index(final(v)@, k@) < 0,
{
    let ghost orig = old(v)@;
    let mut i: usize = 0;
    while i < v.len()
        invariant
            orig == old(v)@,
            v@ == orig,
            i <= v@.len(),
            forall|j: int| 0 <= j < i ==> map_keys(v@)[j] != k@,
        decreases v@.len() - i,
    {
        proof {
            assert(map_keys(v@)[i as int] == v@[i as int].0@);
        }
        if str_eq(v[i].0.as_str(), k) {
            proof {
                lemma_index_of_name(map_keys(v@), k@);
                assert(map_index(v@, k@) == i as int) by {
                    let f = index_of_name(map_keys(v@), k@);
                    if f < 0 {
                        assert(map_keys(v@)[i as int] != k@);
                    } else if f < i {
                        assert(map_keys(v@)[f] != k@);
                    } else if f > i {
                        assert(map_keys(v@)[i as int] != k@);
                    }
                }
            }
            let pair = v.remove(i);
            proof {
                if map_sorted(orig) {
                    assert forall|a: int, b: int|
                        0 <= a < b < map_keys(v@).len() implies lex_lt(
                        #[trigger] map_keys(v@)[a],
                        #[trigger] map_keys(v@)[b],
                    ) by {
                        let a0 = if a < i { a } else { a + 1 };
                        let b0 = if b < i { b } else { b + 1 };
                        assert(map_keys(v@)[a] == map_keys(orig)[a0]);
                        assert(map_keys(v@)[b] == map_keys(orig)[b0]);
                    }
                    lemma_sorted_distinct(map_keys(orig));
                    assert forall|k2: Seq<char>| k2 != k@ implies #[trigger] map_get(v@, k2)
                        == map_get(orig, k2) by {
                        let oi = index_of_name(map_keys(orig), k2);
                        lemma_index_of_name(map_keys(orig), k2);
                        if oi >= 0 {
                            let p = if oi < i { oi } else { oi - 1 };
                            assert(oi != i as int);
                            assert(map_keys(v@)[p] == map_keys(orig)[oi]);
                            lemma_sorted_distinct(map_keys(v@));
                            lemma_index_witness(map_keys(v@), k2, p);
                            assert(v@[p].1 == orig[oi].1);
                        } else {
                            assert forall|q: int|
                                0 <= q < map_keys(v@).len() implies #[trigger] map_keys(v@)[q]
                                != k2 by {
                                if q < i {
                                    assert(map_keys(v@)[q] == map_keys(orig)[q]);
                                } else {
                                    assert(map_keys(v@)[q] == map_keys(orig)[q + 1]);
                                }
                            }
                            lemma_index_none(map_keys(v@), k2);
                        }
                    }
                    assert forall|q: int|
                        0 <= q < map_keys(v@).len() implies #[trigger] map_keys(v@)[q] != k@ by {
                        let q0 = if q < i { q } else { q + 1 };
                        assert(map_keys(v@)[q] == map_keys(orig)[q0]);
                        assert(map_keys(orig)[i as int] == k@);
                    }
                    lemma_index_none(map_keys(v@), k@);
                }
            }
            return Some(pair.1);
        }
        i = i + 1;
    }
    proof {
        lemma_index_none(map_keys(v@), k@);
    }
    None
}

/// Stores `value` under `key`. An existing entry keeps its position and gets
/// the new value; a new key is placed so that the keys stay sorted. Every
/// other key keeps its value.
pub fn entries_insert<V>(v: &mut Vec<(String, V)>, key: String, value: V)
    requires
        map_sorted(old(v)@),
    ensures
        map_sorted(final(v)@),
        map_get(final(v)@, key@) matches Some(x) && x == value,
        forall|k2: Seq<char>| k2 != key@ ==> #[trigger] map_get(final(v)@, k2) == map_get(
            old(v)@,
            k2,
        ),
        map_index(old(v)@, key@) >= 0 ==> final(v)@ == old(v)@.update(
            map_index(old(v)@, key@),
            (key, value),
        ),
        map_index(old(v)@, key@) < 0 ==> exists|p: int|
            0 <= p <= old(v)@.len() && final(v)@ == old(v)@.insert(p, (key, value)),
{
    let ghost orig = old(v)@;
    proof {
        lemma_sorted_distinct(map_keys(orig));
    }
    let mut i: usize = 0;
    while i < v.len() && str_lt(v[i].0.as_str(), key.as_str())
        invariant
            orig == old(v)@,
            v@ == orig,
            i <= v@.len(),
            forall|j: int| 0 <= j < i ==> lex_lt(#[trigger] map_keys(v@)[j], key@),
        decreases v@.len() - i,
    {
        proof {
            assert(map_keys(v@)[i as int] == v@[i as int].0@);
        }
        i = i + 1;
    }
    proof {
        if i < orig.len() {
            assert(map_keys(orig)[i as int] == orig[i as int].0@);
        }
    }
    if i < v.len() && str_eq(v[i].0.as_str(), key.as_str()) {
        // The key is present at position i: overwrite in place.
        proof {
            lemma_index_witness(map_keys(orig), key@, i as int);
        }
        v.remove(i);
        v.insert(i, (key, value));
        proof {
            assert(v@ =~= orig.update(i as int, (v@[i as int].0, v@[i as int].1)));
            assert(map_keys(v@) =~= map_keys(orig));
            lemma_index_witness(map_keys(v@), key@, i as int);
            assert forall|k2: Seq<char>| k2 != key@ implies #[trigger] map_get(v@, k2) == map_get(
                orig,
                k2,
            ) by {
                assert(index_of_name(map_keys(v@), k2) == index_of_name(map_keys(orig), k2));
                lemma_index_of_name(map_keys(v@), k2);
                let f = index_of_name(map_keys(v@), k2);
                if f >= 0 {
                    assert(map_keys(v@)[f] == k2);
                    assert(f != i as int);
                    assert(v@[f].1 == orig[f].1);
                }
            }
        }
    } else {
        // The key is absent; i is its insertion point.
        proof {
            assert forall|j: int| 0 <= j < map_keys(orig).len() implies #[trigger] map_keys(
                orig,
            )[j] != key@ by {
                if j < i {
                    lemma_lex_lt_neq(map_keys(orig)[j], key@);
                } else if j == i {
                } else {
                    lemma_lex_total(map_keys(orig)[i as int], key@);
                    lemma_lex_lt_trans(key@, map_keys(orig)[i as int], map_keys(orig)[j]);
                    lemma_lex_lt_neq(key@, map_keys(orig)[j]);
                }
            }
            lemma_index_none(map_keys(orig), key@);
        }
        v.insert(i, (key, value));
        proof {
            assert(map_keys(v@) =~= map_keys(orig).insert(i as int, key@)) by {
                assert forall|j: int| 0 <= j < map_keys(v@).len() implies map_keys(v@)[j]
                    == map_keys(orig).insert(i as int, key@)[j] by {
                    assert(map_keys(v@)[j] == v@[j].0@);
                }
            }
            assert forall|a: int, b: int|
                0 <= a < b < map_keys(v@).len() implies lex_lt(
                #[trigger] map_keys(v@)[a],
                #[trigger] map_keys(v@)[b],
            ) by {
                if a == i {
                    lemma_lex_total(map_keys(orig)[i as int], key@);
                    if b - 1 > i {
                        lemma_lex_lt_trans(key@, map_keys(orig)[i as int], map_keys(orig)[b - 1]);
                    }
                } else if b == i {
                } else if a < i && b > i {
                    lemma_lex_total(map_keys(orig)[i as int], key@);
                }
            }
            lemma_sorted_distinct(map_keys(v@));
            lemma_index_witness(map_keys(v@), key@, i as int);
            assert forall|k2: Seq<char>| k2 != key@ implies #[trigger] map_get(v@, k2) == map_get(
                orig,
                k2,
            ) by {
                let oi = index_of_name(map_keys(orig), k2);
                lemma_index_of_name(map_keys(orig), k2);
                if oi >= 0 {
                    let p = if oi < i { oi } else { oi + 1 };
                    assert(map_keys(v@)[p] == map_keys(orig)[oi]);
                    lemma_index_witness(map_keys(v@), k2, p);
                    assert(v@[p].1 == orig[oi].1);
                } else {
                    assert forall|q: int|
                        0 <= q < map_keys(v@).len() implies #[trigger] map_keys(v@)[q] != k2 by {
                        if q < i {
                            assert(map_keys(v@)[q] == map_keys(orig)[q]);
                        } else if q > i {
                            assert(map_keys(v@)[q] == map_keys(orig)[q - 1]);
                        }
                    }
                    lemma_index_none(map_keys(v@), k2);
                }
            }
        }
    }
}

pub struct OrdMap<V> {
    pub entries: Vec<(String, V)>,
}

impl<V> OrdMap<V> {
    /// The key views, in entry order.
    pub open spec fn keys(self) -> Seq<Seq<char>> {
        map_keys(self.entries@)
    }

    /// Strict sortedness of the keys: the invariant that every map this
    /// module hands out maintains.
    pub open spec fn sorted(self) -> bool {
        map_sorted(self.entries@)
    }

    /// Index of the entry holding `k`, or -1.
    pub open spec fn key_index(self, k: Seq<char>) -> int {
        map_index(self.entries@, k)
    }

    pub open spec fn spec_contains(self, k: Seq<char>) -> bool {
        self.key_index(k) >= 0
    }

    /// The value stored under `k`, if any.
    pub open spec fn spec_get(self, k: Seq<char>) -> Option<V> {
        map_get(self.entries@, k)
    }

    pub fn new() -> (r: Self)
        ensures
            r.entries@.len() == 0,
            r.sorted(),
            forall|k: Seq<char>| #[trigger] r.spec_get(k) is None,
    {
        OrdMap { entries: Vec::new() }
    }

    pub fn len(&self) -> (r: usize)
        ensures
            r == self.entries@.len(),
    {
        self.entries.len()
    }

    pub fn get(&self, k: &str) -> (r: Option<&V>)
        ensures
            self.key_index(k@) >= 0 ==> (r matches Some(x) && *x == self.entries@[self.key_index(
                k@,
            )].1),
            self.key_index(k@) < 0 ==> r is None,
    {
        entries_get(&self.entries, k)
    }

    pub fn contains_key(&self, k: &str) -> (r: bool)
        ensures
            r == self.spec_contains(k@),
    {
        match self.get(k) {
            Some(_) => true,
            None => false,
        }
    }

    /// Removes the entry holding `k` and returns its value.
    pub fn remove(&mut self, k: &str) -> (r: Option<V>)
        ensures
            old(self).key_index(k@) < 0 ==> r is None && final(self).entries@ == old(
                self,
            ).entries@,
            old(self).key_index(k@) >= 0 ==> (r matches Some(x) && x == old(self).entries@[old(
                self,
            ).key_index(k@)].1 && final(self).entries@ == old(self).entries@.remove(
                old(self).key_index(k@),
            )),
            old(self).sorted() ==> final(self).sorted(),
            old(self).sorted() ==> forall|k2: Seq<char>|
                k2 != k@ ==> #[trigger] final(self).spec_get(k2) == old(self).spec_get(k2),
            old(self).sorted() ==> final(self).key_index(k@) < 0,
    {
        entries_remove(&mut self.entries, k)
    }

    /// Stores `value` under `key`. An existing entry keeps its position and
    /// gets the new value; a new key is placed so that the keys stay sorted.
    /// Every other key keeps its value.
    pub fn insert(&mut self, key: String, value: V)
        requires
            old(self).sorted(),
        ensures
            final(self).sorted(),
            final(self).spec_get(key@) matches Some(x) && x == value,
            forall|k2: Seq<char>| k2 != key@ ==> #[trigger] final(self).spec_get(k2) == old(
                self,
            ).spec_get(k2),
            old(self).key_index(key@) >= 0 ==> final(self).entries@ == old(self).entries@.update(
                old(self).key_index(key@),
                (key, value),
            ),
            old(self).key_index(key@) < 0 ==> exists|p: int|
                0 <= p <= old(self).entries@.len() && final(self).entries@ == old(
                    self,
                ).entries@.insert(p, (key, value)),
    {
        entries_insert(&mut self.entries, key, value)
    }
}

} // verus!
