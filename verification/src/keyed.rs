//! A map from text keys to values that remembers insertion order; the
//! registries of the assistant (operations, sessions, documents, servers)
//! are built on it.

use vstd::prelude::*;
use crate::text::{chars_of, chars_equal, other_than};

verus! {

/// Entries keyed by text, at most one per key, in insertion order.
pub struct StrMap<V> {
    entries: Vec<(String, V)>,
}

/// The position of key `k` in `e`, when `k` occurs.
pub open spec fn key_pos<V>(e: Seq<(String, V)>, k: Seq<char>) -> int {
    choose|i: int| 0 <= i < e.len() && e[i].0@ == k
}

/// `k` is the key of some entry of `e`.
pub open spec fn has_key<V>(e: Seq<(String, V)>, k: Seq<char>) -> bool {
    exists|i: int| 0 <= i < e.len() && e[i].0@ == k
}

/// No two entries of `e` share a key.
pub open spec fn keys_distinct<V>(e: Seq<(String, V)>) -> bool {
    forall|i: int, j: int| 0 <= i < j < e.len() ==> e[i].0@ != e[j].0@
}

/// The map that the entries `e` stand for.
pub open spec fn entries_map<V>(e: Seq<(String, V)>) -> Map<Seq<char>, V> {
    Map::new(|k: Seq<char>| has_key(e, k), |k: Seq<char>| e[key_pos(e, k)].1)
}

/// In distinct entries, the entry at `i` is the one its key finds.
pub proof fn lemma_key_pos<V>(e: Seq<(String, V)>, i: int)
    requires
        keys_distinct(e),
        0 <= i < e.len(),
    ensures
        has_key(e, e[i].0@),
        key_pos(e, e[i].0@) == i,
        entries_map(e).contains_key(e[i].0@),
        entries_map(e)[e[i].0@] == e[i].1,
{
    assert(has_key(e, e[i].0@));
    let j = key_pos(e, e[i].0@);
    if j != i {
        if j < i {
            assert(e[j].0@ != e[i].0@);
        } else {
            assert(e[i].0@ != e[j].0@);
        }
    }
}

impl<V> View for StrMap<V> {
    type V = Map<Seq<char>, V>;

    closed spec fn view(&self) -> Map<Seq<char>, V> {
        entries_map(self.entries@)
    }
}

impl<V> StrMap<V> {
    /// The keys, in insertion order.
    pub closed spec fn keys(&self) -> Seq<Seq<char>> {
        self.entries@.map_values(|e: (String, V)| e.0@)
    }

    /// The value under each key, in insertion order.
    pub closed spec fn values(&self) -> Seq<V> {
        self.entries@.map_values(|e: (String, V)| e.1)
    }

    /// No key occurs twice.
    pub closed spec fn wf(&self) -> bool {
        keys_distinct(self.entries@)
    }

    /// The ordered keys and values describe the map.
    pub proof fn lemma_view(&self)
        requires
            self.wf(),
        ensures
            self.keys().len() == self.values().len(),
            self.keys().no_duplicates(),
            forall|k: Seq<char>| #[trigger] self@.contains_key(k) <==> self.keys().contains(k),
            forall|i: int| 0 <= i < self.keys().len() ==> #[trigger] self@[self.keys()[i]] == self.values()[i],
    {
        assert forall|k: Seq<char>| #[trigger] self@.contains_key(k) <==> self.keys().contains(k) by {
            if self@.contains_key(k) {
                let i = key_pos(self.entries@, k);
                assert(self.keys()[i] == k);
            }
            if self.keys().contains(k) {
                let i = choose|i: int| 0 <= i < self.keys().len() && self.keys()[i] == k;
                assert(self.entries@[i].0@ == k);
            }
        }
        assert forall|i: int| 0 <= i < self.keys().len() implies #[trigger] self@[self.keys()[i]] == self.values()[i] by {
            lemma_key_pos(self.entries@, i);
        }
        assert forall|i: int, j: int| 0 <= i < self.keys().len() && 0 <= j < self.keys().len() && i != j
            implies self.keys()[i] != self.keys()[j] by {
            if i < j {
                assert(self.entries@[i].0@ != self.entries@[j].0@);
            } else {
                assert(self.entries@[j].0@ != self.entries@[i].0@);
            }
        }
    }

    /// An empty map.
    pub fn new() -> (r: Self)
        ensures
            r.wf(),
            r@ == Map::<Seq<char>, V>::empty(),
            r.keys() == Seq::<Seq<char>>::empty(),
            r.values() == Seq::<V>::empty(),
    {
        let r = StrMap { entries: Vec::new() };
        assert(r@ =~= Map::<Seq<char>, V>::empty());
        assert(r.keys() =~= Seq::<Seq<char>>::empty());
        assert(r.values() =~= Seq::<V>::empty());
        r
    }

    /// The number of entries.
    pub fn len(&self) -> (n: usize)
        ensures
            n == self.keys().len(),
    {
        self.entries.len()
    }

    /// The position of a key in insertion order.
    pub fn position(&self, key: &str) -> (r: Option<usize>)
        requires
            self.wf(),
        ensures
            match r {
                Some(i) => i < self.keys().len() && self.keys()[i as int] == key@,
                None => !self@.contains_key(key@),
            },
    {
        let p = chars_of(key);
        let mut i: usize = 0;
        while i < self.entries.len()
            invariant
                i <= self.entries@.len(),
                p@ == key@,
                forall|j: int| 0 <= j < i ==> self.entries@[j].0@ != key@,
            decreases self.entries@.len() - i,
        {
            let q = chars_of(self.entries[i].0.as_str());
            if chars_equal(q.as_slice(), p.as_slice()) {
                return Some(i);
            }
            i += 1;
        }
        None
    }

    /// Whether a key is present.
    pub fn contains_key(&self, key: &str) -> (r: bool)
        requires
            self.wf(),
        ensures
            r == self@.contains_key(key@),
    {
        match self.position(key) {
            Some(i) => {
                proof { lemma_key_pos(self.entries@, i as int); }
                true
            },
            None => false,
        }
    }

    /// The value under a key.
    pub fn get(&self, key: &str) -> (r: Option<&V>)
        requires
            self.wf(),
        ensures
            match r {
                Some(v) => self@.contains_key(key@) && *v == self@[key@],
                None => !self@.contains_key(key@),
            },
    {
        match self.position(key) {
            Some(i) => {
                proof { lemma_key_pos(self.entries@, i as int); }
                Some(&self.entries[i].1)
            },
            None => None,
        }
    }

    /// The key and value at a position of the insertion order.
    pub fn entry_at(&self, i: usize) -> (r: (&String, &V))
        requires
            self.wf(),
            i < self.keys().len(),
        ensures
            r.0@ == self.keys()[i as int],
            *r.1 == self.values()[i as int],
            self@.contains_key(r.0@),
            self@[r.0@] == *r.1,
    {
        proof { lemma_key_pos(self.entries@, i as int); }
        (&self.entries[i].0, &self.entries[i].1)
    }

    /// Puts `value` under `key`, replacing what was there. A new key goes
    /// last in the insertion order; a present key keeps its place.
    pub fn insert(&mut self, key: String, value: V)
        requires
            old(self).wf(),
        ensures
            final(self).wf(),
            final(self)@ == old(self)@.insert(key@, value),
            final(self).keys() == if old(self)@.contains_key(key@) {
                old(self).keys()
            } else {
                old(self).keys().push(key@)
            },
            old(self)@.contains_key(key@) ==> forall|j: int| 0 <= j < old(self).keys().len() && old(self).keys()[j] != key@
                ==> #[trigger] final(self).values()[j] == old(self).values()[j],
            old(self)@.contains_key(key@) ==> final(self).values() == old(self).values().update(
                old(self).keys().index_of(key@), value),
            !old(self)@.contains_key(key@) ==> final(self).values() == old(self).values().push(value),
    {
        let ghost e0 = self.entries@;
        proof { self.lemma_view(); }
        match self.position(key.as_str()) {
            Some(i) => {
                let ghost kk = key@;
                self.entries.set(i, (key, value));
                proof {
                    let e1 = self.entries@;
                    assert(e1 == e0.update(i as int, e1[i as int]));
                    assert forall|a: int, b: int| 0 <= a < b < e1.len() implies e1[a].0@ != e1[b].0@ by {
                        if a != i as int && b != i as int {
                        } else if a == i as int {
                            assert(e0[a].0@ == kk);
                        } else {
                            assert(e0[b].0@ == kk);
                        }
                    }
                    lemma_key_pos(e0, i as int);
                    assert forall|k: Seq<char>| #[trigger] entries_map(e1).contains_key(k) == e0_map_insert(e0, kk, value).contains_key(k) by {
                        if has_key(e0, k) {
                            let j = key_pos(e0, k);
                            if j == i as int {
                                assert(e1[j].0@ == k);
                            } else {
                                assert(e1[j].0@ == k);
                            }
                        }
                        if has_key(e1, k) {
                            let j = key_pos(e1, k);
                            if j != i as int {
                                assert(e0[j].0@ == k);
                            }
                        }
                    }
                    assert forall|k: Seq<char>| entries_map(e1).contains_key(k) implies #[trigger] entries_map(e1)[k] == e0_map_insert(e0, kk, value)[k] by {
                        let j = key_pos(e1, k);
                        lemma_key_pos(e1, j);
                        if k != kk {
                            assert(e0[j].0@ == k);
                            lemma_key_pos(e0, j);
                        }
                    }
                    assert(entries_map(e1) =~= e0_map_insert(e0, kk, value));
                    assert(self.keys() =~= old(self).keys());
                    assert(old(self).keys().index_of(kk) == i as int) by {
                        old(self).keys().index_of_first_ensures(kk);
                        assert(old(self).keys()[i as int] == kk);
                        assert(old(self).keys().no_duplicates());
                    }
                    assert(self.values() =~= old(self).values().update(i as int, value));
                }
            },
            None => {
                let ghost kk = key@;
                self.entries.push((key, value));
                proof {
                    let e1 = self.entries@;
                    let n = e0.len() as int;
                    assert forall|a: int, b: int| 0 <= a < b < e1.len() implies e1[a].0@ != e1[b].0@ by {
                        if b == n {
                            assert(e0[a].0@ != kk) by {
                                if e0[a].0@ == kk {
                                    assert(has_key(e0, kk));
                                }
                            }
                        }
                    }
                    assert forall|k: Seq<char>| #[trigger] entries_map(e1).contains_key(k) == e0_map_insert(e0, kk, value).contains_key(k) by {
                        if has_key(e0, k) {
                            let j = key_pos(e0, k);
                            assert(e1[j].0@ == k);
                        }
                        if k == kk {
                            assert(e1[n].0@ == k);
                        }
                        if has_key(e1, k) {
                            let j = key_pos(e1, k);
                            if j != n {
                                assert(e0[j].0@ == k);
                            }
                        }
                    }
                    assert forall|k: Seq<char>| entries_map(e1).contains_key(k) implies #[trigger] entries_map(e1)[k] == e0_map_insert(e0, kk, value)[k] by {
                        let j = key_pos(e1, k);
                        lemma_key_pos(e1, j);
                        if k != kk {
                            assert(j != n);
                            assert(e0[j].0@ == k);
                            lemma_key_pos(e0, j);
                        }
                    }
                    assert(entries_map(e1) =~= e0_map_insert(e0, kk, value));
                    assert(self.keys() =~= old(self).keys().push(kk));
                    assert(self.values() =~= old(self).values().push(value));
                }
            },
        }
    }

    /// Puts `value` in the entry at position `i`, keeping its key and place,
    /// and returns the value that was there.
    pub fn replace_at(&mut self, i: usize, value: V) -> (r: V)
        requires
            old(self).wf(),
            i < old(self).keys().len(),
        ensures
            final(self).wf(),
            r == old(self).values()[i as int],
            final(self)@ == old(self)@.insert(old(self).keys()[i as int], value),
            final(self).keys() == old(self).keys(),
            final(self).values() == old(self).values().update(i as int, value),
    {
        let ghost e0 = self.entries@;
        let (k, v) = self.entries.remove(i);
        let ghost kk = k@;
        self.entries.insert(i, (k, value));
        proof {
            let e1 = self.entries@;
            assert(e1 =~= e0.update(i as int, e1[i as int]));
            assert(e1[i as int].0@ == kk);
            lemma_update_entry(e0, e1, i as int, value);
            assert(self.keys() =~= old(self).keys());
            assert(self.values() =~= old(self).values().update(i as int, value));
        }
        v
    }

    /// Removes the entry under `key`, returning its value; the other entries
    /// keep their order.
    pub fn remove(&mut self, key: &str) -> (r: Option<V>)
        requires
            old(self).wf(),
        ensures
            final(self).wf(),
            final(self)@ == old(self)@.remove(key@),
            match r {
                Some(v) => old(self)@.contains_key(key@) && v == old(self)@[key@],
                None => !old(self)@.contains_key(key@),
            },
            final(self).keys() == old(self).keys().filter(other_than(key@)),
    {
        let ghost e0 = self.entries@;
        match self.position(key) {
            Some(i) => {
                proof { lemma_key_pos(e0, i as int); }
                let (_k, v) = self.entries.remove(i);
                proof {
                    let e1 = self.entries@;
                    let kk = key@;
                    assert(e1 == e0.remove(i as int));
                    assert forall|a: int, b: int| 0 <= a < b < e1.len() implies e1[a].0@ != e1[b].0@ by {
                        let a0 = if a < i { a } else { a + 1 };
                        let b0 = if b < i { b } else { b + 1 };
                        assert(e1[a] == e0[a0]);
                        assert(e1[b] == e0[b0]);
                    }
                    assert forall|k: Seq<char>| #[trigger] entries_map(e1).contains_key(k) == entries_map(e0).remove(kk).contains_key(k) by {
                        if has_key(e0, k) && k != kk {
                            let j = key_pos(e0, k);
                            assert(j != i as int);
                            let j1 = if j < i { j } else { j - 1 };
                            assert(e1[j1] == e0[j]);
                        }
                        if has_key(e1, k) {
                            let j = key_pos(e1, k);
                            let j0 = if j < i { j } else { j + 1 };
                            assert(e1[j] == e0[j0]);
                            assert(j0 != i as int);
                            if k == kk {
                                assert(e0[j0].0@ == e0[i as int].0@);
                            }
                        }
                    }
                    assert forall|k: Seq<char>| entries_map(e1).contains_key(k) implies #[trigger] entries_map(e1)[k] == entries_map(e0).remove(kk)[k] by {
                        let j = key_pos(e1, k);
                        lemma_key_pos(e1, j);
                        let j0 = if j < i { j } else { j + 1 };
                        assert(e1[j] == e0[j0]);
                        lemma_key_pos(e0, j0);
                    }
                    assert(entries_map(e1) =~= entries_map(e0).remove(kk));
                    lemma_keys_after_remove(e0, i as int, kk);
                }
                Some(v)
            },
            None => {
                proof {
                    assert(entries_map(e0).remove(key@) =~= entries_map(e0));
                    lemma_keys_filter_absent(e0, key@);
                }
                None
            },
        }
    }
}

proof fn lemma_update_entry<V>(e0: Seq<(String, V)>, e1: Seq<(String, V)>, i: int, value: V)
    requires
        keys_distinct(e0),
        0 <= i < e0.len(),
        e1 == e0.update(i, e1[i]),
        e1[i].0@ == e0[i].0@,
        e1[i].1 == value,
    ensures
        keys_distinct(e1),
        entries_map(e1) == entries_map(e0).insert(e0[i].0@, value),
{
    let kk = e0[i].0@;
    assert forall|a: int, b: int| 0 <= a < b < e1.len() implies e1[a].0@ != e1[b].0@ by {
        if a != i && b != i {
        } else if a == i {
            assert(e0[a].0@ == kk);
        } else {
            assert(e0[b].0@ == kk);
        }
    }
    lemma_key_pos(e0, i);
    assert forall|k: Seq<char>| #[trigger] entries_map(e1).contains_key(k) == e0_map_insert(e0, kk, value).contains_key(k) by {
        if has_key(e0, k) {
            let j = key_pos(e0, k);
            assert(e1[j].0@ == k);
        }
        if has_key(e1, k) {
            let j = key_pos(e1, k);
            if j != i {
                assert(e0[j].0@ == k);
            }
        }
    }
    assert forall|k: Seq<char>| entries_map(e1).contains_key(k) implies #[trigger] entries_map(e1)[k] == e0_map_insert(e0, kk, value)[k] by {
        let j = key_pos(e1, k);
        lemma_key_pos(e1, j);
        if k != kk {
            assert(e0[j].0@ == k);
            lemma_key_pos(e0, j);
        }
    }
    assert(entries_map(e1) =~= e0_map_insert(e0, kk, value));
}

/// The keys at the positions that `flags` marks, as a set.
pub open spec fn marked_keys(keys: Seq<Seq<char>>, flags: Seq<bool>) -> Set<Seq<char>> {
    Set::new(|k: Seq<char>| exists|i: int| 0 <= i < keys.len() && 0 <= i < flags.len() && flags[i] && keys[i] == k)
}

/// The texts of a list of strings.
pub open spec fn texts(v: Seq<String>) -> Seq<Seq<char>> {
    v.map_values(|k: String| k@)
}

/// The texts of a list of strings, as a set.
pub open spec fn text_set(v: Seq<String>) -> Set<Seq<char>> {
    texts(v).to_set()
}

impl<V> StrMap<V> {
    /// Copies of the keys at the positions that `flags` marks.
    pub fn keys_marked(&self, flags: &Vec<bool>) -> (r: Vec<String>)
        requires
            self.wf(),
            flags@.len() == self.keys().len(),
        ensures
            text_set(r@) == marked_keys(self.keys(), flags@),
    {
        let n = self.len();
        let mut r: Vec<String> = Vec::new();
        let mut i: usize = 0;
        while i < n
            invariant
                self.wf(),
                n == self.keys().len(),
                flags@.len() == n,
                i <= n,
                forall|k: Seq<char>| #[trigger] texts(r@).contains(k) <==> exists|j: int|
                    0 <= j < i && flags@[j] && #[trigger] self.keys()[j] == k,
            decreases n - i,
        {
            let ghost before = texts(r@);
            if flags[i] {
                let (k, _v) = self.entry_at(i);
                r.push(k.clone());
                proof {
                    let after = texts(r@);
                    assert(after =~= before.push(self.keys()[i as int]));
                    assert forall|k: Seq<char>| #[trigger] after.contains(k) <==> exists|j: int|
                        0 <= j < i + 1 && flags@[j] && #[trigger] self.keys()[j] == k by {
                        if after.contains(k) {
                            let q = choose|q: int| 0 <= q < after.len() && after[q] == k;
                            if q < before.len() {
                                assert(before.contains(k));
                            }
                        }
                        if exists|j: int| 0 <= j < i + 1 && flags@[j] && #[trigger] self.keys()[j] == k {
                            let j = choose|j: int| 0 <= j < i + 1 && flags@[j] && #[trigger] self.keys()[j] == k;
                            if j < i {
                                assert(before.contains(k));
                                let q = choose|q: int| 0 <= q < before.len() && before[q] == k;
                                assert(after[q] == k);
                            } else {
                                assert(after[before.len() as int] == k);
                            }
                        }
                    }
                }
            } else {
                proof {
                    assert forall|k: Seq<char>| #[trigger] before.contains(k) <==> exists|j: int|
                        0 <= j < i + 1 && flags@[j] && #[trigger] self.keys()[j] == k by {
                        if exists|j: int| 0 <= j < i + 1 && flags@[j] && #[trigger] self.keys()[j] == k {
                            let j = choose|j: int| 0 <= j < i + 1 && flags@[j] && #[trigger] self.keys()[j] == k;
                            assert(j < i);
                        }
                    }
                }
            }
            i += 1;
        }
        proof {
            let rv = texts(r@);
            assert forall|k: Seq<char>| #[trigger] rv.to_set().contains(k) <==> marked_keys(self.keys(), flags@).contains(k) by {
                if marked_keys(self.keys(), flags@).contains(k) {
                    let j = choose|j: int| 0 <= j < self.keys().len() && 0 <= j < flags@.len() && flags@[j] && self.keys()[j] == k;
                    assert(exists|j: int| 0 <= j < n && flags@[j] && #[trigger] self.keys()[j] == k);
                }
            }
            assert(rv.to_set() =~= marked_keys(self.keys(), flags@));
        }
        r
    }

    /// Removes the entries under the given keys (absent keys are passed over).
    pub fn remove_all(&mut self, ks: &Vec<String>)
        requires
            old(self).wf(),
        ensures
            final(self).wf(),
            final(self)@ == old(self)@.remove_keys(text_set(ks@)),
    {
        let ghost kv = texts(ks@);
        let mut j: usize = 0;
        proof {
            assert(kv.take(0).to_set() =~= Set::<Seq<char>>::empty());
            assert(old(self)@.remove_keys(Set::<Seq<char>>::empty()) =~= old(self)@);
        }
        while j < ks.len()
            invariant
                self.wf(),
                kv == texts(ks@),
                j <= ks@.len(),
                self@ == old(self)@.remove_keys(kv.take(j as int).to_set()),
            decreases ks@.len() - j,
        {
            let ghost prev = self@;
            let _ = self.remove(ks[j].as_str());
            proof {
                assert(kv.take(j + 1) =~= kv.take(j as int).push(kv[j as int]));
                kv.take(j as int).lemma_push_to_set_commute(kv[j as int]);
                assert(self@ =~= old(self)@.remove_keys(kv.take(j + 1).to_set()));
            }
            j += 1;
        }
        assert(kv.take(ks@.len() as int) =~= kv);
    }
}

/// `entries_map(e).insert(k, v)`, written out for the proofs above.
pub open spec fn e0_map_insert<V>(e: Seq<(String, V)>, k: Seq<char>, v: V) -> Map<Seq<char>, V> {
    entries_map(e).insert(k, v)
}

proof fn lemma_keys_filter_absent<V>(e: Seq<(String, V)>, k: Seq<char>)
    requires
        !has_key(e, k),
    ensures
        e.map_values(|x: (String, V)| x.0@).filter(other_than(k)) == e.map_values(|x: (String, V)| x.0@),
    decreases e.len(),
{
    reveal(Seq::filter);
    let ks = e.map_values(|x: (String, V)| x.0@);
    if e.len() > 0 {
        assert(!has_key(e.drop_last(), k)) by {
            if has_key(e.drop_last(), k) {
                let j = choose|j: int| 0 <= j < e.drop_last().len() && e.drop_last()[j].0@ == k;
                assert(e[j].0@ == k);
            }
        }
        lemma_keys_filter_absent(e.drop_last(), k);
        assert(e.drop_last().map_values(|x: (String, V)| x.0@) =~= ks.drop_last());
        assert(ks.last() != k) by {
            assert(e[e.len() - 1].0@ == ks.last());
        }
    } else {
        assert(ks.filter(other_than(k)) =~= ks);
    }
}

proof fn lemma_keys_after_remove<V>(e: Seq<(String, V)>, i: int, k: Seq<char>)
    requires
        keys_distinct(e),
        0 <= i < e.len(),
        e[i].0@ == k,
    ensures
        e.remove(i).map_values(|x: (String, V)| x.0@) == e.map_values(|x: (String, V)| x.0@).filter(other_than(k)),
    decreases e.len(),
{
    reveal(Seq::filter);
    let ks = e.map_values(|x: (String, V)| x.0@);
    if i == e.len() - 1 {
        assert(e.remove(i) =~= e.drop_last());
        assert(!has_key(e.drop_last(), k)) by {
            if has_key(e.drop_last(), k) {
                let j = choose|j: int| 0 <= j < e.drop_last().len() && e.drop_last()[j].0@ == k;
                assert(e[j].0@ == k);
                assert(e[j].0@ != e[i].0@);
            }
        }
        lemma_keys_filter_absent(e.drop_last(), k);
        assert(e.drop_last().map_values(|x: (String, V)| x.0@) =~= ks.drop_last());
    } else {
        let d = e.drop_last();
        assert(keys_distinct(d));
        lemma_keys_after_remove(d, i, k);
        assert(d.map_values(|x: (String, V)| x.0@) =~= ks.drop_last());
        assert(e.remove(i).drop_last() =~= d.remove(i));
        assert(ks.last() != k) by {
            assert(e[e.len() - 1].0@ != e[i].0@);
        }
        assert(e.remove(i).map_values(|x: (String, V)| x.0@) =~= d.remove(i).map_values(|x: (String, V)| x.0@).push(ks.last()));
    }
}

} // verus!
