//! An insertion-ordered table keyed by strings.
//!
//! Every store and registry of the platform keeps its records by a string
//! identifier and offers insert, lookup, removal and listing.  `Table` is that
//! structure: an association list whose keys are pairwise distinct.  Its
//! abstract value is the sequence of `(key, value)` pairs, in the order in
//! which keys were first inserted, and the map that sequence denotes.

use crate::text::str_eq;
use vstd::prelude::*;

verus! {

/// Whether some pair of `s` has key `k`.
pub open spec fn has_key<V>(s: Seq<(Seq<char>, V)>, k: Seq<char>) -> bool {
    exists|i: int| 0 <= i < s.len() && (#[trigger] s[i]).0 == k
}

/// The position of key `k` in `s` (meaningful when `has_key(s, k)`).
pub open spec fn index_of<V>(s: Seq<(Seq<char>, V)>, k: Seq<char>) -> int {
    choose|i: int| 0 <= i < s.len() && (#[trigger] s[i]).0 == k
}

/// The value stored under key `k` in `s` (meaningful when `has_key(s, k)`).
pub open spec fn value_of<V>(s: Seq<(Seq<char>, V)>, k: Seq<char>) -> V {
    s[index_of(s, k)].1
}

/// No key occurs twice in `s`.
pub open spec fn keys_unique<V>(s: Seq<(Seq<char>, V)>) -> bool {
    forall|i: int, j: int|
        0 <= i < s.len() && 0 <= j < s.len() && (#[trigger] s[i]).0 == (#[trigger] s[j]).0
            ==> i == j
}

/// The map that an association list denotes.
pub open spec fn to_map<V>(s: Seq<(Seq<char>, V)>) -> Map<Seq<char>, V> {
    Map::new(|k: Seq<char>| has_key(s, k), |k: Seq<char>| value_of(s, k))
}

/// Storing `v` under `k`: an existing pair for `k` is replaced where it
/// stands, a new key goes to the end.
pub open spec fn put<V>(s: Seq<(Seq<char>, V)>, k: Seq<char>, v: V) -> Seq<(Seq<char>, V)> {
    if has_key(s, k) {
        s.update(index_of(s, k), (k, v))
    } else {
        s.push((k, v))
    }
}

/// Removing the pair for `k`, if there is one; the others keep their order.
pub open spec fn del<V>(s: Seq<(Seq<char>, V)>, k: Seq<char>) -> Seq<(Seq<char>, V)> {
    if has_key(s, k) {
        s.remove(index_of(s, k))
    } else {
        s
    }
}

/// With distinct keys, the position of the key found at `i` is `i`.
pub proof fn lemma_index_of<V>(s: Seq<(Seq<char>, V)>, i: int)
    requires
        keys_unique(s),
        0 <= i < s.len(),
    ensures
        has_key(s, s[i].0),
        index_of(s, s[i].0) == i,
        value_of(s, s[i].0) == s[i].1,
{
    assert(has_key(s, s[i].0));
    let j = index_of(s, s[i].0);
    assert(s[j].0 == s[i].0);
}

/// `put` keeps keys distinct and denotes a map insertion.
pub proof fn lemma_put<V>(s: Seq<(Seq<char>, V)>, k: Seq<char>, v: V)
    requires
        keys_unique(s),
    ensures
        keys_unique(put(s, k, v)),
        to_map(put(s, k, v)) == to_map(s).insert(k, v),
        put(s, k, v).len() == if has_key(s, k) { s.len() } else { s.len() + 1 },
{
    let t = put(s, k, v);
    if has_key(s, k) {
        let p = index_of(s, k);
        assert forall|i: int| 0 <= i < t.len() implies (#[trigger] t[i]).0 == s[i].0 by {}
        assert(keys_unique(t)) by {
            assert forall|i: int, j: int|
                0 <= i < t.len() && 0 <= j < t.len() && (#[trigger] t[i]).0 == (#[trigger] t[j]).0
                implies i == j by {
                assert(s[i].0 == t[i].0 && s[j].0 == t[j].0);
            }
        }
        assert forall|x: Seq<char>| #[trigger] has_key(t, x) == has_key(s, x) by {
            if has_key(t, x) {
                let i = choose|i: int| 0 <= i < t.len() && (#[trigger] t[i]).0 == x;
                assert(s[i].0 == x);
            }
            if has_key(s, x) {
                let i = choose|i: int| 0 <= i < s.len() && (#[trigger] s[i]).0 == x;
                assert(t[i].0 == x);
            }
        }
        assert(to_map(t) =~= to_map(s).insert(k, v)) by {
            assert forall|x: Seq<char>| has_key(t, x) implies value_of(t, x) == (if x == k {
                v
            } else {
                value_of(s, x)
            }) by {
                let i = choose|i: int| 0 <= i < t.len() && (#[trigger] t[i]).0 == x;
                lemma_index_of(t, i);
                lemma_index_of(s, i);
            }
        }
    } else {
        assert(keys_unique(t)) by {
            assert forall|i: int, j: int|
                0 <= i < t.len() && 0 <= j < t.len() && (#[trigger] t[i]).0 == (#[trigger] t[j]).0
                implies i == j by {
                if i < s.len() && j < s.len() {
                    assert(s[i] == t[i] && s[j] == t[j]);
                } else if i < s.len() {
                    assert(s[i] == t[i]);
                } else if j < s.len() {
                    assert(s[j] == t[j]);
                }
            }
        }
        assert forall|x: Seq<char>| #[trigger] has_key(t, x) == (has_key(s, x) || x == k) by {
            if has_key(t, x) {
                let i = choose|i: int| 0 <= i < t.len() && (#[trigger] t[i]).0 == x;
                if i < s.len() {
                    assert(s[i] == t[i]);
                }
            }
            if has_key(s, x) {
                let i = choose|i: int| 0 <= i < s.len() && (#[trigger] s[i]).0 == x;
                assert(t[i] == s[i]);
            }
            if x == k {
                assert(t[s.len() as int].0 == k);
            }
        }
        assert(to_map(t) =~= to_map(s).insert(k, v)) by {
            assert forall|x: Seq<char>| has_key(t, x) implies value_of(t, x) == (if x == k {
                v
            } else {
                value_of(s, x)
            }) by {
                let i = choose|i: int| 0 <= i < t.len() && (#[trigger] t[i]).0 == x;
                lemma_index_of(t, i);
                if i < s.len() {
                    assert(s[i] == t[i]);
                    lemma_index_of(s, i);
                }
            }
        }
    }
}

/// `del` keeps keys distinct and denotes a map removal.
pub proof fn lemma_del<V>(s: Seq<(Seq<char>, V)>, k: Seq<char>)
    requires
        keys_unique(s),
    ensures
        keys_unique(del(s, k)),
        to_map(del(s, k)) == to_map(s).remove(k),
        del(s, k).len() == if has_key(s, k) { s.len() - 1 } else { s.len() as int },
{
    if has_key(s, k) {
        let p = index_of(s, k);
        let t = del(s, k);
        assert(t == s.remove(p));
        assert forall|i: int| 0 <= i < t.len() implies #[trigger] t[i] == (if i < p {
            s[i]
        } else {
            s[i + 1]
        }) by {}
        assert(keys_unique(t)) by {
            assert forall|i: int, j: int|
                0 <= i < t.len() && 0 <= j < t.len() && (#[trigger] t[i]).0 == (#[trigger] t[j]).0
                implies i == j by {
                let a = if i < p { i } else { i + 1 };
                let b = if j < p { j } else { j + 1 };
                assert(s[a].0 == s[b].0);
            }
        }
        assert forall|x: Seq<char>| #[trigger] has_key(t, x) == (has_key(s, x) && x != k) by {
            if has_key(t, x) {
                let i = choose|i: int| 0 <= i < t.len() && (#[trigger] t[i]).0 == x;
                let a = if i < p { i } else { i + 1 };
                assert(s[a].0 == x);
                if x == k {
                    assert(s[p].0 == k);
                }
            }
            if has_key(s, x) && x != k {
                let a = choose|a: int| 0 <= a < s.len() && (#[trigger] s[a]).0 == x;
                assert(a != p);
                let i = if a < p { a } else { a - 1 };
                assert(t[i].0 == x);
            }
        }
        assert(to_map(t) =~= to_map(s).remove(k)) by {
            assert forall|x: Seq<char>| has_key(t, x) implies value_of(t, x) == value_of(s, x) by {
                let i = choose|i: int| 0 <= i < t.len() && (#[trigger] t[i]).0 == x;
                lemma_index_of(t, i);
                let a = if i < p { i } else { i + 1 };
                lemma_index_of(s, a);
            }
        }
    } else {
        assert(to_map(s) =~= to_map(s).remove(k));
    }
}

/// A table of values keyed by distinct strings, kept in insertion order.
#[derive(Debug)]
pub struct Table<V> {
    entries: Vec<(String, V)>,
}

impl<V> Table<V> {
    /// The pairs of the table, keys viewed as character sequences.
    pub closed spec fn pairs(&self) -> Seq<(Seq<char>, V)> {
        self.entries@.map_values(|e: (String, V)| (e.0@, e.1))
    }

    /// The table's keys are distinct.
    pub open spec fn wf(&self) -> bool {
        keys_unique(self.pairs())
    }

    /// The map from keys to values that the table holds.
    pub open spec fn view(&self) -> Map<Seq<char>, V> {
        to_map(self.pairs())
    }

    /// An empty table.
    pub fn new() -> (t: Self)
        ensures
            t.wf(),
            t.pairs() == Seq::<(Seq<char>, V)>::empty(),
            t@ == Map::<Seq<char>, V>::empty(),
    {
        let t = Table { entries: Vec::new() };
        assert(t.pairs() =~= Seq::<(Seq<char>, V)>::empty());
        assert(t@ =~= Map::<Seq<char>, V>::empty());
        t
    }

    /// The number of pairs.
    pub fn len(&self) -> (n: usize)
        ensures
            n == self.pairs().len(),
    {
        self.entries.len()
    }

    /// The position of `key`, if the table holds it.
    pub fn position(&self, key: &str) -> (r: Option<usize>)
        requires
            self.wf(),
        ensures
            match r {
                Some(i) => i < self.pairs().len() && self.pairs()[i as int].0 == key@
                    && index_of(self.pairs(), key@) == i,
                None => !has_key(self.pairs(), key@),
            },
            r is Some <==> has_key(self.pairs(), key@),
    {
        let mut i: usize = 0;
        while i < self.entries.len()
            invariant
                i <= self.entries@.len(),
                self.wf(),
                forall|j: int| 0 <= j < i ==> (#[trigger] self.pairs()[j]).0 != key@,
            decreases self.entries@.len() - i,
        {
            if str_eq(self.entries[i].0.as_str(), key) {
                proof {
                    assert(self.pairs()[i as int].0 == key@);
                    lemma_index_of(self.pairs(), i as int);
                }
                return Some(i);
            }
            i = i + 1;
        }
        proof {
            if has_key(self.pairs(), key@) {
                let j = choose|j: int|
                    0 <= j < self.pairs().len() && (#[trigger] self.pairs()[j]).0 == key@;
                assert(self.pairs()[j].0 != key@);
            }
        }
        None
    }

    /// Whether the table holds `key`.
    pub fn contains_key(&self, key: &str) -> (b: bool)
        requires
            self.wf(),
        ensures
            b == self@.contains_key(key@),
    {
        self.position(key).is_some()
    }

    /// The value stored under `key`, if any.
    pub fn get(&self, key: &str) -> (r: Option<&V>)
        requires
            self.wf(),
        ensures
            match r {
                Some(v) => self@.contains_key(key@) && *v == self@[key@],
                None => !self@.contains_key(key@),
            },
    {
        match self.position(key) {
            Some(i) => Some(&self.entries[i].1),
            None => None,
        }
    }

    /// The key of the pair at position `i`.
    pub fn key_at(&self, i: usize) -> (k: &String)
        requires
            i < self.pairs().len(),
        ensures
            k@ == self.pairs()[i as int].0,
    {
        &self.entries[i].0
    }

    /// The value of the pair at position `i`.
    pub fn value_at(&self, i: usize) -> (v: &V)
        requires
            i < self.pairs().len(),
        ensures
            *v == self.pairs()[i as int].1,
    {
        &self.entries[i].1
    }

    /// Stores `value` under `key`, replacing and returning an earlier value.
    pub fn insert(&mut self, key: String, value: V) -> (prev: Option<V>)
        requires
            old(self).wf(),
        ensures
            final(self).wf(),
            final(self).pairs() == put(old(self).pairs(), key@, value),
            final(self)@ == old(self)@.insert(key@, value),
            match prev {
                Some(p) => old(self)@.contains_key(key@) && p == old(self)@[key@],
                None => !old(self)@.contains_key(key@),
            },
    {
        let ghost s = self.pairs();
        proof {
            lemma_put(s, key@, value);
        }
        match self.position(key.as_str()) {
            Some(i) => {
                let ghost k = key@;
                let (_, p) = self.entries.remove(i);
                self.entries.insert(i, (key, value));
                assert(self.pairs() =~= put(s, k, value));
                Some(p)
            },
            None => {
                let ghost k = key@;
                self.entries.push((key, value));
                assert(self.pairs() =~= put(s, k, value));
                None
            },
        }
    }

    /// Removes the pair for `key`, returning its value.
    pub fn remove(&mut self, key: &str) -> (r: Option<V>)
        requires
            old(self).wf(),
        ensures
            final(self).wf(),
            final(self).pairs() == del(old(self).pairs(), key@),
            final(self)@ == old(self)@.remove(key@),
            match r {
                Some(v) => old(self)@.contains_key(key@) && v == old(self)@[key@],
                None => !old(self)@.contains_key(key@),
            },
    {
        let ghost s = self.pairs();
        proof {
            lemma_del(s, key@);
        }
        match self.position(key) {
            Some(i) => {
                let (_, v) = self.entries.remove(i);
                assert(self.pairs() =~= del(s, key@));
                Some(v)
            },
            None => None,
        }
    }

    /// Removes the pair at position `i` and returns it.
    pub fn remove_at(&mut self, i: usize) -> (r: (String, V))
        requires
            old(self).wf(),
            i < old(self).pairs().len(),
        ensures
            final(self).wf(),
            final(self).pairs() == old(self).pairs().remove(i as int),
            (r.0@, r.1) == old(self).pairs()[i as int],
    {
        let ghost s = self.pairs();
        let r = self.entries.remove(i);
        assert(self.pairs() =~= s.remove(i as int));
        proof {
            assert forall|a: int, b: int|
                0 <= a < self.pairs().len() && 0 <= b < self.pairs().len() && (
                #[trigger] self.pairs()[a]).0 == (#[trigger] self.pairs()[b]).0 implies a == b by {
                let x = if a < i { a } else { a + 1 };
                let y = if b < i { b } else { b + 1 };
                assert(s[x].0 == s[y].0);
            }
        }
        r
    }

    /// Puts a pair for a key the table does not hold at position `i`.
    pub fn insert_at(&mut self, i: usize, key: String, value: V)
        requires
            old(self).wf(),
            i <= old(self).pairs().len(),
            !has_key(old(self).pairs(), key@),
        ensures
            final(self).wf(),
            final(self).pairs() == old(self).pairs().insert(i as int, (key@, value)),
    {
        let ghost s = self.pairs();
        let ghost k = key@;
        self.entries.insert(i, (key, value));
        assert(self.pairs() =~= s.insert(i as int, (k, value)));
        proof {
            assert forall|a: int, b: int|
                0 <= a < self.pairs().len() && 0 <= b < self.pairs().len() && (
                #[trigger] self.pairs()[a]).0 == (#[trigger] self.pairs()[b]).0 implies a == b by {
                if a != i && b != i {
                    let x = if a < i { a } else { a - 1 };
                    let y = if b < i { b } else { b - 1 };
                    assert(s[x].0 == s[y].0);
                } else if a == i && b != i {
                    let y = if b < i { b } else { b - 1 };
                    assert(s[y].0 == k);
                } else if b == i && a != i {
                    let x = if a < i { a } else { a - 1 };
                    assert(s[x].0 == k);
                }
            }
        }
    }

    /// Removes every pair.
    pub fn clear(&mut self)
        ensures
            final(self).wf(),
            final(self).pairs() == Seq::<(Seq<char>, V)>::empty(),
            final(self)@ == Map::<Seq<char>, V>::empty(),
    {
        self.entries.clear();
        assert(self.pairs() =~= Seq::<(Seq<char>, V)>::empty());
        assert(self@ =~= Map::<Seq<char>, V>::empty());
    }
}

/// Every pair of `s` is keyed by what `key_of` reads from its value.
pub open spec fn keys_match<V>(s: Seq<(Seq<char>, V)>, key_of: spec_fn(V) -> Seq<char>) -> bool {
    forall|i: int| 0 <= i < s.len() ==> (#[trigger] s[i]).0 == key_of(s[i].1)
}

/// Storing a value under its own key keeps every pair keyed by its value.
pub proof fn lemma_put_keys_match<V>(
    s: Seq<(Seq<char>, V)>,
    k: Seq<char>,
    v: V,
    key_of: spec_fn(V) -> Seq<char>,
)
    requires
        keys_unique(s),
        keys_match(s, key_of),
        key_of(v) == k,
    ensures
        keys_match(put(s, k, v), key_of),
{
    let t = put(s, k, v);
    assert forall|i: int| 0 <= i < t.len() implies (#[trigger] t[i]).0 == key_of(t[i].1) by {
        if has_key(s, k) && i == index_of(s, k) {
        } else if i < s.len() {
            assert(t[i] == s[i]);
        }
    }
}

/// Removing a key keeps every pair keyed by its value.
pub proof fn lemma_del_keys_match<V>(s: Seq<(Seq<char>, V)>, k: Seq<char>, key_of: spec_fn(V) -> Seq<char>)
    requires
        keys_unique(s),
        keys_match(s, key_of),
    ensures
        keys_match(del(s, k), key_of),
{
    let t = del(s, k);
    if has_key(s, k) {
        let p = index_of(s, k);
        assert forall|i: int| 0 <= i < t.len() implies (#[trigger] t[i]).0 == key_of(t[i].1) by {
            if i < p {
                assert(t[i] == s[i]);
            } else {
                assert(t[i] == s[i + 1]);
            }
        }
    }
}

/// The values of `s` in order.
pub open spec fn values_of<V>(s: Seq<(Seq<char>, V)>) -> Seq<V> {
    s.map_values(|e: (Seq<char>, V)| e.1)
}

/// The pairs of `s`, each value under its own key.
pub open spec fn keyed<V>(s: Seq<V>, key_of: spec_fn(V) -> Seq<char>) -> Seq<(Seq<char>, V)> {
    s.map_values(|v: V| (key_of(v), v))
}

/// Pairs keyed by their values are the values, each under its own key.
pub proof fn lemma_keyed_values<V>(s: Seq<(Seq<char>, V)>, key_of: spec_fn(V) -> Seq<char>)
    requires
        keys_match(s, key_of),
    ensures
        keyed(values_of(s), key_of) == s,
{
    assert(keyed(values_of(s), key_of) =~= s);
}

/// Replacing the value at position `i` (key unchanged) is storing under that key.
pub proof fn lemma_update_is_put<V>(s: Seq<(Seq<char>, V)>, i: int, v: V)
    requires
        keys_unique(s),
        0 <= i < s.len(),
    ensures
        s.remove(i).insert(i, (s[i].0, v)) == put(s, s[i].0, v),
        !has_key(s.remove(i), s[i].0),
{
    lemma_index_of(s, i);
    assert(s.remove(i).insert(i, (s[i].0, v)) =~= s.update(i, (s[i].0, v)));
    if has_key(s.remove(i), s[i].0) {
        let j = choose|j: int| 0 <= j < s.remove(i).len() && (#[trigger] s.remove(i)[j]).0 == s[i].0;
        let x = if j < i { j } else { j + 1 };
        assert(s[x].0 == s[i].0);
    }
}

/// The pairs of a table are exactly the entries of its map: every pair is
/// in the map, and every key of the map has a pair.
pub proof fn lemma_pairs_map<V>(t: &Table<V>)
    requires
        t.wf(),
    ensures
        forall|i: int|
            0 <= i < t.pairs().len() ==> t@.contains_key(#[trigger] t.pairs()[i].0)
                && t@[t.pairs()[i].0] == t.pairs()[i].1,
        forall|k: Seq<char>|
            #[trigger] t@.contains_key(k) ==> 0 <= index_of(t.pairs(), k) < t.pairs().len()
                && t.pairs()[index_of(t.pairs(), k)].0 == k,
        t@.dom().finite(),
        t@.len() == t.pairs().len(),
{
    assert forall|i: int| 0 <= i < t.pairs().len() implies t@.contains_key(
        #[trigger] t.pairs()[i].0,
    ) && t@[t.pairs()[i].0] == t.pairs()[i].1 by {
        lemma_index_of(t.pairs(), i);
    }
    lemma_map_len(t.pairs());
}

/// The map of an association list with distinct keys is finite and has one
/// entry per pair.
pub proof fn lemma_map_len<V>(s: Seq<(Seq<char>, V)>)
    requires
        keys_unique(s),
    ensures
        to_map(s).dom().finite(),
        to_map(s).len() == s.len(),
    decreases s.len(),
{
    if s.len() == 0 {
        assert(to_map(s).dom() =~= Set::<Seq<char>>::empty());
    } else {
        let init = s.drop_last();
        let last = s.last();
        assert(keys_unique(init)) by {
            assert forall|i: int, j: int|
                0 <= i < init.len() && 0 <= j < init.len() && (#[trigger] init[i]).0 == (
                #[trigger] init[j]).0 implies i == j by {
                assert(init[i] == s[i] && init[j] == s[j]);
            }
        }
        lemma_map_len(init);
        assert(!has_key(init, last.0)) by {
            if has_key(init, last.0) {
                let i = choose|i: int| 0 <= i < init.len() && (#[trigger] init[i]).0 == last.0;
                assert(s[i].0 == s[s.len() - 1].0);
            }
        }
        assert(s =~= init.push(last));
        lemma_put(init, last.0, last.1);
        assert(put(init, last.0, last.1) == s);
    }
}

/// A record that names the key it is stored under.
pub trait Keyed {
    /// The key of the record.
    spec fn spec_key(&self) -> Seq<char>;

    /// The key of the record.
    fn key(&self) -> (k: String)
        ensures
            k@ == self.spec_key(),
    ;
}

/// The map after storing `vs` in order, each under its own key.
pub open spec fn insert_all<V: Keyed>(m: Map<Seq<char>, V>, vs: Seq<V>) -> Map<Seq<char>, V>
    decreases vs.len(),
{
    if vs.len() == 0 {
        m
    } else {
        insert_all(m, vs.drop_last()).insert(vs.last().spec_key(), vs.last())
    }
}

/// Storing the values of distinct pairs, each keyed by its own key, in
/// order into an empty map gives the map the pairs denote.
pub proof fn lemma_insert_all_values<V: Keyed>(s: Seq<(Seq<char>, V)>)
    requires
        keys_unique(s),
        keys_match(s, |v: V| v.spec_key()),
    ensures
        insert_all(Map::<Seq<char>, V>::empty(), values_of(s)) == to_map(s),
    decreases s.len(),
{
    if s.len() == 0 {
        assert(to_map(s) =~= Map::<Seq<char>, V>::empty());
    } else {
        let init = s.drop_last();
        let last = s.last();
        assert(keys_unique(init)) by {
            assert forall|a: int, b: int|
                0 <= a < init.len() && 0 <= b < init.len() && (#[trigger] init[a]).0 == (
                #[trigger] init[b]).0 implies a == b by {
                assert(init[a] == s[a] && init[b] == s[b]);
            }
        }
        assert(keys_match(init, |v: V| v.spec_key())) by {
            assert forall|a: int| 0 <= a < init.len() implies (#[trigger] init[a]).0 == init[a].1.spec_key() by {
                assert(init[a] == s[a]);
            }
        }
        lemma_insert_all_values(init);
        assert(!has_key(init, last.0)) by {
            if has_key(init, last.0) {
                let j = choose|j: int| 0 <= j < init.len() && (#[trigger] init[j]).0 == last.0;
                assert(s[j].0 == s[s.len() - 1].0);
            }
        }
        assert(put(init, last.0, last.1) =~= s);
        lemma_put(init, last.0, last.1);
        assert(values_of(s).drop_last() =~= values_of(init));
        assert(s[s.len() - 1].0 == s[s.len() - 1].1.spec_key());
    }
}

impl<V: Keyed> Table<V> {
    /// Stores `items` in order, each under its own key; a later item
    /// replaces an earlier one with the same key.
    pub fn load_all(&mut self, items: Vec<V>)
        requires
            old(self).wf(),
            keys_match(old(self).pairs(), |v: V| v.spec_key()),
        ensures
            final(self).wf(),
            keys_match(final(self).pairs(), |v: V| v.spec_key()),
            final(self)@ == insert_all(old(self)@, items@),
    {
        let ghost all = items@;
        let mut rest = items;
        let ghost mut loaded: Seq<V> = Seq::empty();
        while rest.len() > 0
            invariant
                self.wf(),
                keys_match(self.pairs(), |v: V| v.spec_key()),
                loaded + rest@ == all,
                self@ == insert_all(old(self)@, loaded),
            decreases rest@.len(),
        {
            let v = rest.remove(0);
            let ghost vv = v;
            let key = v.key();
            let ghost s = self.pairs();
            proof {
                lemma_put_keys_match(s, key@, v, |v: V| v.spec_key());
                lemma_put(s, key@, v);
            }
            self.insert(key, v);
            proof {
                let prev = loaded;
                loaded = loaded.push(vv);
                assert(loaded.drop_last() =~= prev);
                assert(loaded + rest@ =~= all);
            }
        }
        assert(loaded =~= all);
    }
}

impl<V> Table<V> {
    /// The values, in the order they were stored.
    pub fn values(&self) -> (r: Vec<&V>)
        ensures
            r@.map_values(|v: &V| *v) == values_of(self.pairs()),
    {
        let mut out: Vec<&V> = Vec::new();
        let mut i: usize = 0;
        while i < self.len()
            invariant
                i <= self.pairs().len(),
                out@.map_values(|v: &V| *v) == values_of(self.pairs()).take(i as int),
            decreases self.pairs().len() - i,
        {
            let v = self.value_at(i);
            let ghost before = out@.map_values(|v: &V| *v);
            out.push(v);
            assert(out@.map_values(|v: &V| *v) =~= before.push(*v));
            assert(out@.map_values(|v: &V| *v) =~= values_of(self.pairs()).take(i + 1));
            i = i + 1;
        }
        assert(values_of(self.pairs()).take(i as int) =~= values_of(self.pairs()));
        out
    }
}

} // verus!
