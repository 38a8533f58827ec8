//! A small association list with unique keys, viewed as a map.

use crate::seqs::{filter_out, lemma_filter_all, lemma_filter_one_out};
use vstd::prelude::*;

verus! {

/// What can key an [`AssocMap`]: a value with a mathematical key and an equality
/// that decides it.
pub trait MapKey: Sized {
    /// The mathematical key.
    type Key;

    /// The key that a value stands for.
    spec fn key(&self) -> Self::Key;

    /// Whether two values stand for the same key.
    fn same_key(&self, other: &Self) -> (r: bool)
        ensures
            r == (self.key() == other.key()),
    ;

    /// Another value that stands for the same key.
    fn copy_key(&self) -> (r: Self)
        ensures
            r.key() == self.key(),
    ;
}

impl MapKey for String {
    type Key = Seq<char>;

    open spec fn key(&self) -> Seq<char> {
        self@
    }

    fn same_key(&self, other: &Self) -> (r: bool) {
        *self == *other
    }

    fn copy_key(&self) -> (r: Self) {
        self.as_str().to_owned()
    }
}

impl MapKey for i64 {
    type Key = i64;

    open spec fn key(&self) -> i64 {
        *self
    }

    fn same_key(&self, other: &Self) -> (r: bool) {
        *self == *other
    }

    fn copy_key(&self) -> (r: Self) {
        *self
    }
}

/// A map kept as a list of entries, in the order in which their keys came.
pub struct AssocMap<K: MapKey, V> {
    entries: Vec<(K, V)>,
}

/// The map that a list of entries stands for.
pub open spec fn entries_map<K: MapKey, V>(s: Seq<(K, V)>) -> Map<K::Key, V>
    decreases s.len(),
{
    if s.len() == 0 {
        Map::empty()
    } else {
        entries_map(s.drop_last()).insert(s.last().0.key(), s.last().1)
    }
}

/// Whether no key occurs twice in a list of entries.
pub open spec fn keys_unique<K: MapKey, V>(s: Seq<(K, V)>) -> bool {
    forall|i: int, j: int|
        0 <= i < j < s.len() ==> (#[trigger] s[i]).0.key() != (#[trigger] s[j]).0.key()
}

/// A list of entries holds exactly the keys of its map, each with its value.
pub proof fn lemma_entries<K: MapKey, V>(s: Seq<(K, V)>)
    requires
        keys_unique(s),
    ensures
        forall|i: int|
            0 <= i < s.len() ==> entries_map(s).contains_key((#[trigger] s[i]).0.key())
                && entries_map(s)[s[i].0.key()] == s[i].1,
        forall|k: K::Key| #[trigger]
            entries_map(s).contains_key(k) ==> exists|i: int|
                0 <= i < s.len() && (#[trigger] s[i]).0.key() == k,
    decreases s.len(),
{
    if s.len() > 0 {
        let t = s.drop_last();
        lemma_entries(t);
        assert forall|i: int| 0 <= i < s.len() implies entries_map(s).contains_key(
            (#[trigger] s[i]).0.key(),
        ) && entries_map(s)[s[i].0.key()] == s[i].1 by {
            if i < s.len() - 1 {
                assert(t[i] == s[i]);
            }
        }
        assert forall|k: K::Key| #[trigger] entries_map(s).contains_key(k) implies exists|i: int|
            0 <= i < s.len() && (#[trigger] s[i]).0.key() == k by {
            if k != s.last().0.key() {
                assert(entries_map(t).contains_key(k));
                let i = choose|i: int| 0 <= i < t.len() && (#[trigger] t[i]).0.key() == k;
                assert(s[i].0.key() == k);
            } else {
                assert(s[s.len() - 1].0.key() == k);
            }
        }
    }
}

/// Two lists with unique keys that hold the same entries stand for the same map.
proof fn lemma_same_map<K: MapKey, V>(s: Seq<(K, V)>, m: Map<K::Key, V>)
    requires
        keys_unique(s),
        forall|i: int|
            0 <= i < s.len() ==> m.contains_key((#[trigger] s[i]).0.key()) && m[s[i].0.key()]
                == s[i].1,
        forall|k: K::Key| #[trigger]
            m.contains_key(k) ==> exists|i: int|
                0 <= i < s.len() && (#[trigger] s[i]).0.key() == k,
    ensures
        entries_map(s) == m,
{
    lemma_entries(s);
    assert forall|k: K::Key| #[trigger] entries_map(s).contains_key(k) == m.contains_key(k) by {
        if entries_map(s).contains_key(k) {
            let i = choose|i: int| 0 <= i < s.len() && (#[trigger] s[i]).0.key() == k;
            assert(m.contains_key(s[i].0.key()));
        }
        if m.contains_key(k) {
            let i = choose|i: int| 0 <= i < s.len() && (#[trigger] s[i]).0.key() == k;
            assert(entries_map(s).contains_key(s[i].0.key()));
        }
    }
    assert forall|k: K::Key| #[trigger] entries_map(s).contains_key(k) implies entries_map(s)[k]
        == m[k] by {
        let i = choose|i: int| 0 <= i < s.len() && (#[trigger] s[i]).0.key() == k;
        assert(entries_map(s)[s[i].0.key()] == s[i].1);
        assert(m[s[i].0.key()] == s[i].1);
    }
    assert(entries_map(s) =~= m);
}

impl<K: MapKey, V> View for AssocMap<K, V> {
    type V = Map<K::Key, V>;

    closed spec fn view(&self) -> Map<K::Key, V> {
        entries_map(self.entries@)
    }
}

impl<K: MapKey, V> AssocMap<K, V> {
    /// No key has two entries.
    pub closed spec fn wf(&self) -> bool {
        keys_unique(self.entries@)
    }

    /// The entries, in the order in which their keys came.
    pub closed spec fn list(&self) -> Seq<(K, V)> {
        self.entries@
    }

    /// The keys, in the order in which they came.
    pub open spec fn keys(&self) -> Seq<K::Key> {
        Seq::new(self.list().len(), |i: int| self.list()[i].0.key())
    }

    /// A map's list has one entry for each of its keys, with that key's value.
    pub proof fn lemma_list(&self)
        requires
            self.wf(),
        ensures
            keys_unique(self.list()),
            self.keys().no_duplicates(),
            forall|k: K::Key| #[trigger] self@.contains_key(k) <==> self.keys().contains(k),
            self@ == entries_map(self.list()),
            self.list().len() == 0 <==> self@ == Map::<K::Key, V>::empty(),
            forall|i: int|
                0 <= i < self.list().len() ==> self@.contains_key((#[trigger] self.list()[i]).0.key())
                    && self@[self.list()[i].0.key()] == self.list()[i].1,
            forall|k: K::Key| #[trigger]
                self@.contains_key(k) ==> exists|i: int|
                    0 <= i < self.list().len() && (#[trigger] self.list()[i]).0.key() == k,
    {
        lemma_entries(self.entries@);
        if self.entries@.len() > 0 {
            assert(self@.contains_key(self.entries@[0].0.key()));
        }
        assert forall|k: K::Key| #[trigger] self@.contains_key(k) implies self.keys().contains(
            k,
        ) by {
            let i = choose|i: int| 0 <= i < self.list().len() && (#[trigger] self.list()[i]).0.key() == k;
            assert(self.keys()[i] == k);
        }
        assert forall|k: K::Key| #[trigger] self.keys().contains(k) implies self@.contains_key(
            k,
        ) by {
            let i = choose|i: int| 0 <= i < self.keys().len() && self.keys()[i] == k;
            assert(self@.contains_key(self.list()[i].0.key()));
        }
        assert forall|i: int, j: int|
            0 <= i < self.keys().len() && 0 <= j < self.keys().len() && i
                != j implies self.keys()[i] != self.keys()[j] by {
            if i < j {
                assert(self.list()[i].0.key() != self.list()[j].0.key());
            } else {
                assert(self.list()[j].0.key() != self.list()[i].0.key());
            }
        }
    }

    /// The empty map.
    pub fn new() -> (r: Self)
        ensures
            r.wf(),
            r@ == Map::<K::Key, V>::empty(),
            r.list() == Seq::<(K, V)>::empty(),
    {
        AssocMap { entries: Vec::new() }
    }

    /// How many keys the map holds.
    pub fn len(&self) -> (r: usize)
        ensures
            r == self.list().len(),
    {
        self.entries.len()
    }

    /// The entry at position `i`.
    pub fn entry(&self, i: usize) -> (r: (&K, &V))
        requires
            i < self.list().len(),
        ensures
            *r.0 == self.list()[i as int].0,
            *r.1 == self.list()[i as int].1,
    {
        (&self.entries[i].0, &self.entries[i].1)
    }

    /// Replaces the value at position `i`, and gives the one that was there.
    pub fn set_value(&mut self, i: usize, value: V) -> (r: V)
        requires
            old(self).wf(),
            i < old(self).list().len(),
        ensures
            final(self).wf(),
            r == old(self).list()[i as int].1,
            final(self)@ == old(self)@.insert(old(self).list()[i as int].0.key(), value),
            final(self).keys() == old(self).keys(),
            final(self).list().len() == old(self).list().len(),
            forall|j: int|
                0 <= j < old(self).list().len() ==> (#[trigger] final(self).list()[j]).0.key()
                    == old(self).list()[j].0.key() && final(self).list()[j].1 == (if j == i {
                    value
                } else {
                    old(self).list()[j].1
                }),
    {
        let ghost before = self.entries@;
        let (key, previous) = self.entries.remove(i);
        self.entries.insert(i, (key, value));
        proof {
            let m = entries_map(before).insert(before[i as int].0.key(), value);
            lemma_entries(before);
            let s = self.entries@;
            assert forall|a: int, b: int| 0 <= a < b < s.len() implies (#[trigger] s[a]).0.key() != (
            #[trigger] s[b]).0.key() by {
                assert(before[a].0.key() != before[b].0.key());
            }
            assert forall|j: int| 0 <= j < s.len() implies m.contains_key((#[trigger] s[j]).0.key())
                && m[s[j].0.key()] == s[j].1 by {
                assert(entries_map(before).contains_key(before[j].0.key()));
                if j != i {
                    if j < i {
                        assert(before[j].0.key() != before[i as int].0.key());
                    } else {
                        assert(before[i as int].0.key() != before[j].0.key());
                    }
                }
            }
            assert forall|k: K::Key| #[trigger] m.contains_key(k) implies exists|j: int|
                0 <= j < s.len() && (#[trigger] s[j]).0.key() == k by {
                if k == before[i as int].0.key() {
                    assert(s[i as int].0.key() == k);
                } else {
                    assert(entries_map(before).contains_key(k));
                    let j = choose|j: int|
                        0 <= j < before.len() && (#[trigger] before[j]).0.key() == k;
                    assert(s[j].0.key() == k);
                }
            }
            lemma_same_map(s, m);
            assert(self.keys() =~= old(self).keys());
        }
        previous
    }

    /// The position of a key, where the map holds it.
    pub fn find(&self, key: &K) -> (r: Option<usize>)
        requires
            self.wf(),
        ensures
            r is Some <==> self@.contains_key(key.key()),
            r is Some ==> r->0 < self.list().len() && self.list()[r->0 as int].0.key() == key.key()
                && self.list()[r->0 as int].1 == self@[key.key()],
    {
        proof {
            lemma_entries(self.entries@);
        }
        let mut i: usize = 0;
        while i < self.entries.len()
            invariant
                i <= self.entries.len(),
                self.wf(),
                forall|j: int| 0 <= j < i ==> (#[trigger] self.entries@[j]).0.key() != key.key(),
                forall|j: int|
                    0 <= j < self.entries@.len() ==> self@.contains_key(
                        (#[trigger] self.entries@[j]).0.key(),
                    ) && self@[self.entries@[j].0.key()] == self.entries@[j].1,
            decreases self.entries.len() - i,
        {
            if self.entries[i].0.same_key(key) {
                return Some(i);
            }
            i += 1;
        }
        None
    }

    /// Whether the map holds a key.
    pub fn contains(&self, key: &K) -> (r: bool)
        requires
            self.wf(),
        ensures
            r == self@.contains_key(key.key()),
    {
        self.find(key).is_some()
    }

    /// The value of a key, where the map holds it.
    pub fn get(&self, key: &K) -> (r: Option<&V>)
        requires
            self.wf(),
        ensures
            r is Some <==> self@.contains_key(key.key()),
            r is Some ==> *r->0 == self@[key.key()],
    {
        match self.find(key) {
            Some(i) => Some(&self.entries[i].1),
            None => None,
        }
    }

    /// Gives a key a value, in place of any it had.
    pub fn insert(&mut self, key: K, value: V)
        requires
            old(self).wf(),
        ensures
            final(self).wf(),
            final(self)@ == old(self)@.insert(key.key(), value),
            old(self)@.contains_key(key.key()) ==> final(self).keys() == old(self).keys(),
            !old(self)@.contains_key(key.key()) ==> final(self).keys() == old(self).keys().push(
                key.key(),
            ),
            !old(self)@.contains_key(key.key()) ==> final(self).list() == old(self).list().push(
                (key, value),
            ),
    {
        match self.find(&key) {
            Some(i) => {
                self.set_value(i, value);
            },
            None => {
                let ghost before = self.entries@;
                self.entries.push((key, value));
                proof {
                    let s = self.entries@;
                    assert(s.drop_last() =~= before);
                    lemma_entries(before);
                    assert forall|a: int, b: int| 0 <= a < b < s.len() implies (
                    #[trigger] s[a]).0.key() != (#[trigger] s[b]).0.key() by {
                        assert(s[a] == before[a]);
                        if b == s.len() - 1 {
                            assert(entries_map(before).contains_key(before[a].0.key()));
                        } else {
                            assert(s[b] == before[b]);
                        }
                    }
                    assert(self.keys() =~= old(self).keys().push(key.key()));
                }
            },
        }
    }

    /// Takes the entry at position `i` out of the map.
    pub fn remove_at(&mut self, i: usize) -> (r: (K, V))
        requires
            old(self).wf(),
            i < old(self).list().len(),
        ensures
            final(self).wf(),
            r == old(self).list()[i as int],
            final(self)@ == old(self)@.remove(r.0.key()),
            final(self).list() == old(self).list().remove(i as int),
            final(self).keys() == old(self).keys().remove(i as int),
    {
        let ghost before = self.entries@;
        let r = self.entries.remove(i);
        proof {
            let s = self.entries@;
            let m = entries_map(before).remove(r.0.key());
            lemma_entries(before);
            let back = |j: int| if j < i { j } else { j + 1 };
            assert forall|j: int| 0 <= j < s.len() implies #[trigger] s[j] == before[back(j)] by {}
            assert forall|a: int, b: int| 0 <= a < b < s.len() implies (#[trigger] s[a]).0.key() != (
            #[trigger] s[b]).0.key() by {
                assert(before[back(a)].0.key() != before[back(b)].0.key());
            }
            assert forall|j: int| 0 <= j < s.len() implies m.contains_key((#[trigger] s[j]).0.key())
                && m[s[j].0.key()] == s[j].1 by {
                let o = back(j);
                assert(entries_map(before).contains_key(before[o].0.key()));
                if o < i {
                    assert(before[o].0.key() != before[i as int].0.key());
                } else {
                    assert(before[i as int].0.key() != before[o].0.key());
                }
            }
            assert forall|k: K::Key| #[trigger] m.contains_key(k) implies exists|j: int|
                0 <= j < s.len() && (#[trigger] s[j]).0.key() == k by {
                assert(entries_map(before).contains_key(k));
                let o = choose|o: int| 0 <= o < before.len() && (#[trigger] before[o]).0.key() == k;
                let j = if o < i { o } else { o - 1 };
                assert(s[j] == before[back(j)]);
                assert(s[j].0.key() == k);
            }
            lemma_same_map(s, m);
            assert(self.keys() =~= old(self).keys().remove(i as int));
        }
        r
    }

    /// Takes a key out of the map, with its value.
    pub fn remove(&mut self, key: &K) -> (r: Option<V>)
        requires
            old(self).wf(),
        ensures
            final(self).wf(),
            final(self)@ == old(self)@.remove(key.key()),
            final(self).keys() == filter_out(old(self).keys(), key.key()),
            r is Some <==> old(self)@.contains_key(key.key()),
            r is Some ==> r->0 == old(self)@[key.key()],
    {
        match self.find(key) {
            Some(i) => {
                proof {
                    self.lemma_list();
                    assert(self.keys()[i as int] == key.key());
                    lemma_filter_one_out(self.keys(), i as int);
                }
                let (_, value) = self.remove_at(i);
                Some(value)
            },
            None => {
                proof {
                    self.lemma_list();
                    assert forall|j: int| 0 <= j < self.keys().len() implies #[trigger] self.keys()[j]
                        != key.key() by {
                        assert(self.keys().contains(self.keys()[j]));
                    }
                    lemma_filter_all(self.keys(), |k: K::Key| k != key.key());
                }
                assert(self@.remove(key.key()) =~= self@);
                None
            },
        }
    }
}

} // verus!
