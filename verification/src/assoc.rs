//! A small map that keeps its entries in the order of their insertion.
use crate::process::ProcessId;
use vstd::prelude::*;

verus! {

/// A type whose values can serve as keys: each has a mathematical key, and two values can be
/// compared by it.
pub trait AssocKey: Sized {
    type Key;

    spec fn key(&self) -> Self::Key;

    fn same_key(&self, other: &Self) -> (r: bool)
        ensures
            r == (self.key() == other.key()),
    ;
}

impl AssocKey for u64 {
    type Key = u64;

    open spec fn key(&self) -> u64 {
        *self
    }

    fn same_key(&self, other: &Self) -> (r: bool) {
        *self == *other
    }
}

impl AssocKey for u128 {
    type Key = u128;

    open spec fn key(&self) -> u128 {
        *self
    }

    fn same_key(&self, other: &Self) -> (r: bool) {
        *self == *other
    }
}

impl AssocKey for ProcessId {
    type Key = ProcessId;

    open spec fn key(&self) -> ProcessId {
        *self
    }

    fn same_key(&self, other: &Self) -> (r: bool) {
        *self == *other
    }
}

impl AssocKey for String {
    type Key = Seq<char>;

    open spec fn key(&self) -> Seq<char> {
        self@
    }

    fn same_key(&self, other: &Self) -> (r: bool) {
        *self == *other
    }
}

/// A map from keys to values, as a list of entries with distinct keys.
pub struct Assoc<K: AssocKey, V> {
    entries: Vec<(K, V)>,
}

/// The keys of a list of entries, in order.
pub open spec fn entry_keys<K: AssocKey, V>(s: Seq<(K, V)>) -> Seq<K::Key> {
    Seq::new(s.len(), |i: int| s[i].0.key())
}

/// The map that a list of entries with distinct keys stands for.
pub open spec fn entry_map<K: AssocKey, V>(s: Seq<(K, V)>) -> Map<K::Key, V> {
    Map::new(
        |k: K::Key| exists|i: int| 0 <= i < s.len() && (#[trigger] s[i]).0.key() == k,
        |k: K::Key| s[choose|i: int| 0 <= i < s.len() && (#[trigger] s[i]).0.key() == k].1,
    )
}

/// Whether the keys of a list of entries are distinct.
pub open spec fn distinct_keys<K: AssocKey, V>(s: Seq<(K, V)>) -> bool {
    forall|i: int, j: int|
        0 <= i < s.len() && 0 <= j < s.len() && i != j ==> (#[trigger] s[i]).0.key() != (
        #[trigger] s[j]).0.key()
}

/// Each entry of a list with distinct keys is in its map.
pub proof fn entry_in_map<K: AssocKey, V>(s: Seq<(K, V)>, i: int)
    requires
        distinct_keys(s),
        0 <= i < s.len(),
    ensures
        entry_map(s).dom().contains(s[i].0.key()),
        entry_map(s)[s[i].0.key()] == s[i].1,
{
    let k = s[i].0.key();
    let j = choose|j: int| 0 <= j < s.len() && (#[trigger] s[j]).0.key() == k;
    assert(s[j].0.key() == k);
    assert(i == j);
}

/// The map of a list with distinct keys has as many keys as the list has entries.
pub proof fn entry_map_len<K: AssocKey, V>(s: Seq<(K, V)>)
    requires
        distinct_keys(s),
    ensures
        entry_map(s).dom().finite(),
        entry_map(s).dom().len() == s.len(),
{
    let keys = entry_keys(s);
    assert(keys.no_duplicates()) by {
        assert forall|i: int, j: int|
            0 <= i < keys.len() && 0 <= j < keys.len() && i != j implies keys[i] != keys[j] by {
            assert(s[i].0.key() != s[j].0.key());
        }
    }
    keys.unique_seq_to_set();
    assert(keys.to_set() =~= entry_map(s).dom()) by {
        assert forall|k: K::Key| #[trigger]
            keys.to_set().contains(k) implies entry_map(s).dom().contains(k) by {
            let i = choose|i: int| 0 <= i < keys.len() && keys[i] == k;
            assert(s[i].0.key() == k);
        }
        assert forall|k: K::Key| #[trigger]
            entry_map(s).dom().contains(k) implies keys.to_set().contains(k) by {
            let i = choose|i: int| 0 <= i < s.len() && (#[trigger] s[i]).0.key() == k;
            assert(keys[i] == k);
        }
    }
}

impl<K: AssocKey, V> Assoc<K, V> {
    /// The entries, in the order of their insertion.
    pub closed spec fn items(&self) -> Seq<(K, V)> {
        self.entries@
    }

    /// Validity: no key has two entries.
    pub open spec fn wf(&self) -> bool {
        distinct_keys(self.items())
    }

    pub open spec fn view(&self) -> Map<K::Key, V> {
        entry_map(self.items())
    }

    /// The map without entries.
    pub fn new() -> (r: Self)
        ensures
            r.wf(),
            r.items() == Seq::<(K, V)>::empty(),
            r@ == Map::<K::Key, V>::empty(),
    {
        let r = Assoc { entries: Vec::new() };
        assert(r@ =~= Map::empty());
        r
    }

    /// The number of entries.
    pub fn len(&self) -> (r: usize)
        requires
            self.wf(),
        ensures
            r == self.items().len(),
            r == self@.dom().len(),
            self@.dom().finite(),
    {
        proof {
            entry_map_len(self.items());
        }
        self.entries.len()
    }

    /// The position of the entry with the given key.
    fn position(&self, k: &K) -> (r: Option<usize>)
        requires
            self.wf(),
        ensures
            match r {
                Some(i) => i < self.items().len() && self.items()[i as int].0.key() == k.key()
                    && self@.dom().contains(k.key()) && self@[k.key()] == self.items()[i as int].1,
                None => !self@.dom().contains(k.key()),
            },
    {
        let mut i: usize = 0;
        while i < self.entries.len()
            invariant
                self.wf(),
                i <= self.entries.len(),
                forall|j: int| 0 <= j < i ==> (#[trigger] self.items()[j]).0.key() != k.key(),
            decreases self.entries.len() - i,
        {
            if self.entries[i].0.same_key(k) {
                proof {
                    entry_in_map(self.items(), i as int);
                }
                return Some(i);
            }
            i = i + 1;
        }
        None
    }

    /// Whether the map has an entry for the key.
    pub fn contains_key(&self, k: &K) -> (r: bool)
        requires
            self.wf(),
        ensures
            r == self@.dom().contains(k.key()),
    {
        match self.position(k) {
            Some(_) => true,
            None => false,
        }
    }

    /// The value of the key, if it has one.
    pub fn get(&self, k: &K) -> (r: Option<&V>)
        requires
            self.wf(),
        ensures
            match r {
                Some(v) => self@.dom().contains(k.key()) && *v == self@[k.key()],
                None => !self@.dom().contains(k.key()),
            },
    {
        match self.position(k) {
            Some(i) => Some(&self.entries[i].1),
            None => None,
        }
    }

    /// The value of the key, if it has one, to be changed.
    pub fn get_mut(&mut self, k: &K) -> (r: Option<&mut V>)
        requires
            old(self).wf(),
        ensures
            final(self).wf(),
            match r {
                Some(v) => old(self)@.dom().contains(k.key()) && *v == old(self)@[k.key()]
                    && final(self)@ == old(self)@.insert(k.key(), *final(v)),
                None => !old(self)@.dom().contains(k.key()) && *final(self) == *old(self),
            },
    {
        match self.position(k) {
            Some(i) => {
                proof {
                    assert forall|v: V|
                        #![trigger self.items().update(i as int, (self.items()[i as int].0, v))]
                        {
                            let s = self.items();
                            let t = s.update(i as int, (s[i as int].0, v));
                            distinct_keys(t) && entry_map(t) == entry_map(s).insert(k.key(), v)
                        } by {
                        lemma_update(self.items(), i as int, v);
                    }
                }
                Some(&mut self.entries[i].1)
            },
            None => None,
        }
    }

    /// The entry at a position.
    pub fn entry(&self, i: usize) -> (r: (&K, &V))
        requires
            self.wf(),
            i < self.items().len(),
        ensures
            *r.0 == self.items()[i as int].0,
            *r.1 == self.items()[i as int].1,
            self@.dom().contains(r.0.key()),
            self@[r.0.key()] == *r.1,
    {
        proof {
            entry_in_map(self.items(), i as int);
        }
        let e = &self.entries[i];
        (&e.0, &e.1)
    }

    /// Gives the key a value. A key that had one keeps its place; a new key comes last.
    pub fn insert(&mut self, k: K, v: V) -> (r: Option<V>)
        requires
            old(self).wf(),
        ensures
            final(self).wf(),
            final(self)@ == old(self)@.insert(k.key(), v),
            match r {
                Some(w) => old(self)@.dom().contains(k.key()) && w == old(self)@[k.key()],
                None => !old(self)@.dom().contains(k.key()) && final(self).items() == old(
                    self,
                ).items().push((k, v)),
            },
    {
        let ghost before = self.items();
        match self.position(&k) {
            Some(i) => {
                let ghost key = k.key();
                let prev = self.entries.remove(i);
                self.entries.insert(i, (k, v));
                proof {
                    let after = self.items();
                    assert(after =~= before.update(i as int, (k, v)));
                    assert(distinct_keys(after)) by {
                        assert forall|a: int, b: int|
                            0 <= a < after.len() && 0 <= b < after.len() && a != b implies (
                        #[trigger] after[a]).0.key() != (#[trigger] after[b]).0.key() by {
                            assert(before[a].0.key() != before[b].0.key());
                        }
                    }
                    assert forall|x: K::Key|
                        entry_map(after).dom().contains(x) == entry_map(before).insert(
                            key,
                            v,
                        ).dom().contains(x) by {
                        if entry_map(after).dom().contains(x) {
                            let a = choose|a: int|
                                0 <= a < after.len() && (#[trigger] after[a]).0.key() == x;
                            entry_in_map(before, a);
                        }
                        if entry_map(before).dom().contains(x) {
                            let a = choose|a: int|
                                0 <= a < before.len() && (#[trigger] before[a]).0.key() == x;
                            assert(after[a].0.key() == x);
                        }
                        assert(after[i as int].0.key() == key);
                    }
                    assert forall|x: K::Key| #[trigger]
                        entry_map(after).dom().contains(x) implies entry_map(after)[x]
                        == entry_map(before).insert(key, v)[x] by {
                        let a = choose|a: int|
                            0 <= a < after.len() && (#[trigger] after[a]).0.key() == x;
                        entry_in_map(after, a);
                        entry_in_map(before, a);
                        if a == i {
                        }
                    }
                    assert(self@ =~= entry_map(before).insert(key, v));
                }
                Some(prev.1)
            },
            None => {
                let ghost key = k.key();
                self.entries.push((k, v));
                proof {
                    let after = self.items();
                    assert(after =~= before.push((k, v)));
                    lemma_push(before, (k, v));
                }
                None
            },
        }
    }

    /// Takes the entry of a key out; the others keep their order.
    pub fn remove(&mut self, k: &K) -> (r: Option<V>)
        requires
            old(self).wf(),
        ensures
            final(self).wf(),
            final(self)@ == old(self)@.remove(k.key()),
            match r {
                Some(w) => old(self)@.dom().contains(k.key()) && w == old(self)@[k.key()],
                None => !old(self)@.dom().contains(k.key()) && *final(self) == *old(self),
            },
    {
        let ghost before = self.items();
        match self.position(k) {
            Some(i) => {
                let prev = self.entries.remove(i);
                proof {
                    lemma_remove(before, i as int);
                }
                Some(prev.1)
            },
            None => {
                assert(self@ =~= entry_map(before).remove(k.key()));
                None
            },
        }
    }

    /// Takes the entry at a position out; the others keep their order.
    pub fn remove_at(&mut self, i: usize) -> (r: (K, V))
        requires
            old(self).wf(),
            i < old(self).items().len(),
        ensures
            final(self).wf(),
            r == old(self).items()[i as int],
            final(self).items() == old(self).items().remove(i as int),
            final(self)@ == old(self)@.remove(r.0.key()),
            old(self)@.dom().contains(r.0.key()),
            old(self)@[r.0.key()] == r.1,
    {
        proof {
            entry_in_map(self.items(), i as int);
            lemma_remove(self.items(), i as int);
        }
        self.entries.remove(i)
    }
}

/// An entry with a new key, put behind a list of entries, extends its map.
pub proof fn lemma_push<K: AssocKey, V>(s: Seq<(K, V)>, e: (K, V))
    requires
        distinct_keys(s),
        !entry_map(s).dom().contains(e.0.key()),
    ensures
        distinct_keys(s.push(e)),
        entry_map(s.push(e)) == entry_map(s).insert(e.0.key(), e.1),
{
    let after = s.push(e);
    let key = e.0.key();
    assert forall|a: int, b: int|
        0 <= a < after.len() && 0 <= b < after.len() && a != b implies (#[trigger] after[a]).0.key()
        != (#[trigger] after[b]).0.key() by {
        if a < s.len() {
            assert(s[a].0.key() != key);
        }
        if b < s.len() {
            assert(s[b].0.key() != key);
        }
        if a < s.len() && b < s.len() {
            assert(s[a].0.key() != s[b].0.key());
        }
    }
    assert forall|x: K::Key|
        entry_map(after).dom().contains(x) == entry_map(s).insert(key, e.1).dom().contains(x) by {
        if entry_map(after).dom().contains(x) {
            let a = choose|a: int| 0 <= a < after.len() && (#[trigger] after[a]).0.key() == x;
            if a < s.len() {
                entry_in_map(s, a);
            }
        }
        if entry_map(s).dom().contains(x) {
            let a = choose|a: int| 0 <= a < s.len() && (#[trigger] s[a]).0.key() == x;
            assert(after[a].0.key() == x);
        }
        assert(after[s.len() as int].0.key() == key);
    }
    assert forall|x: K::Key| #[trigger] entry_map(after).dom().contains(x) implies entry_map(
        after,
    )[x] == entry_map(s).insert(key, e.1)[x] by {
        let a = choose|a: int| 0 <= a < after.len() && (#[trigger] after[a]).0.key() == x;
        entry_in_map(after, a);
        if a < s.len() {
            entry_in_map(s, a);
        }
    }
    assert(entry_map(after) =~= entry_map(s).insert(key, e.1));
}

/// A list of entries with a new value for one stands for the map with that value.
pub proof fn lemma_update<K: AssocKey, V>(s: Seq<(K, V)>, i: int, v: V)
    requires
        distinct_keys(s),
        0 <= i < s.len(),
    ensures
        distinct_keys(s.update(i, (s[i].0, v))),
        entry_map(s.update(i, (s[i].0, v))) == entry_map(s).insert(s[i].0.key(), v),
{
    let after = s.update(i, (s[i].0, v));
    let key = s[i].0.key();
    assert forall|a: int, b: int|
        0 <= a < after.len() && 0 <= b < after.len() && a != b implies (#[trigger] after[a]).0.key()
        != (#[trigger] after[b]).0.key() by {
        assert(s[a].0.key() != s[b].0.key());
    }
    assert forall|x: K::Key|
        entry_map(after).dom().contains(x) == entry_map(s).insert(key, v).dom().contains(x) by {
        if entry_map(after).dom().contains(x) {
            let a = choose|a: int| 0 <= a < after.len() && (#[trigger] after[a]).0.key() == x;
            entry_in_map(s, a);
        }
        if entry_map(s).dom().contains(x) {
            let a = choose|a: int| 0 <= a < s.len() && (#[trigger] s[a]).0.key() == x;
            assert(after[a].0.key() == x);
        }
        assert(after[i].0.key() == key);
    }
    assert forall|x: K::Key| #[trigger] entry_map(after).dom().contains(x) implies entry_map(
        after,
    )[x] == entry_map(s).insert(key, v)[x] by {
        let a = choose|a: int| 0 <= a < after.len() && (#[trigger] after[a]).0.key() == x;
        entry_in_map(after, a);
        entry_in_map(s, a);
    }
    assert(entry_map(after) =~= entry_map(s).insert(key, v));
}

/// A list of entries without one of them stands for the map without that entry's key.
pub proof fn lemma_remove<K: AssocKey, V>(s: Seq<(K, V)>, i: int)
    requires
        distinct_keys(s),
        0 <= i < s.len(),
    ensures
        distinct_keys(s.remove(i)),
        entry_map(s.remove(i)) == entry_map(s).remove(s[i].0.key()),
{
    let after = s.remove(i);
    let key = s[i].0.key();
    let back = |a: int| if a < i { a } else { a + 1 };
    assert forall|a: int| 0 <= a < after.len() implies #[trigger] after[a] == s[back(a)] by {}
    assert forall|a: int, b: int|
        0 <= a < after.len() && 0 <= b < after.len() && a != b implies (#[trigger] after[a]).0.key()
        != (#[trigger] after[b]).0.key() by {
        assert(s[back(a)].0.key() != s[back(b)].0.key());
    }
    assert forall|x: K::Key|
        entry_map(after).dom().contains(x) == entry_map(s).remove(key).dom().contains(x) by {
        if entry_map(after).dom().contains(x) {
            let a = choose|a: int| 0 <= a < after.len() && (#[trigger] after[a]).0.key() == x;
            assert(after[a] == s[back(a)]);
            assert(s[back(a)].0.key() != s[i].0.key());
        }
        if entry_map(s).dom().contains(x) && x != key {
            let a = choose|a: int| 0 <= a < s.len() && (#[trigger] s[a]).0.key() == x;
            let b = if a < i { a } else { a - 1 };
            assert(after[b].0.key() == x);
        }
    }
    assert forall|x: K::Key| #[trigger] entry_map(after).dom().contains(x) implies entry_map(
        after,
    )[x] == entry_map(s).remove(key)[x] by {
        let a = choose|a: int| 0 <= a < after.len() && (#[trigger] after[a]).0.key() == x;
        entry_in_map(after, a);
        assert(after[a] == s[back(a)]);
        entry_in_map(s, back(a));
    }
    assert(entry_map(after) =~= entry_map(s).remove(key));
}

/// A value that was put under a key is there until it is removed, which gives it back; values
/// under other keys stay.
pub proof fn values_stay_until_removed<K: AssocKey, V>(
    before: Assoc<K, V>,
    k: K,
    v: V,
    put: Assoc<K, V>,
    had: Option<V>,
    removed: Assoc<K, V>,
    given: Option<V>,
    there: bool,
    gone: bool,
    other: K,
    was: bool,
    still: bool,
)
    requires
        other.key() != k.key(),
        exists|m: &mut Assoc<K, V>|
            *m == before && *final(m) == put && #[trigger] call_ensures(
                Assoc::<K, V>::insert,
                (m, k, v),
                had,
            ),
        call_ensures(Assoc::<K, V>::contains_key, (&put, &k), there),
        exists|m: &mut Assoc<K, V>|
            *m == put && *final(m) == removed && #[trigger] call_ensures(
                Assoc::<K, V>::remove,
                (m, &k),
                given,
            ),
        call_ensures(Assoc::<K, V>::contains_key, (&removed, &k), gone),
        call_ensures(Assoc::<K, V>::contains_key, (&before, &other), was),
        call_ensures(Assoc::<K, V>::contains_key, (&removed, &other), still),
    ensures
        there,
        given == Some(v),
        !gone,
        still == was,
{
}

} // verus!
