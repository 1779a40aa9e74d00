//! Small insertion-ordered maps and sets.
//!
//! Entries are kept in a vector in the order in which their keys were first
//! inserted, and no key occurs twice. A map is viewed as a mathematical
//! `Map` from key views to values, with `keys()` giving the order; a set is
//! viewed as the sequence of its members.

use crate::keys::MapKey;
use vstd::prelude::*;

verus! {

/// Removes the one occurrence of `k` from a duplicate-free sequence.
pub open spec fn seq_without<A>(s: Seq<A>, k: A) -> Seq<A> {
    if s.contains(k) {
        s.remove(s.index_of(k))
    } else {
        s
    }
}

/// In a duplicate-free sequence the position of an element is unique, so
/// removing it leaves exactly the other elements, in order.
pub proof fn lemma_seq_without<A>(s: Seq<A>, i: int)
    requires
        s.no_duplicates(),
        0 <= i < s.len(),
    ensures
        s.index_of(s[i]) == i,
        seq_without(s, s[i]) == s.remove(i),
        seq_without(s, s[i]).no_duplicates(),
        !seq_without(s, s[i]).contains(s[i]),
        forall|x: A| x != s[i] ==> (seq_without(s, s[i]).contains(x) <==> s.contains(x)),
{
    let r = s.remove(i);
    assert(s.contains(s[i]));
    assert forall|x: A| x != s[i] implies (r.contains(x) <==> s.contains(x)) by {
        if s.contains(x) {
            let j = choose|j: int| 0 <= j < s.len() && s[j] == x;
            if j < i {
                assert(r[j] == x);
            } else {
                assert(r[j - 1] == x);
            }
        }
        if r.contains(x) {
            let j = choose|j: int| 0 <= j < r.len() && r[j] == x;
            if j < i {
                assert(s[j] == x);
            } else {
                assert(s[j + 1] == x);
            }
        }
    }
    if r.contains(s[i]) {
        let j = choose|j: int| 0 <= j < r.len() && r[j] == s[i];
        if j < i {
            assert(s[j] == s[i]);
        } else {
            assert(s[j + 1] == s[i]);
        }
    }
}

/// A membership test on a sequence extended by one element.
pub proof fn lemma_push_contains<A>(s: Seq<A>, a: A)
    ensures
        forall|x: A| s.push(a).contains(x) <==> (x == a || s.contains(x)),
{
    assert forall|x: A| s.push(a).contains(x) <==> (x == a || s.contains(x)) by {
        if x == a {
            assert(s.push(a)[s.len() as int] == a);
        }
        if s.contains(x) {
            let j = choose|j: int| 0 <= j < s.len() && s[j] == x;
            assert(s.push(a)[j] == x);
        }
        if s.push(a).contains(x) {
            let j = choose|j: int| 0 <= j < s.push(a).len() && s.push(a)[j] == x;
            if j < s.len() {
                assert(s[j] == x);
            }
        }
    }
}

/// An insertion-ordered map as a mathematical value: the keys in the order
/// in which they were first inserted, and the value of each.
#[verifier::reject_recursive_types(K)]
pub struct OrdMap<K, V> {
    pub keys: Seq<K>,
    pub map: Map<K, V>,
}

impl<K, V> OrdMap<K, V> {
    /// The map without entries.
    pub open spec fn empty() -> Self {
        OrdMap { keys: Seq::empty(), map: Map::empty() }
    }

    /// No key is listed twice, and the listed keys are those that have a
    /// value.
    pub open spec fn wf(self) -> bool {
        &&& self.keys.no_duplicates()
        &&& forall|k: K| self.keys.contains(k) <==> self.map.contains_key(k)
    }

    /// The key has a value.
    pub open spec fn contains_key(self, k: K) -> bool {
        self.map.contains_key(k)
    }

    /// The value of the key, if it has one.
    pub open spec fn get(self, k: K) -> Option<V> {
        if self.map.contains_key(k) {
            Some(self.map[k])
        } else {
            None
        }
    }

    /// The map with `v` under `k`. A new key goes to the end of the order.
    pub open spec fn insert(self, k: K, v: V) -> Self {
        OrdMap {
            keys: if self.map.contains_key(k) {
                self.keys
            } else {
                self.keys.push(k)
            },
            map: self.map.insert(k, v),
        }
    }

    /// The map without `k`.
    pub open spec fn remove(self, k: K) -> Self {
        OrdMap { keys: seq_without(self.keys, k), map: self.map.remove(k) }
    }
}

/// Insertion keeps an ordered map well formed.
pub proof fn lemma_ordmap_insert<K, V>(m: OrdMap<K, V>, k: K, v: V)
    requires
        m.wf(),
    ensures
        m.insert(k, v).wf(),
{
    let r = m.insert(k, v);
    lemma_push_contains(m.keys, k);
    assert forall|x: K| r.keys.contains(x) <==> r.map.contains_key(x) by {
        assert(m.keys.contains(x) <==> m.map.contains_key(x));
    }
    if !m.map.contains_key(k) {
        assert(!m.keys.contains(k));
        assert forall|i: int, j: int|
            0 <= i < r.keys.len() && 0 <= j < r.keys.len() && i != j implies r.keys[i]
            != r.keys[j] by {
            if i < m.keys.len() {
                assert(m.keys.contains(m.keys[i]));
            }
            if j < m.keys.len() {
                assert(m.keys.contains(m.keys[j]));
            }
        }
    }
}

/// Removal keeps an ordered map well formed.
pub proof fn lemma_ordmap_remove<K, V>(m: OrdMap<K, V>, k: K)
    requires
        m.wf(),
    ensures
        m.remove(k).wf(),
{
    let r = m.remove(k);
    if m.keys.contains(k) {
        let i = choose|i: int| 0 <= i < m.keys.len() && m.keys[i] == k;
        lemma_seq_without(m.keys, i);
    }
    assert forall|x: K| r.keys.contains(x) <==> r.map.contains_key(x) by {
        assert(m.keys.contains(x) <==> m.map.contains_key(x));
    }
}

/// What a map can hold as a value: anything that has a mathematical view.
pub trait MapValue: View {

}

impl<T: View> MapValue for T {

}

/// A map from keys to values that remembers insertion order.
///
/// Its view is an [`OrdMap`] over the views of its keys and values.
pub struct AssocMap<K: MapKey, V: View> {
    entries: Vec<(K, V)>,
}

impl<K: MapKey, V: View> AssocMap<K, V> {
    #[verifier::type_invariant]
    spec fn inv(self) -> bool {
        self.key_seq().no_duplicates()
    }

    spec fn key_seq(&self) -> Seq<K::V> {
        Seq::new(self.entries@.len(), |i: int| self.entries@[i].0@)
    }

    /// The map as a mathematical value.
    pub closed spec fn view(&self) -> OrdMap<K::V, V::V> {
        OrdMap {
            keys: self.key_seq(),
            map: Map::new(
                |k: K::V| self.key_seq().contains(k),
                |k: K::V| self.entries@[self.key_seq().index_of(k)].1@,
            ),
        }
    }

    proof fn lemma_entry(&self, i: int)
        requires
            self.key_seq().no_duplicates(),
            0 <= i < self.entries@.len(),
        ensures
            self@.map.contains_key(self.entries@[i].0@),
            self@.map[self.entries@[i].0@] == self.entries@[i].1@,
            self.key_seq().index_of(self.entries@[i].0@) == i,
            self@.keys[i] == self.entries@[i].0@,
    {
        let k = self.entries@[i].0@;
        assert(self.key_seq()[i] == k);
        let j = self.key_seq().index_of(k);
        assert(0 <= j < self.key_seq().len() && self.key_seq()[j] == k);
    }

    /// An empty map.
    pub fn new() -> (r: Self)
        ensures
            r@ == OrdMap::<K::V, V::V>::empty(),
    {
        let r = AssocMap { entries: Vec::new() };
        assert(r@.keys =~= Seq::<K::V>::empty());
        assert(r@.map =~= Map::<K::V, V::V>::empty());
        r
    }

    /// The number of entries.
    pub fn len(&self) -> (n: usize)
        ensures
            n == self@.keys.len(),
            self@.wf(),
    {
        proof {
            use_type_invariant(self);
        }
        self.entries.len()
    }

    /// True when the map has no entry.
    pub fn is_empty(&self) -> (r: bool)
        ensures
            r == (self@.keys.len() == 0),
            self@.wf(),
    {
        proof {
            use_type_invariant(self);
        }
        self.entries.len() == 0
    }

    /// The position of `key` in the insertion order, if present.
    pub fn position(&self, key: &K) -> (r: Option<usize>)
        ensures
            self@.wf(),
            match r {
                Some(i) => 0 <= i < self@.keys.len() && self@.keys[i as int] == key@
                    && self@.keys.index_of(key@) == i,
                None => !self@.map.contains_key(key@),
            },
    {
        proof {
            use_type_invariant(self);
        }
        let mut i: usize = 0;
        while i < self.entries.len()
            invariant
                i <= self.entries@.len(),
                self.key_seq().no_duplicates(),
                forall|j: int| 0 <= j < i ==> self.key_seq()[j] != key@,
            decreases self.entries@.len() - i,
        {
            if self.entries[i].0.same_key(key) {
                proof {
                    self.lemma_entry(i as int);
                }
                return Some(i);
            }
            i += 1;
        }
        None
    }

    /// True when `key` has an entry.
    pub fn contains_key(&self, key: &K) -> (r: bool)
        ensures
            r == self@.map.contains_key(key@),
            self@.wf(),
    {
        self.position(key).is_some()
    }

    /// The value stored under `key`, if any.
    pub fn get(&self, key: &K) -> (r: Option<&V>)
        ensures
            self@.wf(),
            match r {
                Some(v) => self@.get(key@) == Some(v@),
                None => self@.get(key@) is None,
            },
    {
        match self.position(key) {
            Some(i) => {
                proof {
                    self.lemma_entry(i as int);
                }
                Some(&self.entries[i].1)
            },
            None => None,
        }
    }

    /// The key at position `i` of the insertion order.
    pub fn key_at(&self, i: usize) -> (r: &K)
        requires
            i < self@.keys.len(),
        ensures
            r@ == self@.keys[i as int],
            self@.map.contains_key(r@),
            self@.wf(),
    {
        proof {
            use_type_invariant(self);
            self.lemma_entry(i as int);
        }
        &self.entries[i].0
    }

    /// The value at position `i` of the insertion order.
    pub fn value_at(&self, i: usize) -> (r: &V)
        requires
            i < self@.keys.len(),
        ensures
            self@.map.contains_key(self@.keys[i as int]),
            self@.map[self@.keys[i as int]] == r@,
            self@.wf(),
    {
        proof {
            use_type_invariant(self);
            self.lemma_entry(i as int);
        }
        &self.entries[i].1
    }

    /// Stores `value` under `key`, returning the value it replaces.
    ///
    /// A new key goes to the end of the insertion order; a key already
    /// present keeps its place.
    pub fn insert(&mut self, key: K, value: V) -> (r: Option<V>)
        ensures
            final(self)@ == old(self)@.insert(key@, value@),
            final(self)@.wf(),
            old(self)@.wf(),
            match r {
                Some(v) => old(self)@.get(key@) == Some(v@),
                None => old(self)@.get(key@) is None,
            },
    {
        proof {
            use_type_invariant(&*self);
        }
        let ghost before = *self;
        let ghost kv = key@;
        let ghost vv = value@;
        let pos = self.position(&key);
        let mut entries: Vec<(K, V)> = Vec::new();
        core::mem::swap(&mut self.entries, &mut entries);
        let r = match pos {
            Some(i) => {
                let (k0, v0) = entries.remove(i);
                entries.insert(i, (key, value));
                proof {
                    before.lemma_entry(i as int);
                    assert(Seq::new(entries@.len(), |j: int| entries@[j].0@) =~= before.key_seq());
                }
                Some(v0)
            },
            None => {
                entries.push((key, value));
                proof {
                    assert(Seq::new(entries@.len(), |j: int| entries@[j].0@)
                        =~= before.key_seq().push(kv));
                    lemma_push_contains(before.key_seq(), kv);
                    assert(before.key_seq().push(kv).no_duplicates());
                }
                None
            },
        };
        self.entries = entries;
        proof {
            let target = before@.insert(kv, vv);
            assert(self@.keys =~= target.keys);
            lemma_push_contains(before.key_seq(), kv);
            assert forall|k: K::V| self@.map.contains_key(k) implies #[trigger] self@.map[k]
                == target.map[k] by {
                let j = self.key_seq().index_of(k);
                assert(0 <= j < self.key_seq().len() && self.key_seq()[j] == k);
                self.lemma_entry(j);
                if k != kv {
                    before.lemma_entry(j);
                }
            }
            assert(self@.map =~= target.map);
        }
        r
    }

    /// Removes the entry of `key`, returning its value.
    pub fn remove(&mut self, key: &K) -> (r: Option<V>)
        ensures
            final(self)@ == old(self)@.remove(key@),
            final(self)@.wf(),
            old(self)@.wf(),
            match r {
                Some(v) => old(self)@.get(key@) == Some(v@),
                None => old(self)@.get(key@) is None,
            },
    {
        proof {
            use_type_invariant(&*self);
        }
        let ghost before = *self;
        match self.position(key) {
            Some(i) => {
                let mut entries: Vec<(K, V)> = Vec::new();
                core::mem::swap(&mut self.entries, &mut entries);
                let (k0, v0) = entries.remove(i);
                proof {
                    before.lemma_entry(i as int);
                    lemma_seq_without(before.key_seq(), i as int);
                    assert(Seq::new(entries@.len(), |j: int| entries@[j].0@)
                        =~= before.key_seq().remove(i as int));
                }
                self.entries = entries;
                proof {
                    assert(self@.keys =~= before@.keys.remove(i as int));
                    assert forall|k: K::V| self@.map.contains_key(k) implies #[trigger] self@.map[k]
                        == before@.map[k] by {
                        let j = self.key_seq().index_of(k);
                        assert(0 <= j < self.key_seq().len() && self.key_seq()[j] == k);
                        self.lemma_entry(j);
                        if j < i {
                            before.lemma_entry(j);
                        } else {
                            before.lemma_entry(j + 1);
                        }
                    }
                    assert(self@.map =~= before@.map.remove(key@));
                }
                Some(v0)
            },
            None => {
                proof {
                    assert(self@.map =~= before@.map.remove(key@));
                }
                None
            },
        }
    }

    /// Removes and returns the entry that was inserted last.
    pub fn pop(&mut self) -> (r: Option<(K, V)>)
        ensures
            final(self)@.wf(),
            old(self)@.wf(),
            match r {
                Some((k, v)) => old(self)@.keys.len() > 0 && k@ == old(self)@.keys.last()
                    && old(self)@.get(k@) == Some(v@) && final(self)@ == old(self)@.remove(k@)
                    && final(self)@.keys == old(self)@.keys.drop_last(),
                None => old(self)@.keys.len() == 0 && final(self)@ == old(self)@,
            },
    {
        proof {
            use_type_invariant(&*self);
        }
        let ghost before = *self;
        let n = self.entries.len();
        if n == 0 {
            return None;
        }
        let mut entries: Vec<(K, V)> = Vec::new();
        core::mem::swap(&mut self.entries, &mut entries);
        let (k0, v0) = entries.remove(n - 1);
        proof {
            before.lemma_entry(n - 1);
            assert(before.key_seq().remove(n - 1) =~= before.key_seq().drop_last());
            lemma_seq_without(before.key_seq(), n - 1);
            assert(Seq::new(entries@.len(), |j: int| entries@[j].0@)
                =~= before.key_seq().drop_last());
        }
        self.entries = entries;
        proof {
            assert(self@.keys =~= before@.keys.drop_last());
            assert forall|k: K::V| self@.map.contains_key(k) implies #[trigger] self@.map[k]
                == before@.map[k] by {
                let j = self.key_seq().index_of(k);
                assert(0 <= j < self.key_seq().len() && self.key_seq()[j] == k);
                self.lemma_entry(j);
                before.lemma_entry(j);
            }
            assert(self@.map =~= before@.map.remove(k0@));
        }
        Some((k0, v0))
    }
}

/// A set of keys that remembers insertion order.
///
/// Its view is the sequence of its members, without repetition.
pub struct KeySet<K: MapKey> {
    members: AssocMap<K, ()>,
}

impl<K: MapKey> KeySet<K> {
    /// The members, in insertion order.
    pub closed spec fn view(&self) -> Seq<K::V> {
        self.members@.keys
    }

    /// An empty set.
    pub fn new() -> (r: Self)
        ensures
            r@ == Seq::<K::V>::empty(),
    {
        KeySet { members: AssocMap::new() }
    }

    /// The number of members.
    pub fn len(&self) -> (n: usize)
        ensures
            n == self@.len(),
            self@.no_duplicates(),
    {
        self.members.len()
    }

    /// True when the set has no member.
    pub fn is_empty(&self) -> (r: bool)
        ensures
            r == (self@.len() == 0),
            self@.no_duplicates(),
    {
        self.members.is_empty()
    }

    /// True when `key` is a member.
    pub fn contains(&self, key: &K) -> (r: bool)
        ensures
            r == self@.contains(key@),
            self@.no_duplicates(),
    {
        self.members.contains_key(key)
    }

    /// The member at position `i`.
    pub fn key_at(&self, i: usize) -> (r: &K)
        requires
            i < self@.len(),
        ensures
            r@ == self@[i as int],
            self@.no_duplicates(),
    {
        self.members.key_at(i)
    }

    /// Adds `key`; returns true when it was not a member before.
    pub fn insert(&mut self, key: K) -> (r: bool)
        ensures
            r == !old(self)@.contains(key@),
            final(self)@ == if r {
                old(self)@.push(key@)
            } else {
                old(self)@
            },
            final(self)@.no_duplicates(),
            old(self)@.no_duplicates(),
    {
        let present = self.members.contains_key(&key);
        if !present {
            self.members.insert(key, ());
        }
        !present
    }

    /// Removes `key`; returns true when it was a member.
    pub fn remove(&mut self, key: &K) -> (r: bool)
        ensures
            r == old(self)@.contains(key@),
            final(self)@ == seq_without(old(self)@, key@),
            final(self)@.no_duplicates(),
            old(self)@.no_duplicates(),
    {
        let present = self.members.contains_key(key);
        let old_value = self.members.remove(key);
        present
    }

    /// A copy of the set.
    pub fn duplicate(&self) -> (r: Self)
        ensures
            r@ == self@,
    {
        let mut out: KeySet<K> = KeySet::new();
        let n = self.len();
        let mut i: usize = 0;
        while i < n
            invariant
                i <= n,
                n == self@.len(),
                self@.no_duplicates(),
                out@ == self@.subrange(0, i as int),
            decreases n - i,
        {
            let k = self.key_at(i).clone_key();
            proof {
                if out@.contains(k@) {
                    let j = choose|j: int| 0 <= j < out@.len() && out@[j] == k@;
                    assert(self@[j] == self@[i as int]);
                }
            }
            out.insert(k);
            proof {
                assert(out@ =~= self@.subrange(0, i + 1));
            }
            i += 1;
        }
        proof {
            assert(self@.subrange(0, n as int) =~= self@);
        }
        out
    }

    /// Removes and returns the member that was added last.
    pub fn pop(&mut self) -> (r: Option<K>)
        ensures
            match r {
                Some(k) => old(self)@.len() > 0 && k@ == old(self)@.last() && final(self)@
                    == old(self)@.drop_last(),
                None => old(self)@.len() == 0 && final(self)@ == old(self)@,
            },
            final(self)@.no_duplicates(),
            old(self)@.no_duplicates(),
    {
        let r = self.members.pop();
        match r {
            Some((k, _)) => Some(k),
            None => None,
        }
    }
}

} // verus!
