//! A small insertion-ordered map.
//!
//! Entries are kept in the order in which their keys first arrived, and no
//! key occurs twice. Walking the map therefore always visits the keys in the
//! same order, which the smartlog flattening relies on.

use vstd::prelude::*;
use crate::ids::HgChangesetId;
use crate::ids::HgId;

verus! {

/// A key of a [`ListMap`]: a value that can be compared with another of its
/// type, two keys being the same exactly when their views are.
pub trait MapKey: View + Sized {
    /// Whether `self` and `other` are the same key.
    fn same_key(&self, other: &Self) -> (r: bool)
        ensures
            r == (self@ == other@),
    ;
}

impl MapKey for HgChangesetId {
    fn same_key(&self, other: &Self) -> (r: bool) {
        self.same(other)
    }
}

impl MapKey for HgId {
    fn same_key(&self, other: &Self) -> (r: bool) {
        self.same(other)
    }
}

impl MapKey for String {
    fn same_key(&self, other: &Self) -> (r: bool) {
        *self == *other
    }
}

/// A map from `K` to `V` that remembers the order in which keys were added.
#[derive(Debug)]
pub struct ListMap<K: MapKey, V> {
    entries: Vec<(K, V)>,
}

/// The position of the key viewed as `k` among `keys`, if it is there.
pub open spec fn position_of<K: View>(keys: Seq<K>, k: K::V) -> int {
    choose|i: int| 0 <= i < keys.len() && keys[i]@ == k
}

/// Whether some key among `keys` is viewed as `k`.
pub open spec fn has_key<K: View>(keys: Seq<K>, k: K::V) -> bool {
    exists|i: int| 0 <= i < keys.len() && keys[i]@ == k
}

/// Whether no two keys among `keys` have the same view.
pub open spec fn distinct_keys<K: View>(keys: Seq<K>) -> bool {
    forall|i: int, j: int| 0 <= i < j < keys.len() ==> keys[i]@ != keys[j]@
}

/// The mathematical map that parallel sequences of keys and values stand
/// for: each key that occurs, with the value at its position.
pub open spec fn map_of<K: View, V>(keys: Seq<K>, values: Seq<V>) -> Map<K::V, V> {
    Map::new(|k: K::V| has_key(keys, k), |k: K::V| values[position_of(keys, k)])
}

/// The keys of a sequence of entries, in order.
pub open spec fn keys_of<K, V>(entries: Seq<(K, V)>) -> Seq<K> {
    Seq::new(entries.len(), |i: int| entries[i].0)
}

/// The values of a sequence of entries, in order.
pub open spec fn values_of<K, V>(entries: Seq<(K, V)>) -> Seq<V> {
    Seq::new(entries.len(), |i: int| entries[i].1)
}

impl<K: MapKey, V> ListMap<K, V> {
    #[verifier::type_invariant]
    spec fn well_formed(&self) -> bool {
        distinct_keys(self.keys())
    }

    /// The keys, in the order in which the map is walked.
    pub closed spec fn keys(&self) -> Seq<K> {
        keys_of(self.entries@)
    }

    /// The values, each at the position of its key in [`Self::keys`].
    pub closed spec fn values(&self) -> Seq<V> {
        values_of(self.entries@)
    }

    /// The map as a mathematical map from key views to values.
    pub open spec fn view(&self) -> Map<K::V, V> {
        map_of(self.keys(), self.values())
    }

    /// The empty map.
    pub fn new() -> (m: Self)
        ensures
            m.keys() == Seq::<K>::empty(),
            m.values() == Seq::<V>::empty(),
            m@ == Map::<K::V, V>::empty(),
    {
        let m = ListMap { entries: Vec::new() };
        assert(m.keys() =~= Seq::<K>::empty());
        assert(m.values() =~= Seq::<V>::empty());
        assert(m@ =~= Map::<K::V, V>::empty());
        m
    }

    /// The number of entries.
    pub fn len(&self) -> (n: usize)
        ensures
            n == self.keys().len(),
            n == self.values().len(),
            distinct_keys(self.keys()),
    {
        proof {
            use_type_invariant(self);
        }
        self.entries.len()
    }

    /// The key at position `i` of the walk.
    pub fn key_at(&self, i: usize) -> (k: &K)
        requires
            i < self.keys().len(),
        ensures
            *k == self.keys()[i as int],
    {
        &self.entries[i].0
    }

    /// The value at position `i` of the walk.
    pub fn value_at(&self, i: usize) -> (v: &V)
        requires
            i < self.values().len(),
        ensures
            *v == self.values()[i as int],
    {
        &self.entries[i].1
    }

    /// The position of `key`, if the map holds it.
    pub fn find(&self, key: &K) -> (r: Option<usize>)
        ensures
            match r {
                Some(i) => i < self.keys().len() && self.keys()[i as int]@ == key@,
                None => !has_key(self.keys(), key@),
            },
    {
        let mut i: usize = 0;
        while i < self.entries.len()
            invariant
                i <= self.entries@.len(),
                forall|j: int| 0 <= j < i ==> self.keys()[j]@ != key@,
            decreases self.entries@.len() - i,
        {
            if self.entries[i].0.same_key(key) {
                return Some(i);
            }
            i += 1;
        }
        None
    }

    /// The value stored under `key`, if any.
    pub fn get(&self, key: &K) -> (r: Option<&V>)
        ensures
            match r {
                Some(v) => self@.contains_key(key@) && *v == self@[key@],
                None => !self@.contains_key(key@),
            },
    {
        proof {
            use_type_invariant(self);
        }
        match self.find(key) {
            Some(i) => {
                assert(has_key(self.keys(), key@));
                assert(position_of(self.keys(), key@) == i);
                Some(&self.entries[i].1)
            },
            None => None,
        }
    }

    /// Stores `value` under `key`. A key that the map already holds keeps its
    /// place in the walk and gets the new value; a new key goes to the end.
    pub fn insert(&mut self, key: K, value: V)
        ensures
            final(self)@ == old(self)@.insert(key@, value),
            has_key(old(self).keys(), key@) ==> {
                &&& final(self).keys() == old(self).keys()
                &&& final(self).values() == old(self).values().update(
                    position_of(old(self).keys(), key@),
                    value,
                )
            },
            !has_key(old(self).keys(), key@) ==> {
                &&& final(self).keys() == old(self).keys().push(key)
                &&& final(self).values() == old(self).values().push(value)
            },
    {
        proof {
            use_type_invariant(&*self);
        }
        let ghost before = *self;
        let found = self.find(&key);
        let mut taken = ListMap { entries: Vec::new() };
        assert(taken.keys() =~= Seq::<K>::empty());
        core::mem::swap(self, &mut taken);
        let mut entries = taken.entries;
        match found {
            Some(i) => {
                assert(has_key(before.keys(), key@));
                assert(position_of(before.keys(), key@) == i);
                let old_key = entries.remove(i).0;
                entries.insert(i, (old_key, value));
                assert(keys_of(entries@) =~= before.keys());
                let after = ListMap { entries };
                assert(after.keys() =~= before.keys());
                assert(after.values() =~= before.values().update(i as int, value));
                proof {
                    lemma_view_after_update(
                        before.keys(),
                        before.values(),
                        after.values(),
                        i as int,
                        value,
                    );
                }
                *self = after;
            },
            None => {
                entries.push((key, value));
                proof {
                    lemma_view_after_push(before.keys(), before.values(), key, value);
                }
                assert(keys_of(entries@) =~= before.keys().push(key));
                let after = ListMap { entries };
                assert(after.keys() =~= before.keys().push(key));
                assert(after.values() =~= before.values().push(value));
                *self = after;
            },
        }
    }
}

proof fn lemma_view_after_update<K: View, V>(
    keys: Seq<K>,
    values: Seq<V>,
    after: Seq<V>,
    i: int,
    value: V,
)
    requires
        distinct_keys(keys),
        keys.len() == values.len(),
        0 <= i < keys.len(),
        after == values.update(i, value),
    ensures
        map_of(keys, after) == map_of(keys, values).insert(keys[i]@, value),
{
    let k0 = keys[i]@;
    assert forall|k: K::V| has_key(keys, k) || k == k0 implies has_key(keys, k) by {}
    assert forall|k: K::V| has_key(keys, k) implies #[trigger] map_of(keys, after)[k] == map_of(
        keys,
        values,
    ).insert(k0, value)[k] by {
        let p = position_of(keys, k);
        if k == k0 {
            assert(p == i);
        } else {
            assert(p != i);
        }
    }
    assert(map_of(keys, after) =~= map_of(keys, values).insert(k0, value));
}

proof fn lemma_view_after_push<K: View, V>(keys: Seq<K>, values: Seq<V>, key: K, value: V)
    requires
        distinct_keys(keys),
        keys.len() == values.len(),
        !has_key(keys, key@),
    ensures
        map_of(keys.push(key), values.push(value)) == map_of(keys, values).insert(key@, value),
        distinct_keys(keys.push(key)),
{
    let keys2 = keys.push(key);
    let values2 = values.push(value);
    assert forall|i: int, j: int| 0 <= i < j < keys2.len() implies keys2[i]@ != keys2[j]@ by {
        if j == keys.len() {
            assert(keys2[i] == keys[i]);
        }
    }
    assert forall|k: K::V| has_key(keys2, k) <==> (has_key(keys, k) || k == key@) by {
        if has_key(keys2, k) {
            let i = choose|i: int| 0 <= i < keys2.len() && keys2[i]@ == k;
            if i < keys.len() {
                assert(keys[i]@ == k);
            }
        }
        if has_key(keys, k) {
            let i = choose|i: int| 0 <= i < keys.len() && keys[i]@ == k;
            assert(keys2[i]@ == k);
        }
        if k == key@ {
            assert(keys2[keys.len() as int]@ == k);
        }
    }
    assert forall|k: K::V| has_key(keys2, k) implies #[trigger] map_of(keys2, values2)[k] == map_of(
        keys,
        values,
    ).insert(key@, value)[k] by {
        let p = position_of(keys2, k);
        if k == key@ {
            if p < keys.len() {
                assert(keys[p]@ == k);
            }
            assert(p == keys.len());
        } else {
            assert(p < keys.len());
            assert(keys[p]@ == k);
            let q = position_of(keys, k);
            assert(keys2[q]@ == k);
            assert(p == q);
        }
    }
    assert(map_of(keys2, values2) =~= map_of(keys, values).insert(key@, value));
}

} // verus!
