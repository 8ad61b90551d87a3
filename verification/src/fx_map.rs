//! Maps keyed by query or by thread, on top of `rustc_hash`'s `FxHashMap`.
use rustc_hash::FxHashMap;
use std::collections::hash_map::Keys;
use std::hash::Hash;
use vstd::prelude::*;

use crate::key::{DatabaseKeyIndex, Id, IngredientIndex, ThreadId};

verus! {

/// `rustc_hash::FxBuildHasher`, which makes the hashers of an `FxHashMap`. Nothing is claimed of
/// it here.
#[verifier::external_type_specification]
#[verifier::external_body]
pub struct ExFxBuildHasher(rustc_hash::FxBuildHasher);

/// The integer keys that an `FxHashMap` is used with here. Their `Eq` and `Hash` are those of
/// `std`, which agree with equality, and the hasher is a function of the key alone: that is what
/// the map needs to find its entries again.
pub(crate) trait FxKey: Eq + Hash {

}

impl FxKey for u64 {

}

impl FxKey for (u32, u64) {

}

/// `HashMap::insert` of an `FxHashMap`: maps `key` to `value`, and returns the value that `key` was
/// mapped to before, if any. No other entry changes.
#[verifier::external_body]
pub(crate) fn fx_insert<K: FxKey, V>(map: &mut FxHashMap<K, V>, key: K, value: V) -> (previous:
    Option<V>)
    ensures
        final(map)@ == old(map)@.insert(key, value),
        previous == old(map)@.get(key),
{
    map.insert(key, value)
}

/// `HashMap::get` of an `FxHashMap`: the value that `key` is mapped to, if any.
#[verifier::external_body]
pub(crate) fn fx_get<'a, K: FxKey, V>(map: &'a FxHashMap<K, V>, key: &K) -> (value: Option<&'a V>)
    ensures
        value == (match map@.get(*key) {
            Some(value) => Some(&value),
            None => None,
        }),
{
    map.get(key)
}

/// `HashMap::remove` of an `FxHashMap`: takes the entry of `key` away, and returns its value, if
/// there was one. No other entry changes.
#[verifier::external_body]
pub(crate) fn fx_remove<K: FxKey, V>(map: &mut FxHashMap<K, V>, key: &K) -> (removed: Option<V>)
    ensures
        final(map)@ == old(map)@.remove(*key),
        removed == old(map)@.get(*key),
{
    map.remove(key)
}

/// `HashMap::keys` of an `FxHashMap`: an iterator that visits the keys of the map, each once, in no
/// particular order, and then ends.
#[verifier::external_body]
pub(crate) fn fx_keys<'a, K: FxKey, V>(map: &'a FxHashMap<K, V>) -> (keys: Keys<'a, K, V>)
    ensures
        keys == vstd::std_specs::hash::spec_keys_iter(map),
        vstd::std_specs::iter::IteratorSpec::decrease(&keys) is Some,
        vstd::std_specs::iter::IteratorSpec::initial_value_relation(&keys, &keys),
{
    map.keys()
}

/// A key that stands for an integer key of an `FxHashMap`, one for one.
pub trait MapKey: Copy {
    #[allow(private_bounds)]
    type Raw: FxKey;

    /// The integer key that stands for `self`.
    spec fn raw(self) -> Self::Raw;

    /// The key that an integer key stands for.
    spec fn of_raw(raw: Self::Raw) -> Self;

    proof fn lemma_one_for_one(self, raw: Self::Raw)
        ensures
            Self::of_raw(self.raw()) == self,
            Self::of_raw(raw).raw() == raw,
    ;

    fn to_raw(self) -> (raw: Self::Raw)
        ensures
            raw == self.raw(),
    ;

    fn from_raw(raw: &Self::Raw) -> (key: Self)
        ensures
            key == Self::of_raw(*raw),
    ;
}

impl MapKey for ThreadId {
    type Raw = u64;

    open spec fn raw(self) -> u64 {
        self.number
    }

    open spec fn of_raw(raw: u64) -> ThreadId {
        ThreadId { number: raw }
    }

    proof fn lemma_one_for_one(self, raw: u64) {
    }

    fn to_raw(self) -> u64 {
        self.number
    }

    fn from_raw(raw: &u64) -> ThreadId {
        ThreadId { number: *raw }
    }
}

impl MapKey for DatabaseKeyIndex {
    type Raw = (u32, u64);

    open spec fn raw(self) -> (u32, u64) {
        (self.ingredient_index.index, self.key_index.bits)
    }

    open spec fn of_raw(raw: (u32, u64)) -> DatabaseKeyIndex {
        DatabaseKeyIndex {
            ingredient_index: IngredientIndex { index: raw.0 },
            key_index: Id { bits: raw.1 },
        }
    }

    proof fn lemma_one_for_one(self, raw: (u32, u64)) {
    }

    fn to_raw(self) -> (u32, u64) {
        (self.ingredient_index.index, self.key_index.bits)
    }

    fn from_raw(raw: &(u32, u64)) -> DatabaseKeyIndex {
        DatabaseKeyIndex {
            ingredient_index: IngredientIndex { index: raw.0 },
            key_index: Id { bits: raw.1 },
        }
    }
}

/// A finite map from `K` to `V`.
#[derive(Debug)]
#[verifier::reject_recursive_types(K)]
#[verifier::reject_recursive_types(V)]
pub struct FxMap<K: MapKey, V> {
    entries: FxHashMap<K::Raw, V>,
}

impl<K: MapKey, V> View for FxMap<K, V> {
    type V = Map<K, V>;

    closed spec fn view(&self) -> Map<K, V> {
        Map::new(
            |key: K| self.entries@.contains_key(key.raw()),
            |key: K| self.entries@[key.raw()],
        )
    }
}

impl<K: MapKey, V> FxMap<K, V> {
    pub fn new() -> (map: Self)
        ensures
            map@ == Map::<K, V>::empty(),
    {
        let map: Self = FxMap { entries: FxHashMap::default() };
        assert(map@ =~= Map::<K, V>::empty());
        map
    }

    pub fn insert(&mut self, key: K, value: V) -> (previous: Option<V>)
        ensures
            final(self)@ == old(self)@.insert(key, value),
            previous == old(self)@.get(key),
    {
        let previous = fx_insert(&mut self.entries, key.to_raw(), value);
        proof {
            assert forall|other: K| #[trigger] other.raw() == key.raw() implies other == key by {
                other.lemma_one_for_one(other.raw());
                key.lemma_one_for_one(other.raw());
            }
            assert(self@ =~= old(self)@.insert(key, value));
        }
        previous
    }

    pub fn get(&self, key: K) -> (value: Option<&V>)
        ensures
            value == (match self@.get(key) {
                Some(value) => Some(&value),
                None => None,
            }),
    {
        fx_get(&self.entries, &key.to_raw())
    }

    pub fn remove(&mut self, key: K) -> (removed: Option<V>)
        ensures
            final(self)@ == old(self)@.remove(key),
            removed == old(self)@.get(key),
    {
        let removed = fx_remove(&mut self.entries, &key.to_raw());
        proof {
            assert forall|other: K| #[trigger] other.raw() == key.raw() implies other == key by {
                other.lemma_one_for_one(other.raw());
                key.lemma_one_for_one(other.raw());
            }
            assert(self@ =~= old(self)@.remove(key));
        }
        removed
    }

    /// Removes every key of `keys`.
    pub fn remove_all(&mut self, keys: &Vec<K>)
        ensures
            final(self)@ == old(self)@.remove_keys(keys@.to_set()),
    {
        assert(self@ =~= old(self)@.remove_keys(keys@.take(0).to_set()));
        for i in 0..keys.len()
            invariant
                self@ == old(self)@.remove_keys(keys@.take(i as int).to_set()),
        {
            self.remove(keys[i]);
            proof {
                crate::seqs::lemma_take_next(keys@, i as int);
                assert(self@ =~= old(self)@.remove_keys(keys@.take(i + 1).to_set()));
            }
        }
        proof {
            crate::seqs::lemma_take_all(keys@);
        }
    }

    /// Maps every key of `keys` to `value`.
    pub fn insert_all(&mut self, keys: &Vec<K>, value: V) where V: Copy
        ensures
            final(self)@ == old(self)@.union_prefer_right(
                Map::new(|key: K| keys@.contains(key), |key: K| value),
            ),
    {
        let ghost inserted = |n: int|
            Map::new(|key: K| keys@.take(n).contains(key), |key: K| value);
        assert(self@ =~= old(self)@.union_prefer_right(inserted(0)));
        for i in 0..keys.len()
            invariant
                inserted == (|n: int|
                    Map::new(|key: K| keys@.take(n).contains(key), |key: K| value)),
                self@ == old(self)@.union_prefer_right(inserted(i as int)),
        {
            self.insert(keys[i], value);
            proof {
                crate::seqs::lemma_take_next(keys@, i as int);
                assert(self@ =~= old(self)@.union_prefer_right(inserted(i + 1)));
            }
        }
        proof {
            crate::seqs::lemma_take_all(keys@);
        }
    }

    /// The keys of the map, each once, in no particular order.
    pub fn keys(&self) -> (keys: Vec<K>)
        ensures
            keys@.no_duplicates(),
            keys@.to_set() == self@.dom(),
            forall|key: K| #[trigger] keys@.contains(key) <==> self@.contains_key(key),
    {
        let mut keys: Vec<K> = Vec::new();
        let raws = fx_keys(&self.entries);
        let ghost seq = vstd::std_specs::iter::IteratorSpec::remaining(
            &vstd::std_specs::hash::spec_keys_iter(&self.entries),
        );
        for raw in it: raws
            invariant
                it.seq() == seq,
                keys@.len() == it.index(),
                forall|i: int| 0 <= i < keys@.len() ==> keys@[i] == K::of_raw(*seq[i]),
        {
            keys.push(K::from_raw(raw));
        }
        proof {
            assert(seq.unref().to_set() == self.entries@.dom());
            assert forall|i: int, j: int|
                0 <= i < keys@.len() && 0 <= j < keys@.len() && i != j implies keys@[i]
                != keys@[j] by {
                keys@[i].lemma_one_for_one(*seq[i]);
                keys@[j].lemma_one_for_one(*seq[j]);
            }
            assert forall|key: K| keys@.to_set().contains(key) <==> self@.dom().contains(key) by {
                if keys@.to_set().contains(key) {
                    let i = choose|i: int| 0 <= i < keys@.len() && keys@[i] == key;
                    key.lemma_one_for_one(*seq[i]);
                    assert(seq.unref()[i] == key.raw());
                    assert(seq.unref().to_set().contains(key.raw()));
                }
                if self@.dom().contains(key) {
                    assert(seq.unref().to_set().contains(key.raw()));
                    let i = choose|i: int|
                        0 <= i < seq.unref().len() && seq.unref()[i] == key.raw();
                    key.lemma_one_for_one(*seq[i]);
                    assert(keys@[i] == key);
                }
            }
            assert(keys@.to_set() =~= self@.dom());
            assert forall|key: K| #[trigger]
                keys@.contains(key) <==> self@.contains_key(key) by {
                assert(keys@.to_set().contains(key) <==> keys@.contains(key));
            }
        }
        keys
    }

    /// A map that is held in memory has finitely many keys.
    pub proof fn lemma_finite(&self)
        ensures
            self@.dom().finite(),
    {
        let raws = vstd::std_specs::iter::IteratorSpec::remaining(
            &vstd::std_specs::hash::spec_keys_iter(&self.entries),
        ).unref();
        let keys = Seq::new(raws.len(), |i: int| K::of_raw(raws[i]));
        assert(raws.to_set() == self.entries@.dom());
        assert forall|key: K| self@.dom().contains(key) implies keys.to_set().contains(key) by {
            assert(raws.to_set().contains(key.raw()));
            let i = choose|i: int| 0 <= i < raws.len() && raws[i] == key.raw();
            key.lemma_one_for_one(raws[i]);
            assert(keys[i] == key);
        }
        vstd::seq_lib::seq_to_set_is_finite(keys);
        vstd::set_lib::lemma_set_subset_finite(keys.to_set(), self@.dom());
    }
}

} // verus!
