//! Names of queries and of threads.
use vstd::prelude::*;

verus! {

/// Index of an ingredient (a query function, an input struct, ...) in the database.
#[derive(Clone, Copy, Debug, PartialEq, Eq, Structural, Hash)]
pub struct IngredientIndex {
    pub index: u32,
}

impl IngredientIndex {
    pub fn new(index: u32) -> (ingredient: IngredientIndex)
        ensures
            ingredient.index == index,
    {
        IngredientIndex { index }
    }

    pub fn as_u32(self) -> (index: u32)
        ensures
            index == self.index,
    {
        self.index
    }
}

/// Identifies one instance within an ingredient.
#[derive(Clone, Copy, Debug, PartialEq, Eq, Structural, Hash)]
pub struct Id {
    pub bits: u64,
}

impl Id {
    pub fn from_bits(bits: u64) -> (id: Id)
        ensures
            id.bits == bits,
    {
        Id { bits }
    }

    pub fn as_bits(self) -> (bits: u64)
        ensures
            bits == self.bits,
    {
        self.bits
    }
}

/// Names one query: the ingredient together with the key it is evaluated for.
#[derive(Clone, Copy, Debug, PartialEq, Eq, Structural, Hash)]
pub struct DatabaseKeyIndex {
    pub ingredient_index: IngredientIndex,
    pub key_index: Id,
}

impl DatabaseKeyIndex {
    pub fn new(ingredient_index: IngredientIndex, key_index: Id) -> (key: DatabaseKeyIndex)
        ensures
            key == (DatabaseKeyIndex { ingredient_index, key_index }),
    {
        DatabaseKeyIndex { ingredient_index, key_index }
    }

    pub fn ingredient_index(self) -> (ingredient: IngredientIndex)
        ensures
            ingredient == self.ingredient_index,
    {
        self.ingredient_index
    }

    pub fn key_index(self) -> (id: Id)
        ensures
            id == self.key_index,
    {
        self.key_index
    }
}

/// Whether `key` is among `keys`.
pub fn contains_key(keys: &Vec<DatabaseKeyIndex>, key: DatabaseKeyIndex) -> (found: bool)
    ensures
        found == keys@.contains(key),
{
    for i in 0..keys.len()
        invariant
            forall|j: int| 0 <= j < i ==> keys@[j] != key,
    {
        if keys[i] == key {
            return true;
        }
    }
    false
}

/// Identifies a thread that evaluates queries.
#[derive(Clone, Copy, Debug, PartialEq, Eq, Structural, Hash)]
pub struct ThreadId {
    pub number: u64,
}

} // verus!
