//! What is remembered of the last evaluation of a query.
use vstd::prelude::*;

use crate::fx_map::FxMap;
use crate::key::{contains_key, DatabaseKeyIndex};
use crate::revision::{Durability, Revision};
use crate::runtime::{Runtime, RuntimeView};

verus! {

/// The heads of the cycles that a provisional value depends on.
#[derive(Debug, PartialEq, Eq)]
pub struct CycleHeads {
    heads: Vec<DatabaseKeyIndex>,
}

impl View for CycleHeads {
    type V = Seq<DatabaseKeyIndex>;

    closed spec fn view(&self) -> Seq<DatabaseKeyIndex> {
        self.heads@
    }
}

impl CycleHeads {
    pub fn from_heads(heads: Vec<DatabaseKeyIndex>) -> (cycle_heads: CycleHeads)
        ensures
            cycle_heads@ == heads@,
    {
        CycleHeads { heads }
    }

    pub fn heads(&self) -> (heads: &Vec<DatabaseKeyIndex>)
        ensures
            heads@ == self@,
    {
        &self.heads
    }

    pub fn is_empty(&self) -> (empty: bool)
        ensures
            empty == (self@.len() == 0),
    {
        self.heads.len() == 0
    }

    pub fn contains(&self, key: DatabaseKeyIndex) -> (found: bool)
        ensures
            found == self@.contains(key),
    {
        contains_key(&self.heads, key)
    }

    /// Removes every head but `key`.
    pub fn remove_all_except(&mut self, key: DatabaseKeyIndex)
        ensures
            final(self)@ == if old(self)@.contains(key) {
                seq![key]
            } else {
                Seq::empty()
            },
    {
        let found = self.contains(key);
        let mut heads: Vec<DatabaseKeyIndex> = Vec::new();
        if found {
            heads.push(key);
        }
        self.heads = heads;
    }
}

/// In which iteration of a cycle a value was computed. The cancellation count tells values
/// apart that were computed before and after a cancellation within one revision.
#[derive(Clone, Copy, Debug, PartialEq, Eq, Structural)]
pub struct IterationStamp {
    pub iteration: u8,
    pub cancellation_count: u8,
}

impl IterationStamp {
    pub open spec fn spec_initial(cancellation_count: u8) -> IterationStamp {
        IterationStamp { iteration: 0, cancellation_count }
    }

    /// The first iteration.
    pub fn initial(cancellation_count: u8) -> (stamp: IterationStamp)
        ensures
            stamp == IterationStamp::spec_initial(cancellation_count),
    {
        IterationStamp { iteration: 0, cancellation_count }
    }

    pub fn cancellation_count(self) -> (count: u8)
        ensures
            count == self.cancellation_count,
    {
        self.cancellation_count
    }
}

/// Whether what a query read accumulated values, directly or through other queries.
#[derive(Clone, Copy, Debug, PartialEq, Eq, Structural)]
pub enum InputAccumulatedValues {
    /// Nothing that the query read accumulated values.
    Empty,
    /// Something that the query read may have accumulated values.
    Any,
}

/// When a value changed, and what it depends on.
#[derive(Debug, PartialEq, Eq)]
pub struct QueryRevisions {
    pub changed_at: Revision,
    pub durability: Durability,
    pub iteration: IterationStamp,
    pub cycle_heads: CycleHeads,
    /// Whether the query itself accumulated values.
    pub accumulated: bool,
    /// Whether what the query read accumulated values.
    pub accumulated_inputs: InputAccumulatedValues,
}

impl QueryRevisions {
    /// The revisions of the value that a cycle iteration of `key` starts with. The value depends on
    /// no input, so it is as durable as can be and nothing was accumulated, but `key` is the head of
    /// its cycle.
    pub fn fixpoint_initial(key: DatabaseKeyIndex, iteration: IterationStamp) -> (revisions:
        QueryRevisions)
        ensures
            revisions.changed_at == Revision::spec_start(),
            revisions.durability == Durability::NEVER_CHANGE,
            revisions.iteration == iteration,
            revisions.cycle_heads@ == seq![key],
            !revisions.accumulated,
            revisions.accumulated_inputs == InputAccumulatedValues::Empty,
    {
        let mut heads: Vec<DatabaseKeyIndex> = Vec::new();
        heads.push(key);
        let revisions = QueryRevisions {
            changed_at: Revision::start(),
            durability: Durability::NEVER_CHANGE,
            iteration,
            cycle_heads: CycleHeads::from_heads(heads),
            accumulated: false,
            accumulated_inputs: InputAccumulatedValues::Empty,
        };
        assert(revisions.cycle_heads@ =~= seq![key]);
        revisions
    }
}

/// What a memo knows besides its value.
#[derive(Debug, PartialEq, Eq)]
pub struct MemoHeader {
    /// The revision in which the memo was last found to be valid.
    pub verified_at: Revision,
    /// Whether the value may be that of a cycle that has not converged.
    pub may_be_provisional: bool,
    pub revisions: QueryRevisions,
}

/// Whether a memo is known to be valid without a look at what it depends on.
#[derive(Clone, Copy, Debug, PartialEq, Eq, Structural)]
pub enum ShallowUpdate {
    /// The memo was found to be valid in the current revision.
    Verified,
    /// Nothing as durable as the memo changed since it was found to be valid.
    HigherDurability,
    /// What the memo depends on may have changed.
    No,
}

impl ShallowUpdate {
    /// Whether the memo is known to be valid.
    pub fn yes(self) -> (yes: bool)
        ensures
            yes == (self != ShallowUpdate::No),
    {
        match self {
            ShallowUpdate::Verified => true,
            ShallowUpdate::HigherDurability => true,
            ShallowUpdate::No => false,
        }
    }
}

/// What a memo holds.
#[verifier::ext_equal]
pub struct MemoView<V> {
    pub value: Option<V>,
    pub verified_at: Revision,
    pub may_be_provisional: bool,
    pub changed_at: Revision,
    pub durability: Durability,
    pub iteration: IterationStamp,
    pub cycle_heads: Seq<DatabaseKeyIndex>,
    pub accumulated: bool,
    pub accumulated_inputs: InputAccumulatedValues,
}

impl<V> MemoView<V> {
    /// The memo that a cycle iteration of `key` starts with.
    pub open spec fn fixpoint_initial(
        value: V,
        verified_at: Revision,
        key: DatabaseKeyIndex,
        iteration: IterationStamp,
    ) -> MemoView<V> {
        MemoView {
            value: Some(value),
            verified_at,
            may_be_provisional: true,
            changed_at: Revision::spec_start(),
            durability: Durability::NEVER_CHANGE,
            iteration,
            cycle_heads: seq![key],
            accumulated: false,
            accumulated_inputs: InputAccumulatedValues::Empty,
        }
    }

    /// The heads of the cycles that a reader of the memo depends on: those of a provisional value,
    /// none of a final one.
    pub open spec fn heads(self) -> Seq<DatabaseKeyIndex> {
        if self.may_be_provisional {
            self.cycle_heads
        } else {
            Seq::empty()
        }
    }

    /// Whether the memo is known to be valid without a look at what it depends on.
    pub open spec fn shallow_verify<T>(self, runtime: RuntimeView<T>) -> ShallowUpdate {
        if self.verified_at == runtime.current_revision() {
            ShallowUpdate::Verified
        } else if runtime.last_changed_revision(self.durability).generation
            <= self.verified_at.generation {
            ShallowUpdate::HigherDurability
        } else {
            ShallowUpdate::No
        }
    }
}

/// The last value of a query, if it was not evicted, and what is known of it.
#[derive(Debug, PartialEq, Eq)]
pub struct Memo<V> {
    pub value: Option<V>,
    pub header: MemoHeader,
}

impl<V> View for Memo<V> {
    type V = MemoView<V>;

    open spec fn view(&self) -> MemoView<V> {
        MemoView {
            value: self.value,
            verified_at: self.header.verified_at,
            may_be_provisional: self.header.may_be_provisional,
            changed_at: self.header.revisions.changed_at,
            durability: self.header.revisions.durability,
            iteration: self.header.revisions.iteration,
            cycle_heads: self.header.revisions.cycle_heads@,
            accumulated: self.header.revisions.accumulated,
            accumulated_inputs: self.header.revisions.accumulated_inputs,
        }
    }
}

impl<V> Memo<V> {
    /// The memo that a cycle iteration of `key` starts with.
    pub fn fixpoint_initial(
        value: V,
        verified_at: Revision,
        key: DatabaseKeyIndex,
        iteration: IterationStamp,
    ) -> (memo: Memo<V>)
        ensures
            memo@ == MemoView::fixpoint_initial(value, verified_at, key, iteration),
    {
        Memo {
            value: Some(value),
            header: MemoHeader {
                verified_at,
                may_be_provisional: true,
                revisions: QueryRevisions::fixpoint_initial(key, iteration),
            },
        }
    }

    /// The heads of the cycles that a reader of the memo depends on.
    pub fn cycle_heads(&self) -> (heads: Vec<DatabaseKeyIndex>)
        ensures
            heads@ == self@.heads(),
    {
        let mut heads: Vec<DatabaseKeyIndex> = Vec::new();
        if self.header.may_be_provisional {
            let known = self.header.revisions.cycle_heads.heads();
            for i in 0..known.len()
                invariant
                    heads@ == known@.take(i as int),
            {
                heads.push(known[i]);
                assert(known@.take(i + 1) =~= known@.take(i as int).push(known@[i as int]));
            }
            proof {
                crate::seqs::lemma_take_all(known@);
            }
        }
        heads
    }

    /// Whether the memo is known to be valid without a look at what it depends on: it was found
    /// to be valid in the current revision, or nothing as durable has changed since it was.
    pub fn shallow_verify<T>(&self, runtime: &Runtime<T>) -> (update: ShallowUpdate)
        ensures
            update == self@.shallow_verify(runtime@),
    {
        if self.header.verified_at == runtime.current_revision() {
            ShallowUpdate::Verified
        } else if runtime.last_changed_revision(self.header.revisions.durability).generation
            <= self.header.verified_at.generation {
            ShallowUpdate::HigherDurability
        } else {
            ShallowUpdate::No
        }
    }
}

/// The memos of all queries.
#[verifier::reject_recursive_types(V)]
pub struct MemoTable<V> {
    memos: FxMap<DatabaseKeyIndex, Memo<V>>,
}

impl<V> View for MemoTable<V> {
    type V = Map<DatabaseKeyIndex, MemoView<V>>;

    closed spec fn view(&self) -> Map<DatabaseKeyIndex, MemoView<V>> {
        self.memos@.map_values(|memo: Memo<V>| memo@)
    }
}

impl<V> Default for MemoTable<V> {
    fn default() -> (table: MemoTable<V>)
        ensures
            table@ == Map::<DatabaseKeyIndex, MemoView<V>>::empty(),
    {
        let table = MemoTable { memos: FxMap::new() };
        assert(table@ =~= Map::empty());
        table
    }
}

impl<V> MemoTable<V> {
    /// The memo of `key`, if it was evaluated.
    pub fn get(&self, key: DatabaseKeyIndex) -> (memo: Option<&Memo<V>>)
        ensures
            memo is Some <==> self@.contains_key(key),
            memo matches Some(memo) ==> memo@ == self@[key],
    {
        self.memos.get(key)
    }

    /// Replaces the memo of `key`.
    pub fn insert_memo(&mut self, key: DatabaseKeyIndex, memo: Memo<V>)
        ensures
            final(self)@ == old(self)@.insert(key, memo@),
    {
        self.memos.insert(key, memo);
        assert(self@ =~= old(self)@.insert(key, memo@));
    }

    /// Removes the memos of all `keys`, which leaves the state of queries that were never computed.
    pub fn remove_memos(&mut self, keys: &Vec<DatabaseKeyIndex>)
        ensures
            final(self)@ == old(self)@.remove_keys(keys@.to_set()),
    {
        self.memos.remove_all(keys);
        assert(self@ =~= old(self)@.remove_keys(keys@.to_set()));
    }

    /// Notes that the memo of `key`, if there is one, is valid in `revision`.
    pub fn mark_verified(&mut self, key: DatabaseKeyIndex, revision: Revision)
        ensures
            old(self)@.contains_key(key) ==> final(self)@ == old(self)@.insert(
                key,
                (MemoView { verified_at: revision, ..old(self)@[key] }),
            ),
            !old(self)@.contains_key(key) ==> final(self)@ == old(self)@,
    {
        match self.memos.remove(key) {
            Some(memo) => {
                let mut memo = memo;
                memo.header.verified_at = revision;
                self.memos.insert(key, memo);
                assert(self@ =~= old(self)@.insert(key, memo@));
            },
            None => {
                assert(self@ =~= old(self)@);
            },
        }
    }

    /// Removes every cycle head of the memo of `key`, if there is one, but `key` itself.
    pub fn keep_own_head(&mut self, key: DatabaseKeyIndex)
        ensures
            old(self)@.contains_key(key) ==> final(self)@ == old(self)@.insert(
                key,
                (MemoView {
                    cycle_heads: if old(self)@[key].cycle_heads.contains(key) {
                        seq![key]
                    } else {
                        Seq::empty()
                    },
                    ..old(self)@[key]
                }),
            ),
            !old(self)@.contains_key(key) ==> final(self)@ == old(self)@,
    {
        match self.memos.remove(key) {
            Some(memo) => {
                let mut memo = memo;
                memo.header.revisions.cycle_heads.remove_all_except(key);
                self.memos.insert(key, memo);
                assert(self@ =~= old(self)@.insert(key, memo@));
            },
            None => {
                assert(self@ =~= old(self)@);
            },
        }
    }
}

} // verus!
