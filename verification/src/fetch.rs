//! Fetching the value of a query: from its memo where that is valid, otherwise by claiming and
//! evaluating the query.
//!
//! What other code does (claiming, waiting, evaluating) happens between the steps of a
//! [`Fetch`]: each step takes what happened and says what to do next.
use vstd::prelude::*;

use crate::cancelled::{Cancelled, Payload};
use crate::cycle_groups::GroupsView;
use crate::dependency_graph::{GraphView, WaitResult};
use crate::key::{DatabaseKeyIndex, Id, IngredientIndex, ThreadId};
use crate::local::{LocalView, ZalsaLocal};
use crate::memo::{InputAccumulatedValues, IterationStamp, Memo, MemoTable, MemoView, ShallowUpdate};
use crate::revision::{Durability, Revision};
use crate::runtime::{BlockOutcome, Running, Runtime, RuntimeView};

verus! {

/// How a query function takes part in cycles.
#[derive(Clone, Copy, Debug, PartialEq, Eq, Structural)]
pub enum CycleRecoveryStrategy {
    /// A cycle is an error.
    Panic,
    /// The cycle is evaluated until its values no longer change.
    Fixpoint,
    /// The queries of the cycle take a fallback value.
    FallbackImmediate,
}

/// What came of claiming a query.
#[derive(Clone, Copy, Debug, PartialEq, Eq, Structural)]
pub enum ClaimResult {
    /// The current thread holds the claim.
    Claimed,
    /// Another thread computes the query.
    Running(Running),
    /// Claiming the query would close a cycle: see `BlockResult::Cycle`.
    Cycle { same_thread: bool, owner: ThreadId },
}

/// What came of asking for the claim of a group's root.
#[derive(Clone, Copy, Debug, PartialEq, Eq, Structural)]
pub enum WaitForResult {
    /// Another thread holds it.
    Running(Running),
    /// The group waits for a query that the current thread holds.
    Cycle,
    /// No thread holds it.
    Available,
}

/// What is to be done next for a query that was not found by [`IngredientImpl::fetch_hot`].
#[derive(Clone, Copy, Debug, PartialEq, Eq, Structural)]
pub enum Step {
    /// Wait for another thread.
    BlockOn(Running),
    /// Give the claim up and wait for the group rooted at `root`, which another thread evaluates.
    Park { root: DatabaseKeyIndex },
    /// Check what the memo depends on.
    Verify,
    /// Evaluate the query.
    Execute,
    /// Compute the value that the cycle iteration starts with.
    Initial { iteration: IterationStamp },
    /// The query is not made for cycles.
    Panic,
    /// The memo holds the value.
    Return,
    /// Look again, from the start.
    Retry,
    /// Give way to other threads, then look again.
    Yield,
    /// Unwind.
    Unwind(Cancelled),
}

/// What happened since the last step of a [`Fetch`].
pub enum Event<V, P> {
    /// The query was claimed, or could not be.
    Claim(ClaimResult),
    /// The blocked thread was woken.
    Waited(WaitResult),
    /// The claim was given up, and the claim of the group's root was asked for.
    Probed(WaitForResult),
    /// What the memo depends on was checked: whether the memo is valid.
    Verified(bool),
    /// The query was evaluated: whether that made a memo.
    Executed(bool),
    /// The value that the cycle iteration starts with.
    Initial(V),
    /// The canonical query was evaluated.
    Detached,
    /// The other threads had their turn.
    Yielded,
    /// What was done unwound.
    Unwound(Payload<P>),
}

/// What is to be done before the next step of a [`Fetch`].
#[derive(Debug, PartialEq, Eq)]
pub enum Action<P> {
    /// Claim the query.
    Claim,
    /// Register that the thread is blocked, and wait until it is woken.
    BlockOn(Running),
    /// Give the claim up, and ask for the claim of `root`.
    ReleaseAndProbe { root: DatabaseKeyIndex },
    /// Check what the memo depends on.
    VerifyMemo,
    /// Evaluate the query.
    Execute,
    /// Compute the value that the cycle iteration starts with.
    ComputeInitial,
    /// Panic: the query takes part in a cycle, which it is not made for.
    PanicOnCycle,
    /// Evaluate `canonical` with an empty query stack.
    FetchDetached { canonical: DatabaseKeyIndex },
    /// Give way to other threads.
    Yield,
    /// The memo holds the value: the fetch is over.
    Return,
    /// Unwind with a cancellation: the fetch is over.
    Throw(Cancelled),
    /// Unwind with the payload of a panic: the fetch is over.
    Resume(P),
}

/// What a fetch waits for.
#[derive(Clone, Copy, Debug, PartialEq, Eq, Structural)]
pub enum Phase {
    Claiming,
    Blocked(Running),
    Probing,
    Verifying,
    Executing,
    Initial { iteration: IterationStamp },
    Panicking,
    /// The canonical query is evaluated. `deferred` says whether local cancellation was put off
    /// before.
    Detached { deferred: bool },
    Yielding,
    Finished,
}

/// What a query that read another one depends on from then on.
#[derive(Debug, PartialEq, Eq)]
pub struct TrackedRead {
    pub key: DatabaseKeyIndex,
    pub durability: Durability,
    pub changed_at: Revision,
    pub cycle_heads: Vec<DatabaseKeyIndex>,
    /// Whether the query that was read accumulated values.
    pub has_accumulated: bool,
    /// Whether what that query read accumulated values.
    pub accumulated_inputs: InputAccumulatedValues,
}

/// All that a fetch reads and changes.
#[verifier::ext_equal]
pub struct FetchState<V> {
    pub runtime: RuntimeView<Map<DatabaseKeyIndex, MemoView<V>>>,
    pub local: LocalView,
}

/// A runtime whose table holds memos, with the memos that it holds.
pub open spec fn with_table_view<V>(runtime: RuntimeView<MemoTable<V>>) -> RuntimeView<
    Map<DatabaseKeyIndex, MemoView<V>>,
> {
    RuntimeView {
        revision_cancelled: runtime.revision_cancelled,
        cancellation_count: runtime.cancellation_count,
        cycle_groups: runtime.cycle_groups,
        revisions: runtime.revisions,
        dependency_graph: runtime.dependency_graph,
        table: runtime.table@,
    }
}

pub open spec fn state_of<V>(
    runtime: RuntimeView<MemoTable<V>>,
    local: LocalView,
) -> FetchState<V> {
    FetchState { runtime: with_table_view(runtime), local }
}

/// Whether `key` has a final value that is known to be valid.
pub open spec fn is_hot<V>(
    runtime: RuntimeView<Map<DatabaseKeyIndex, MemoView<V>>>,
    key: DatabaseKeyIndex,
) -> bool {
    &&& runtime.table.contains_key(key)
    &&& runtime.table[key].value is Some
    &&& !runtime.table[key].may_be_provisional
    &&& runtime.table[key].shallow_verify(runtime) != ShallowUpdate::No
}

/// The runtime after the value of `key` was found to be valid in the current revision.
pub open spec fn with_verified<V>(
    runtime: RuntimeView<Map<DatabaseKeyIndex, MemoView<V>>>,
    key: DatabaseKeyIndex,
) -> RuntimeView<Map<DatabaseKeyIndex, MemoView<V>>> {
    let memo = MemoView { verified_at: runtime.current_revision(), ..runtime.table[key] };
    RuntimeView { table: runtime.table.insert(key, memo), ..runtime }
}

impl<V> FetchState<V> {
    /// The registry and the graph are well-formed, and the group that the thread `me` evaluates
    /// is a live one that it owns.
    pub open spec fn wf(self, me: ThreadId) -> bool {
        &&& self.runtime.wf()
        &&& self.local.current_cycle_group matches Some(root)
            ==> self.runtime.cycle_groups.owns(me, root)
    }

    /// Whether the group that the thread `me` evaluates is the one that the registry knows it for.
    pub open spec fn agrees(self, me: ThreadId) -> bool {
        self.local.current_cycle_group == self.runtime.cycle_groups.owner_index.get(me)
    }

    pub open spec fn with_memos(self, memos: Map<DatabaseKeyIndex, MemoView<V>>) -> FetchState<V> {
        FetchState { runtime: RuntimeView { table: memos, ..self.runtime }, ..self }
    }

    pub open spec fn with_groups(self, groups: GroupsView) -> FetchState<V> {
        FetchState { runtime: RuntimeView { cycle_groups: groups, ..self.runtime }, ..self }
    }

    pub open spec fn with_graph(self, graph: GraphView) -> FetchState<V> {
        FetchState { runtime: RuntimeView { dependency_graph: graph, ..self.runtime }, ..self }
    }

    pub open spec fn with_group(self, root: Option<DatabaseKeyIndex>) -> FetchState<V> {
        FetchState { local: LocalView { current_cycle_group: root, ..self.local }, ..self }
    }

    pub open spec fn with_backing_out(self, backing_out: bool) -> FetchState<V> {
        FetchState { local: LocalView { backing_out, ..self.local }, ..self }
    }

    pub open spec fn with_deferred(self, deferred: bool) -> FetchState<V> {
        FetchState { local: LocalView { cancellation_deferred: deferred, ..self.local }, ..self }
    }

    pub open spec fn memo(self, key: DatabaseKeyIndex) -> Option<MemoView<V>> {
        self.runtime.table.get(key)
    }

    /// Whether the memo of `key` holds a value.
    pub open spec fn has_value(self, key: DatabaseKeyIndex) -> bool {
        self.memo(key) matches Some(memo) && memo.value is Some
    }

    /// The root of the live group of another thread whose provisional state the memo of `key` is.
    pub open spec fn foreign_root(self, me: ThreadId, key: DatabaseKeyIndex) -> Option<
        DatabaseKeyIndex,
    > {
        match (self.memo(key), self.runtime.cycle_groups.group_of(key)) {
            (Some(memo), Some(group)) => if memo.may_be_provisional && memo.verified_at
                == self.runtime.current_revision() && memo.cycle_heads.len() > 0 && group.owner
                != me {
                Some(group.root)
            } else {
                None
            },
            _ => None,
        }
    }

    /// Whether the memo of `key` holds a value that was computed in the current revision, since
    /// other handles were last cancelled.
    pub open spec fn is_current(self, key: DatabaseKeyIndex) -> bool {
        &&& self.has_value(key)
        &&& self.runtime.table[key].verified_at == self.runtime.current_revision()
        &&& self.runtime.table[key].iteration.cancellation_count
            == self.runtime.cancellation_count
    }

    /// Whether the memo of `key` is the last provisional value of `key` as the head of a cycle.
    pub open spec fn is_reusable(self, key: DatabaseKeyIndex) -> bool {
        self.is_current(key) && self.runtime.table[key].cycle_heads.contains(key)
    }

    /// The iteration that a new provisional value of `key` belongs to.
    pub open spec fn initial_iteration(self, key: DatabaseKeyIndex) -> IterationStamp {
        if self.is_current(key) {
            self.runtime.table[key].iteration
        } else {
            IterationStamp::spec_initial(self.runtime.cancellation_count)
        }
    }

    /// The state after the thread `me` met `key` again while evaluating it: `key` is a head in
    /// the group that the thread evaluates, which is a new one rooted at `key` if there was
    /// none. Nothing changes where the thread evaluates no group, and `key` is covered by another
    /// one.
    pub open spec fn joined(self, me: ThreadId, key: DatabaseKeyIndex) -> FetchState<V> {
        let groups = self.runtime.cycle_groups;
        match self.local.current_cycle_group {
            Some(root) => self.with_groups(groups.add_member(root, key, seq![key])),
            None => if groups.covers(key) {
                self
            } else {
                self.with_groups(
                    groups.register(key, me).add_member(key, key, seq![key]),
                ).with_group(Some(key))
            },
        }
    }

    /// The members of the group that the thread evaluates.
    pub open spec fn own_members(self) -> Set<DatabaseKeyIndex> {
        match self.local.current_cycle_group {
            Some(root) => Set::new(
                |key: DatabaseKeyIndex| self.runtime.cycle_groups.is_member(root, key),
            ),
            None => Set::empty(),
        }
    }

    /// The state after the evaluation of the thread's group was given up: the memos of its members
    /// are gone, and so is the group.
    pub open spec fn discarded(self) -> FetchState<V> {
        match self.local.current_cycle_group {
            Some(root) => self.with_memos(
                self.runtime.table.remove_keys(self.own_members()),
            ).with_groups(self.runtime.cycle_groups.complete(root)).with_group(None),
            None => self,
        }
    }
}

/// A query function.
#[derive(Clone, Copy, Debug, PartialEq, Eq, Structural)]
pub struct IngredientImpl {
    pub index: IngredientIndex,
    pub cycle_strategy: CycleRecoveryStrategy,
}

impl IngredientImpl {
    pub open spec fn key_of(self, id: Id) -> DatabaseKeyIndex {
        DatabaseKeyIndex { ingredient_index: self.index, key_index: id }
    }

    /// What is to be done for the query `key`, which the thread `me` has claimed.
    pub open spec fn claimed_step<V>(
        self,
        state: FetchState<V>,
        me: ThreadId,
        key: DatabaseKeyIndex,
    ) -> Step {
        match state.foreign_root(me, key) {
            Some(root) => Step::Park { root },
            None => if state.has_value(key) {
                Step::Verify
            } else {
                Step::Execute
            },
        }
    }

    /// What is to be done for the query `key`, which the thread `me` met again while evaluating it.
    pub open spec fn cycle_step<V>(
        self,
        state: FetchState<V>,
        me: ThreadId,
        key: DatabaseKeyIndex,
    ) -> (FetchState<V>, Step) {
        if self.cycle_strategy == CycleRecoveryStrategy::Panic {
            (state, Step::Panic)
        } else {
            let joined = state.joined(me, key);
            if joined.is_reusable(key) {
                let memo = MemoView { cycle_heads: seq![key], ..joined.runtime.table[key] };
                (joined.with_memos(joined.runtime.table.insert(key, memo)), Step::Return)
            } else {
                (joined, Step::Initial { iteration: joined.initial_iteration(key) })
            }
        }
    }

    /// What is to be done for the query `key` after the thread `me` tried to claim it.
    pub open spec fn cold_step<V>(
        self,
        state: FetchState<V>,
        me: ThreadId,
        key: DatabaseKeyIndex,
        claim: ClaimResult,
    ) -> (FetchState<V>, Step) {
        match claim {
            ClaimResult::Claimed => (state, self.claimed_step(state, me, key)),
            ClaimResult::Running(running) => (state, Step::BlockOn(running)),
            ClaimResult::Cycle { same_thread, owner } => if same_thread {
                self.cycle_step(state, me, key)
            } else {
                match state.runtime.dependency_graph.cross_cycle_walk(
                    state.runtime.cycle_groups,
                    me,
                    owner,
                    state.local.current_cycle_group,
                ) {
                    Some(wake_key) => (
                        state.with_graph(
                            state.runtime.dependency_graph.unblock(wake_key, WaitResult::BackOut),
                        ),
                        Step::Yield,
                    ),
                    None => (state.with_backing_out(true), Step::Unwind(Cancelled::CycleLoser)),
                }
            },
        }
    }
}

/// Unwinds the current thread out of all of its queries because it lost a cross-thread cycle
/// race. The thread is marked first, so that the claims released during unwinding report
/// [`WaitResult::Cancelled`] (waiters retry) rather than [`WaitResult::Panicked`] (waiters
/// propagate the panic).
pub fn cycle_loser_unwind(local: &mut ZalsaLocal) -> (cancelled: Cancelled)
    ensures
        cancelled == Cancelled::CycleLoser,
        final(local)@ == (LocalView { backing_out: true, ..old(local)@ }),
        final(local)@.release_result(true) == WaitResult::Cancelled,
{
    local.begin_cycle_backout();
    Cancelled::CycleLoser
}

impl IngredientImpl {
    pub fn database_key_index(&self, id: Id) -> (key: DatabaseKeyIndex)
        ensures
            key == self.key_of(id),
    {
        DatabaseKeyIndex::new(self.index, id)
    }

    /// Looks for a final value that is known to be valid. Returns whether there is one.
    pub fn fetch_hot<V>(&self, runtime: &mut Runtime<MemoTable<V>>, id: Id) -> (hit: bool)
        ensures
            hit == is_hot(with_table_view(old(runtime)@), self.key_of(id)),
            with_table_view(final(runtime)@) == if hit {
                with_verified(with_table_view(old(runtime)@), self.key_of(id))
            } else {
                with_table_view(old(runtime)@)
            },
            old(runtime)@.wf() ==> final(runtime)@.wf(),
    {
        let key = self.database_key_index(id);
        let update = match runtime.table().get(key) {
            Some(memo) => {
                if memo.value.is_none() || memo.header.may_be_provisional {
                    return false;
                }
                memo.shallow_verify(runtime)
            },
            None => {
                return false;
            },
        };
        if update.yes() {
            let revision = runtime.current_revision();
            runtime.table_mut().mark_verified(key, revision);
            true
        } else {
            false
        }
    }

    /// Goes on with a query after the thread `me` tried to claim it.
    ///
    /// Joining a cross-thread cycle would let two threads iterate one strongly connected component
    /// concurrently, making the fixpoint trace (and with non-monotone recovery functions, the
    /// converged values) depend on thread scheduling. One side must back out entirely and retry
    /// from the top level. The winner is decided by group roles: a group owner beats
    /// threads without a group, and between two group owners the smaller root key wins, a total
    /// order, so the outcome does not depend on which side detected the cycle first.
    ///
    /// Another thread's in-flight provisional cycle state is never executed or reused. Every
    /// provisional memo belongs to a registered cycle group; if that group is live and owned by
    /// another thread, this thread parks on the group until it finalizes (or aborts) and then
    /// retries. It does so by blocking on the claim of the group's root, which the owner holds for
    /// the entire evaluation: that registers an edge in the dependency graph, so a deadlock (the
    /// owner needing a query this thread holds) is detected and resolved through the ordinary
    /// cross-thread cycle rules instead of hanging. A provisional memo without a live group is a
    /// leftover of a panic and falls through to verification and execution.
    pub fn fetch_cold<V>(
        &self,
        runtime: &mut Runtime<MemoTable<V>>,
        local: &mut ZalsaLocal,
        me: ThreadId,
        id: Id,
        claim: ClaimResult,
    ) -> (step: Step)
        requires
            state_of(old(runtime)@, old(local)@).wf(me),
        ensures
            (state_of(final(runtime)@, final(local)@), step) == self.cold_step(
                state_of(old(runtime)@, old(local)@),
                me,
                self.key_of(id),
                claim,
            ),
            state_of(final(runtime)@, final(local)@).wf(me),
    {
        let key = self.database_key_index(id);
        match claim {
            ClaimResult::Claimed => {
                let (provisional, has_value) = match runtime.table().get(key) {
                    Some(memo) => (
                        memo.header.may_be_provisional && memo.header.verified_at
                            == runtime.current_revision()
                            && !memo.header.revisions.cycle_heads.is_empty(),
                        memo.value.is_some(),
                    ),
                    None => (false, false),
                };
                if provisional {
                    match runtime.cycle_groups().group_of(key) {
                        Some(group) => {
                            if group.owner != me {
                                return Step::Park { root: group.root };
                            }
                        },
                        None => {},
                    }
                }
                if has_value {
                    Step::Verify
                } else {
                    Step::Execute
                }
            },
            ClaimResult::Running(running) => Step::BlockOn(running),
            ClaimResult::Cycle { same_thread, owner } => {
                if same_thread {
                    return self.fetch_cold_cycle(runtime, local, me, id);
                }
                let my_root = local.current_cycle_group();
                match runtime.cross_cycle_decision(me, owner, my_root) {
                    Some(wake_key) => {
                        runtime.unblock_queries_blocked_on(wake_key, WaitResult::BackOut);
                        Step::Yield
                    },
                    None => Step::Unwind(cycle_loser_unwind(local)),
                }
            },
        }
    }

    /// Goes on with a query that the thread `me` met again while evaluating it.
    ///
    /// The first cycle hit on a thread forms a cycle group; nested or repeated hits during the
    /// same evaluation join it. The group records its members so that an aborted or panicked
    /// evaluation can be discarded as a whole, and so that other threads can park on the group
    /// instead of observing its provisional state.
    ///
    /// The last provisional value of the query is reused, if it was a cycle head in the last
    /// iteration. Otherwise, the iteration starts with an initial value.
    pub fn fetch_cold_cycle<V>(
        &self,
        runtime: &mut Runtime<MemoTable<V>>,
        local: &mut ZalsaLocal,
        me: ThreadId,
        id: Id,
    ) -> (step: Step)
        requires
            state_of(old(runtime)@, old(local)@).wf(me),
        ensures
            (state_of(final(runtime)@, final(local)@), step) == self.cycle_step(
                state_of(old(runtime)@, old(local)@),
                me,
                self.key_of(id),
            ),
            state_of(final(runtime)@, final(local)@).wf(me),
    {
        let key = self.database_key_index(id);
        match self.cycle_strategy {
            CycleRecoveryStrategy::Panic => {
                return Step::Panic;
            },
            CycleRecoveryStrategy::Fixpoint => {},
            CycleRecoveryStrategy::FallbackImmediate => {},
        }
        let group_root = match local.current_cycle_group() {
            Some(root) => Some(root),
            None => {
                let registered = runtime.cycle_groups_mut().register(key, me);
                if registered.is_some() {
                    local.set_current_cycle_group(Some(key));
                    Some(key)
                } else {
                    // A live group already covers this key. This should not happen while we hold
                    // the (same-thread) claim; the registry is left as it is.
                    None
                }
            },
        };
        match group_root {
            Some(root) => {
                // The contested key is a cycle head by construction.
                let mut heads: Vec<DatabaseKeyIndex> = Vec::new();
                heads.push(key);
                assert(heads@ =~= seq![key]);
                runtime.cycle_groups_mut().add_member(root, key, heads);
            },
            None => {},
        }
        let ghost joined = state_of(old(runtime)@, old(local)@).joined(me, key);
        assert(state_of(runtime@, local@) =~= joined);
        let cancellation_count = runtime.cancellation_count();
        let (current, is_head, iteration) = match runtime.table().get(key) {
            Some(memo) => (
                memo.value.is_some() && memo.header.verified_at == runtime.current_revision()
                    && memo.header.revisions.iteration.cancellation_count() == cancellation_count,
                memo.header.revisions.cycle_heads.contains(key),
                memo.header.revisions.iteration,
            ),
            None => (false, false, IterationStamp::initial(cancellation_count)),
        };
        if current && is_head {
            runtime.table_mut().keep_own_head(key);
            return Step::Return;
        }
        let iteration = if current {
            iteration
        } else {
            IterationStamp::initial(cancellation_count)
        };
        Step::Initial { iteration }
    }
}

/// One fetch of the value of a query by the thread `me`.
///
/// A fetch that starts with an empty query stack is the top-level entry point. A query that
/// unwinds to back out of a cycle unwinds its entire stack; the retry must happen where the
/// stack is empty, so only the top-level entry point catches that.
#[derive(Clone, Copy, Debug, PartialEq, Eq, Structural)]
pub struct Fetch {
    pub ingredient: IngredientImpl,
    pub id: Id,
    pub me: ThreadId,
    pub top_level: bool,
    pub phase: Phase,
}

impl Fetch {
    pub open spec fn key(self) -> DatabaseKeyIndex {
        self.ingredient.key_of(self.id)
    }

    pub open spec fn at(self, phase: Phase) -> Fetch {
        Fetch { phase, ..self }
    }

    /// Whether `event` can follow the action that the fetch is waiting for. Where a memo is said to
    /// be valid or to be made, it holds a value.
    pub open spec fn accepts<V, P>(self, state: FetchState<V>, event: Event<V, P>) -> bool {
        match event {
            Event::Claim(_) => self.phase is Claiming,
            Event::Waited(_) => self.phase is Blocked,
            Event::Probed(_) => self.phase is Probing,
            Event::Verified(valid) => self.phase is Verifying && (valid ==> state.has_value(
                self.key(),
            )),
            Event::Executed(made) => self.phase is Executing && (made ==> state.has_value(
                self.key(),
            )),
            Event::Initial(_) => self.phase is Initial,
            Event::Detached => self.phase is Detached,
            Event::Yielded => self.phase is Yielding,
            Event::Unwound(_) => !(self.phase is Blocked || self.phase is Yielding
                || self.phase is Finished),
        }
    }

    /// The fetch looks for the value from the start.
    pub open spec fn refreshed<V, P>(self, state: FetchState<V>) -> (
        Fetch,
        FetchState<V>,
        Action<P>,
    ) {
        if is_hot(state.runtime, self.key()) {
            (
                self.at(Phase::Finished),
                FetchState { runtime: with_verified(state.runtime, self.key()), ..state },
                Action::Return,
            )
        } else {
            (self.at(Phase::Claiming), state, Action::Claim)
        }
    }

    /// Something unwound to the fetch with `payload`.
    pub open spec fn unwound<V, P>(self, state: FetchState<V>, payload: Payload<P>) -> (
        Fetch,
        FetchState<V>,
        Action<P>,
    ) {
        if !self.top_level {
            (
                self.at(Phase::Finished),
                state,
                match payload {
                    Payload::Cancelled(cancelled) => Action::Throw(cancelled),
                    Payload::Panic(payload) => Action::Resume(payload),
                },
            )
        } else {
            let after = state.discarded();
            match payload {
                Payload::Cancelled(Cancelled::CycleLoser) => (
                    self.at(Phase::Yielding),
                    after.with_backing_out(false),
                    Action::Yield,
                ),
                Payload::Cancelled(Cancelled::CycleCanonicalize { canonical }) => (
                    self.at(Phase::Detached { deferred: after.local.cancellation_deferred }),
                    after.with_backing_out(false).with_deferred(true),
                    Action::FetchDetached { canonical },
                ),
                Payload::Cancelled(cancelled) => (
                    self.at(Phase::Finished),
                    after,
                    Action::Throw(cancelled),
                ),
                Payload::Panic(payload) => (
                    self.at(Phase::Finished),
                    after,
                    Action::Resume(payload),
                ),
            }
        }
    }

    /// The fetch does what `step` says.
    pub open spec fn taken<V, P>(self, state: FetchState<V>, step: Step) -> (
        Fetch,
        FetchState<V>,
        Action<P>,
    ) {
        match step {
            Step::BlockOn(running) => (
                self.at(Phase::Blocked(running)),
                state,
                Action::BlockOn(running),
            ),
            Step::Park { root } => (
                self.at(Phase::Probing),
                state,
                Action::ReleaseAndProbe { root },
            ),
            Step::Verify => (self.at(Phase::Verifying), state, Action::VerifyMemo),
            Step::Execute => (self.at(Phase::Executing), state, Action::Execute),
            Step::Initial { iteration } => (
                self.at(Phase::Initial { iteration }),
                state,
                Action::ComputeInitial,
            ),
            Step::Panic => (self.at(Phase::Panicking), state, Action::PanicOnCycle),
            Step::Return => (self.at(Phase::Finished), state, Action::Return),
            Step::Retry => self.refreshed(state),
            Step::Yield => (self.at(Phase::Yielding), state, Action::Yield),
            Step::Unwind(cancelled) => self.unwound(state, Payload::Cancelled(cancelled)),
        }
    }

    /// What comes of the thread being woken with `result`.
    pub open spec fn waited<V>(state: FetchState<V>, result: WaitResult) -> (FetchState<V>, Step) {
        match result {
            WaitResult::Completed => (state, Step::Retry),
            WaitResult::Cancelled => (state, Step::Retry),
            WaitResult::Panicked => (state, Step::Unwind(Cancelled::PropagatedPanic)),
            WaitResult::BackOut => (
                state.with_backing_out(true),
                Step::Unwind(Cancelled::CycleLoser),
            ),
        }
    }

    /// What comes of asking for the claim of a group's root: where the group waits for a query that
    /// this thread holds, this side yields.
    pub open spec fn probed<V>(state: FetchState<V>, probe: WaitForResult) -> (
        FetchState<V>,
        Step,
    ) {
        match probe {
            WaitForResult::Running(running) => (state, Step::BlockOn(running)),
            WaitForResult::Cycle => (
                state.with_backing_out(true),
                Step::Unwind(Cancelled::CycleLoser),
            ),
            WaitForResult::Available => (state, Step::Yield),
        }
    }

    /// The fetch, the state, and what to do next, after `event`.
    pub open spec fn stepped<V, P>(self, state: FetchState<V>, event: Event<V, P>) -> (
        Fetch,
        FetchState<V>,
        Action<P>,
    ) {
        match event {
            Event::Claim(claim) => {
                let (after, step) = self.ingredient.cold_step(state, self.me, self.key(), claim);
                self.taken(after, step)
            },
            Event::Waited(result) => {
                let (after, step) = Fetch::waited(state, result);
                self.taken(after, step)
            },
            Event::Probed(probe) => {
                let (after, step) = Fetch::probed(state, probe);
                self.taken(after, step)
            },
            Event::Verified(valid) => self.taken(
                state,
                if valid {
                    Step::Return
                } else {
                    Step::Execute
                },
            ),
            Event::Executed(made) => self.taken(
                state,
                if made {
                    Step::Return
                } else {
                    Step::Retry
                },
            ),
            Event::Initial(value) => {
                let memo = MemoView::fixpoint_initial(
                    value,
                    state.runtime.current_revision(),
                    self.key(),
                    self.phase->Initial_iteration,
                );
                self.taken(
                    state.with_memos(state.runtime.table.insert(self.key(), memo)),
                    Step::Return,
                )
            },
            Event::Detached => self.refreshed(state.with_deferred(self.phase->deferred)),
            Event::Yielded => self.refreshed(state),
            Event::Unwound(payload) => self.unwound(
                if self.phase is Detached {
                    state.with_deferred(self.phase->deferred)
                } else {
                    state
                },
                payload,
            ),
        }
    }
}

impl IngredientImpl {
    /// The fetch of the query with the key `id` by the thread `me`, as it starts.
    pub open spec fn begun<V, P>(self, state: FetchState<V>, me: ThreadId, id: Id) -> (
        Fetch,
        FetchState<V>,
        Action<P>,
    ) {
        let fetch = Fetch {
            ingredient: self,
            id,
            me,
            top_level: state.local.query_stack.len() == 0,
            phase: Phase::Claiming,
        };
        match state.local.cancellation(state.runtime.revision_cancelled) {
            Some(cancelled) => (fetch.at(Phase::Finished), state, Action::Throw(cancelled)),
            None => fetch.refreshed(state),
        }
    }

    /// Starts to fetch the value of the query with the key `id`.
    pub fn fetch<V, P>(
        &self,
        runtime: &mut Runtime<MemoTable<V>>,
        local: &ZalsaLocal,
        me: ThreadId,
        id: Id,
    ) -> (started: (Fetch, Action<P>))
        requires
            state_of(old(runtime)@, local@).wf(me),
        ensures
            ({
                let state = state_of(old(runtime)@, local@);
                let fetch = Fetch {
                    ingredient: *self,
                    id,
                    me,
                    top_level: local@.query_stack.len() == 0,
                    phase: Phase::Claiming,
                };
                (started.0, state_of(final(runtime)@, local@), started.1) == match local@.cancellation(
                    old(runtime)@.revision_cancelled,
                ) {
                    Some(cancelled) => (
                        fetch.at(Phase::Finished),
                        state,
                        Action::<P>::Throw(cancelled),
                    ),
                    None => fetch.refreshed::<V, P>(state),
                }
            }),
            (started.0, state_of(final(runtime)@, local@), started.1) == self.begun::<V, P>(
                state_of(old(runtime)@, local@),
                me,
                id,
            ),
            state_of(final(runtime)@, local@).wf(me),
            started.1 is Return ==> state_of(final(runtime)@, local@).has_value(self.key_of(id)),
    {
        let mut fetch = Fetch {
            ingredient: *self,
            id,
            me,
            top_level: local.query_stack_is_empty(),
            phase: Phase::Claiming,
        };
        match local.cancellation(runtime.load_cancellation_flag()) {
            Some(cancelled) => {
                fetch.phase = Phase::Finished;
                (fetch, Action::Throw(cancelled))
            },
            None => {
                let action = fetch.refresh_memo(runtime);
                (fetch, action)
            },
        }
    }
}

impl Fetch {
    pub fn database_key_index(&self) -> (key: DatabaseKeyIndex)
        ensures
            key == self.key(),
    {
        self.ingredient.database_key_index(self.id)
    }

    /// Looks for the value, and claims the query where there is none that is known to be valid.
    pub fn refresh_memo<V, P>(&mut self, runtime: &mut Runtime<MemoTable<V>>) -> (action: Action<P>)
        ensures
            is_hot(with_table_view(old(runtime)@), old(self).key()) ==> {
                &&& action == Action::<P>::Return
                &&& *final(self) == old(self).at(Phase::Finished)
                &&& with_table_view(final(runtime)@) == with_verified(
                    with_table_view(old(runtime)@),
                    old(self).key(),
                )
            },
            !is_hot(with_table_view(old(runtime)@), old(self).key()) ==> {
                &&& action == Action::<P>::Claim
                &&& *final(self) == old(self).at(Phase::Claiming)
                &&& with_table_view(final(runtime)@) == with_table_view(old(runtime)@)
            },
            old(runtime)@.wf() ==> final(runtime)@.wf(),
    {
        if self.ingredient.fetch_hot(runtime, self.id) {
            self.phase = Phase::Finished;
            Action::Return
        } else {
            self.phase = Phase::Claiming;
            Action::Claim
        }
    }

    /// Discards the provisional state of the group that the thread evaluates, if there is one:
    /// removes every member's memo (leaving the never-computed state) and completes the group.
    fn discard_group<V>(&self, runtime: &mut Runtime<MemoTable<V>>, local: &mut ZalsaLocal)
        requires
            state_of(old(runtime)@, old(local)@).wf(self.me),
        ensures
            state_of(final(runtime)@, final(local)@) == state_of(
                old(runtime)@,
                old(local)@,
            ).discarded(),
            state_of(final(runtime)@, final(local)@).wf(self.me),
    {
        match local.current_cycle_group() {
            Some(root) => {
                let members = runtime.cycle_groups().members_of(root);
                proof {
                    let own = state_of(old(runtime)@, old(local)@).own_members();
                    assert forall|key: DatabaseKeyIndex|
                        members@.to_set().contains(key) <==> own.contains(key) by {
                        assert(members@.to_set().contains(key) <==> members@.contains(key));
                    }
                    assert(members@.to_set() =~= own);
                }
                runtime.table_mut().remove_memos(&members);
                runtime.cycle_groups_mut().complete(root);
                local.set_current_cycle_group(None);
            },
            None => {},
        }
    }

    /// Goes on after something unwound to the fetch. Any unwind that reaches the top level while
    /// the thread owns a live cycle group means that the group's evaluation died (panic,
    /// propagated panic, or a back-out): its provisional state is discarded as a whole.
    fn unwind<V, P>(
        &mut self,
        runtime: &mut Runtime<MemoTable<V>>,
        local: &mut ZalsaLocal,
        payload: Payload<P>,
    ) -> (action: Action<P>)
        requires
            state_of(old(runtime)@, old(local)@).wf(old(self).me),
        ensures
            (*final(self), state_of(final(runtime)@, final(local)@), action) == old(
                self,
            ).unwound::<V, P>(state_of(old(runtime)@, old(local)@), payload),
            state_of(final(runtime)@, final(local)@).wf(final(self).me),
    {
        if !self.top_level {
            self.phase = Phase::Finished;
            return match payload {
                Payload::Cancelled(cancelled) => Action::Throw(cancelled),
                Payload::Panic(payload) => Action::Resume(payload),
            };
        }
        self.discard_group(runtime, local);
        match payload {
            Payload::Cancelled(cancelled) => match cancelled {
                Cancelled::CycleLoser => {
                    local.end_cycle_backout();
                    // Give the winning thread time to finalize the cycle.
                    self.phase = Phase::Yielding;
                    Action::Yield
                },
                Cancelled::CycleCanonicalize { canonical } => {
                    local.end_cycle_backout();
                    // The evaluation continues a fixpoint iteration that is completed before local
                    // cancellation is honored; it is put off for exactly that scope.
                    let deferred = local.defer_cancellation(true);
                    self.phase = Phase::Detached { deferred };
                    Action::FetchDetached { canonical }
                },
                _ => {
                    self.phase = Phase::Finished;
                    Action::Throw(cancelled)
                },
            },
            Payload::Panic(payload) => {
                self.phase = Phase::Finished;
                Action::Resume(payload)
            },
        }
    }

    fn take<V, P>(
        &mut self,
        runtime: &mut Runtime<MemoTable<V>>,
        local: &mut ZalsaLocal,
        step: Step,
    ) -> (action: Action<P>)
        requires
            state_of(old(runtime)@, old(local)@).wf(old(self).me),
        ensures
            (*final(self), state_of(final(runtime)@, final(local)@), action) == old(self).taken::<
                V,
                P,
            >(state_of(old(runtime)@, old(local)@), step),
            state_of(final(runtime)@, final(local)@).wf(final(self).me),
    {
        let (phase, action) = match step {
            Step::BlockOn(running) => (Phase::Blocked(running), Action::BlockOn(running)),
            Step::Park { root } => (Phase::Probing, Action::ReleaseAndProbe { root }),
            Step::Verify => (Phase::Verifying, Action::VerifyMemo),
            Step::Execute => (Phase::Executing, Action::Execute),
            Step::Initial { iteration } => (Phase::Initial { iteration }, Action::ComputeInitial),
            Step::Panic => (Phase::Panicking, Action::PanicOnCycle),
            Step::Return => (Phase::Finished, Action::Return),
            Step::Retry => {
                return self.refresh_memo(runtime);
            },
            Step::Yield => (Phase::Yielding, Action::Yield),
            Step::Unwind(cancelled) => {
                return self.unwind(runtime, local, Payload::Cancelled(cancelled));
            },
        };
        self.phase = phase;
        action
    }

    /// Goes on after `event`.
    pub fn step<V, P>(
        &mut self,
        runtime: &mut Runtime<MemoTable<V>>,
        local: &mut ZalsaLocal,
        event: Event<V, P>,
    ) -> (action: Action<P>)
        requires
            state_of(old(runtime)@, old(local)@).wf(old(self).me),
            old(self).accepts(state_of(old(runtime)@, old(local)@), event),
        ensures
            (*final(self), state_of(final(runtime)@, final(local)@), action) == old(
                self,
            ).stepped::<V, P>(state_of(old(runtime)@, old(local)@), event),
            state_of(final(runtime)@, final(local)@).wf(final(self).me),
            action is Return ==> state_of(final(runtime)@, final(local)@).has_value(
                final(self).key(),
            ),
    {
        let step = match event {
            Event::Claim(claim) => {
                let ingredient = self.ingredient;
                ingredient.fetch_cold(runtime, local, self.me, self.id, claim)
            },
            Event::Waited(result) => match self.phase {
                Phase::Blocked(running) => match running.block_on(result) {
                    Ok(BlockOutcome::BackOut) => Step::Unwind(cycle_loser_unwind(local)),
                    Ok(_) => Step::Retry,
                    Err(cancelled) => Step::Unwind(cancelled),
                },
                _ => Step::Retry,
            },
            Event::Probed(probe) => match probe {
                WaitForResult::Running(running) => Step::BlockOn(running),
                WaitForResult::Cycle => Step::Unwind(cycle_loser_unwind(local)),
                WaitForResult::Available => Step::Yield,
            },
            Event::Verified(valid) => if valid {
                Step::Return
            } else {
                Step::Execute
            },
            Event::Executed(made) => if made {
                Step::Return
            } else {
                Step::Retry
            },
            Event::Initial(value) => {
                match self.phase {
                    Phase::Initial { iteration } => {
                        let key = self.database_key_index();
                        let revision = runtime.current_revision();
                        let memo = Memo::fixpoint_initial(value, revision, key, iteration);
                        runtime.table_mut().insert_memo(key, memo);
                    },
                    _ => {},
                }
                Step::Return
            },
            Event::Detached => {
                match self.phase {
                    Phase::Detached { deferred } => {
                        local.defer_cancellation(deferred);
                    },
                    _ => {},
                }
                Step::Retry
            },
            Event::Yielded => Step::Retry,
            Event::Unwound(payload) => {
                match self.phase {
                    Phase::Detached { deferred } => {
                        local.defer_cancellation(deferred);
                    },
                    _ => {},
                }
                return self.unwind(runtime, local, payload);
            },
        };
        self.take(runtime, local, step)
    }

    /// The value that was fetched.
    pub fn value<'a, V>(&self, runtime: &'a Runtime<MemoTable<V>>) -> (value: &'a V)
        requires
            runtime@.table@.contains_key(self.key()),
            runtime@.table@[self.key()].value is Some,
        ensures
            runtime@.table@[self.key()].value == Some(*value),
    {
        match runtime.table().get(self.database_key_index()) {
            Some(memo) => match &memo.value {
                Some(value) => value,
                None => vstd::pervasive::unreached(),
            },
            None => vstd::pervasive::unreached(),
        }
    }

    /// What a query that reads the fetched value depends on from then on.
    pub fn tracked_read<V>(&self, runtime: &Runtime<MemoTable<V>>) -> (read: TrackedRead)
        requires
            runtime@.table@.contains_key(self.key()),
        ensures
            read.key == self.key(),
            read.durability == runtime@.table@[self.key()].durability,
            read.changed_at == runtime@.table@[self.key()].changed_at,
            read.cycle_heads@ == runtime@.table@[self.key()].heads(),
            read.has_accumulated == runtime@.table@[self.key()].accumulated,
            read.accumulated_inputs == runtime@.table@[self.key()].accumulated_inputs,
    {
        let key = self.database_key_index();
        match runtime.table().get(key) {
            Some(memo) => TrackedRead {
                key,
                durability: memo.header.revisions.durability,
                changed_at: memo.header.revisions.changed_at,
                cycle_heads: memo.cycle_heads(),
                has_accumulated: memo.header.revisions.accumulated,
                accumulated_inputs: memo.header.revisions.accumulated_inputs,
            },
            None => vstd::pervasive::unreached(),
        }
    }
}

/// A fetch is over exactly where its last action is to return or to unwind.
pub proof fn law_fetch_ends_with_its_last_action<V, P>(
    fetch: Fetch,
    state: FetchState<V>,
    event: Event<V, P>,
)
    requires
        state.wf(fetch.me),
        fetch.accepts(state, event),
    ensures
        ({
            let (after, _, action) = fetch.stepped(state, event);
            after.phase is Finished <==> (action is Return || action is Throw || action is Resume)
        }),
{
}

/// Backing out of a cycle never escapes from the top level: there the query is retried.
pub proof fn law_back_out_ends_at_top_level<V, P>(
    fetch: Fetch,
    state: FetchState<V>,
    event: Event<V, P>,
)
    requires
        fetch.top_level,
        fetch.accepts(state, event),
    ensures
        fetch.stepped(state, event).2 matches Action::Throw(cancelled) ==> cancelled
            != Cancelled::CycleLoser && !(cancelled is CycleCanonicalize),
{
}

/// Below the top level, what unwinds goes through unchanged, and so does the state.
pub proof fn law_unwinding_passes_through<V, P>(
    fetch: Fetch,
    state: FetchState<V>,
    payload: Payload<P>,
)
    requires
        !fetch.top_level,
        !(fetch.phase is Detached),
    ensures
        fetch.stepped(state, Event::Unwound(payload)).1 == state,
        fetch.stepped(state, Event::Unwound(payload)).2 == match payload {
            Payload::Cancelled(cancelled) => Action::Throw(cancelled),
            Payload::Panic(payload) => Action::Resume(payload),
        },
{
}

/// The provisional state of a live group is never executed, verified or returned by a thread that
/// claimed the query but does not own the group: it waits for the group.
pub proof fn law_foreign_provisional_state_is_not_used<V, P>(fetch: Fetch, state: FetchState<V>)
    requires
        state.wf(fetch.me),
        state.foreign_root(fetch.me, fetch.key()) is Some,
    ensures
        fetch.stepped::<V, P>(state, Event::Claim(ClaimResult::Claimed)) == (
            fetch.at(Phase::Probing),
            state,
            Action::<P>::ReleaseAndProbe {
                root: state.foreign_root(fetch.me, fetch.key())->0,
            },
        ),
        !is_hot(state.runtime, fetch.key()),
{
}

/// A value that is returned without a claim is final: its reader depends on no cycle head.
pub proof fn law_hot_value_is_final<V>(
    runtime: RuntimeView<Map<DatabaseKeyIndex, MemoView<V>>>,
    key: DatabaseKeyIndex,
)
    requires
        is_hot(runtime, key),
    ensures
        runtime.table[key].value is Some,
        !runtime.table[key].may_be_provisional,
        runtime.table[key].heads() == Seq::<DatabaseKeyIndex>::empty(),
{
}

/// A value that was found to be valid is found again, and finding it again changes nothing, until
/// the revision advances.
pub proof fn law_hot_value_stays_hot<V>(
    runtime: RuntimeView<Map<DatabaseKeyIndex, MemoView<V>>>,
    key: DatabaseKeyIndex,
)
    requires
        is_hot(runtime, key),
    ensures
        is_hot(with_verified(runtime, key), key),
        with_verified(with_verified(runtime, key), key) == with_verified(runtime, key),
        with_verified(runtime, key).table[key].value == runtime.table[key].value,
{
    let once = with_verified(runtime, key);
    assert(with_verified(once, key).table =~= once.table);
}

/// A group that is given up leaves nothing: none of its members has a memo or belongs to a group,
/// the thread evaluates no group (nor does the registry know it for one, if it did for this one),
/// and the memos of all other queries are as they were.
pub proof fn law_discarded_group_leaves_nothing<V>(
    state: FetchState<V>,
    me: ThreadId,
    root: DatabaseKeyIndex,
    key: DatabaseKeyIndex,
)
    requires
        state.wf(me),
        state.local.current_cycle_group == Some(root),
    ensures
        state.discarded().wf(me),
        state.discarded().local.current_cycle_group is None,
        !state.discarded().runtime.cycle_groups.groups.contains_key(root),
        state.agrees(me) ==> !state.discarded().runtime.cycle_groups.owner_index.contains_key(me),
        state.runtime.cycle_groups.is_member(root, key) ==> state.discarded().memo(key) is None
            && state.discarded().runtime.cycle_groups.group_of(key) is None,
        !state.runtime.cycle_groups.is_member(root, key) ==> state.discarded().memo(key)
            == state.memo(key) && state.discarded().runtime.cycle_groups.group_of(key)
            == state.runtime.cycle_groups.group_of(key),
{
    crate::cycle_groups::law_complete_leaves_nothing(state.runtime.cycle_groups, root);
    let after = state.discarded().runtime.cycle_groups;
    assert(after.owner_index.contains_key(me) ==> after.owner_index[me] != root);
}

/// What unwinds to the top level discards the group that the thread evaluates, whatever the
/// reason.
pub proof fn law_top_level_unwind_discards_group<V, P>(
    fetch: Fetch,
    state: FetchState<V>,
    payload: Payload<P>,
)
    requires
        fetch.top_level,
        state.wf(fetch.me),
    ensures
        fetch.stepped(state, Event::Unwound(payload)).1.runtime == state.discarded().runtime,
        fetch.stepped(state, Event::Unwound(payload)).1.local.current_cycle_group is None,
{
}

impl<V> FetchState<V> {
    /// Whether `after` has the same as `self` for the thread `other` and for the query `key`: the
    /// group that the registry knows the thread for, the memo of the query, and the revision.
    pub open spec fn same_for(
        self,
        after: FetchState<V>,
        other: ThreadId,
        key: DatabaseKeyIndex,
    ) -> bool {
        &&& after.runtime.cycle_groups.owner_index.get(other)
            == self.runtime.cycle_groups.owner_index.get(other)
        &&& after.memo(key) == self.memo(key)
        &&& after.runtime.revisions == self.runtime.revisions
        &&& after.runtime.cancellation_count == self.runtime.cancellation_count
        &&& after.runtime.revision_cancelled == self.runtime.revision_cancelled
    }

    proof fn lemma_discarded_same_for(
        self,
        me: ThreadId,
        other: ThreadId,
        key: DatabaseKeyIndex,
    )
        requires
            self.wf(me),
            other != me,
            !self.own_members().contains(key),
        ensures
            self.same_for(self.discarded(), other, key),
    {
        let before = self.runtime.cycle_groups.owner_index;
        let after = self.discarded().runtime.cycle_groups.owner_index;
        assert(before.contains_key(other) <==> after.contains_key(other));
    }
}

impl IngredientImpl {
    proof fn lemma_cold_step_same_for<V>(
        self,
        state: FetchState<V>,
        me: ThreadId,
        fetched: DatabaseKeyIndex,
        claim: ClaimResult,
        other: ThreadId,
        key: DatabaseKeyIndex,
    )
        requires
            state.wf(me),
            other != me,
            key != fetched,
        ensures
            state.same_for(self.cold_step(state, me, fetched, claim).0, other, key),
            self.cold_step(state, me, fetched, claim).1 is Unwind ==> self.cold_step(
                state,
                me,
                fetched,
                claim,
            ).0 == state.with_backing_out(true),
    {
        assert(state.same_for(state.joined(me, fetched), other, key));
    }
}

impl Fetch {
    proof fn lemma_unwound_same_for<V, P>(
        self,
        state: FetchState<V>,
        payload: Payload<P>,
        other: ThreadId,
        key: DatabaseKeyIndex,
    )
        requires
            state.wf(self.me),
            other != self.me,
            !state.own_members().contains(key),
        ensures
            state.same_for(self.unwound::<V, P>(state, payload).1, other, key),
    {
        state.lemma_discarded_same_for(self.me, other, key);
    }

    proof fn lemma_taken_same_for<V, P>(
        self,
        state: FetchState<V>,
        step: Step,
        other: ThreadId,
        key: DatabaseKeyIndex,
    )
        requires
            state.wf(self.me),
            other != self.me,
            key != self.key(),
            step is Unwind ==> !state.own_members().contains(key),
        ensures
            state.same_for(self.taken::<V, P>(state, step).1, other, key),
    {
        match step {
            Step::Unwind(cancelled) => {
                self.lemma_unwound_same_for::<V, P>(
                    state,
                    Payload::Cancelled(cancelled),
                    other,
                    key,
                );
            },
            _ => {},
        }
    }
}

/// A step of one thread leaves the groups that other threads evaluate to them, and the memos of
/// all queries but its own and the members of its own group as they were.
pub proof fn law_step_leaves_others_alone<V, P>(
    fetch: Fetch,
    state: FetchState<V>,
    event: Event<V, P>,
    other: ThreadId,
    key: DatabaseKeyIndex,
)
    requires
        state.wf(fetch.me),
        fetch.accepts(state, event),
        other != fetch.me,
        key != fetch.key(),
        !state.own_members().contains(key),
    ensures
        state.same_for(fetch.stepped(state, event).1, other, key),
{
    match event {
        Event::Claim(claim) => {
            let (after, step) = fetch.ingredient.cold_step(state, fetch.me, fetch.key(), claim);
            fetch.ingredient.lemma_cold_step_same_for(
                state,
                fetch.me,
                fetch.key(),
                claim,
                other,
                key,
            );
            fetch.ingredient.lemma_cold_step_keeps_wf(state, fetch.me, fetch.key(), claim);
            if step is Unwind {
                assert(after.own_members() =~= state.own_members());
            }
            fetch.lemma_taken_same_for::<V, P>(after, step, other, key);
        },
        Event::Waited(result) => {
            let (after, step) = Fetch::waited(state, result);
            assert(after.own_members() =~= state.own_members());
            fetch.lemma_taken_same_for::<V, P>(after, step, other, key);
        },
        Event::Probed(probe) => {
            let (after, step) = Fetch::probed(state, probe);
            assert(after.own_members() =~= state.own_members());
            fetch.lemma_taken_same_for::<V, P>(after, step, other, key);
        },
        Event::Unwound(payload) => {
            let after = if fetch.phase is Detached {
                state.with_deferred(fetch.phase->deferred)
            } else {
                state
            };
            assert(after.own_members() =~= state.own_members());
            fetch.lemma_unwound_same_for(after, payload, other, key);
        },
        _ => {},
    }
}

impl IngredientImpl {
    proof fn lemma_cold_step_keeps_wf<V>(
        self,
        state: FetchState<V>,
        me: ThreadId,
        fetched: DatabaseKeyIndex,
        claim: ClaimResult,
    )
        requires
            state.wf(me),
        ensures
            self.cold_step(state, me, fetched, claim).0.wf(me),
            state.agrees(me) ==> self.cold_step(state, me, fetched, claim).0.agrees(me),
    {
        let graph = state.runtime.dependency_graph;
        assert forall|key: DatabaseKeyIndex| #[trigger]
            graph.unblock(key, WaitResult::BackOut).wf() by {
            graph.lemma_wake_keeps_wf(graph.blocked_on(key), WaitResult::BackOut);
        }
    }
}

/// A thread that evaluates the group that the registry knows it for does so after every step.
pub proof fn law_step_keeps_agreement<V, P>(
    fetch: Fetch,
    state: FetchState<V>,
    event: Event<V, P>,
)
    requires
        state.wf(fetch.me),
        state.agrees(fetch.me),
        fetch.accepts(state, event),
    ensures
        fetch.stepped(state, event).1.agrees(fetch.me),
{
    match event {
        Event::Claim(claim) => {
            fetch.ingredient.lemma_cold_step_keeps_wf(state, fetch.me, fetch.key(), claim);
        },
        _ => {},
    }
}

/// Local cancellation is put off exactly while a canonical query is evaluated: any other step
/// leaves it as it was before that.
pub proof fn law_cancellation_is_put_off_only_while_detached<V, P>(
    fetch: Fetch,
    state: FetchState<V>,
    event: Event<V, P>,
)
    requires
        fetch.accepts(state, event),
    ensures
        ({
            let before = if fetch.phase is Detached {
                fetch.phase->deferred
            } else {
                state.local.cancellation_deferred
            };
            let (after, after_state, _) = fetch.stepped(state, event);
            if after.phase is Detached {
                after_state.local.cancellation_deferred && after.phase->deferred == before
            } else {
                after_state.local.cancellation_deferred == before
            }
        }),
{
}

/// A thread that retries from the top level no longer counts as backing out.
pub proof fn law_retry_ends_back_out<V, P>(
    fetch: Fetch,
    state: FetchState<V>,
    payload: Payload<P>,
)
    requires
        fetch.top_level,
    ensures
        ({
            let (_, after, action) = fetch.stepped(state, Event::Unwound(payload));
            action is Yield || action is FetchDetached ==> !after.local.backing_out
        }),
{
}

/// A thread that lost a cycle lets the waiters of its queries retry; it does not pass a panic on to
/// them.
pub proof fn law_loser_lets_waiters_retry<V>(
    ingredient: IngredientImpl,
    state: FetchState<V>,
    me: ThreadId,
    key: DatabaseKeyIndex,
    claim: ClaimResult,
)
    requires
        ingredient.cold_step(state, me, key, claim).1 is Unwind,
    ensures
        ingredient.cold_step(state, me, key, claim).1 == Step::Unwind(Cancelled::CycleLoser),
        ingredient.cold_step(state, me, key, claim).0.local.release_result(true)
            == WaitResult::Cancelled,
{
}

/// A query that closes a cycle becomes a member of the group that its thread evaluates, as a head
/// of itself, unless a group of another thread covers it.
pub proof fn law_cycle_head_joins_group<V>(
    ingredient: IngredientImpl,
    state: FetchState<V>,
    me: ThreadId,
    key: DatabaseKeyIndex,
)
    requires
        state.wf(me),
        ingredient.cycle_strategy != CycleRecoveryStrategy::Panic,
        state.local.current_cycle_group is Some || !state.runtime.cycle_groups.covers(key),
    ensures
        ({
            let after = ingredient.cycle_step(state, me, key).0;
            let groups = after.runtime.cycle_groups;
            &&& after.local.current_cycle_group is Some
            &&& groups.group_of(key) matches Some(group) && group.owner == me && Some(group.root)
                == after.local.current_cycle_group
            &&& groups.read(after.local.current_cycle_group->0, key, key)
        }),
{
    let after = ingredient.cycle_step(state, me, key).0;
    assert(after.runtime.cycle_groups.member_heads[key] == seq![key]);
    assert(seq![key][0] == key);
}

/// A provisional value is reused, or an iteration continued, only within the revision and the
/// cancellation count that it was computed in.
pub proof fn law_provisional_values_are_current<V>(
    ingredient: IngredientImpl,
    state: FetchState<V>,
    me: ThreadId,
    key: DatabaseKeyIndex,
)
    ensures
        ({
            let (after, step) = ingredient.cycle_step(state, me, key);
            &&& step is Return ==> after.is_current(key) && after.runtime.table[key].cycle_heads
                == seq![key] && after.runtime.table[key].value == state.runtime.table[key].value
            &&& step matches Step::Initial { iteration } ==> iteration.cancellation_count
                == state.runtime.cancellation_count
        }),
{
}

/// The value that a cycle iteration starts with is what the query gives when it is met again within
/// the cycle.
pub proof fn law_initial_value_is_reused<V, P>(
    fetch: Fetch,
    state: FetchState<V>,
    value: V,
)
    requires
        state.wf(fetch.me),
        fetch.phase matches Phase::Initial { iteration } && iteration.cancellation_count
            == state.runtime.cancellation_count,
        fetch.ingredient.cycle_strategy != CycleRecoveryStrategy::Panic,
    ensures
        ({
            let (_, after, action) = fetch.stepped::<V, P>(state, Event::Initial(value));
            let (again, step) = fetch.ingredient.cycle_step(after, fetch.me, fetch.key());
            &&& action is Return
            &&& step is Return
            &&& again.runtime.table[fetch.key()].value == Some(value)
        }),
{
    let after = fetch.stepped::<V, P>(state, Event::Initial(value)).1;
    assert(seq![fetch.key()][0] == fetch.key());
}

/// Between two threads that wait for each other, the winner makes the other side back out: after
/// its step the other thread no longer waits for it.
pub proof fn law_winner_is_no_longer_waited_for<V>(
    ingredient: IngredientImpl,
    state: FetchState<V>,
    me: ThreadId,
    key: DatabaseKeyIndex,
    owner: ThreadId,
)
    requires
        state.wf(me),
        ingredient.cold_step(
            state,
            me,
            key,
            (ClaimResult::Cycle { same_thread: false, owner }),
        ).1 is Yield,
    ensures
        !ingredient.cold_step(
            state,
            me,
            key,
            (ClaimResult::Cycle { same_thread: false, owner }),
        ).0.runtime.dependency_graph.depends_on(owner, me),
{
    crate::dependency_graph::law_back_out_breaks_cycle(
        state.runtime.dependency_graph,
        state.runtime.cycle_groups,
        me,
        owner,
        state.local.current_cycle_group,
    );
}

} // verus!
