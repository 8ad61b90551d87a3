//! How the value of a query is fetched.
use vstd::prelude::*;

use crate::cancelled::{Cancelled, Payload};
use crate::cycle_groups::GroupState;
use crate::dependency_graph::WaitResult;
use crate::fetch::{
    Action, ClaimResult, Event, Fetch, FetchState, IngredientImpl, Phase, Step, TrackedRead,
    WaitForResult,
};
use crate::key::{DatabaseKeyIndex, Id, ThreadId};
use crate::local::LocalView;
use crate::memo::{InputAccumulatedValues, IterationStamp, MemoTable, MemoView};
use crate::revision::Revision;
use crate::runtime::{Running, Runtime, RuntimeView};

verus! {

/// The query that is fetched.
pub open spec fn query_of(fetch: Fetch) -> DatabaseKeyIndex {
    DatabaseKeyIndex { ingredient_index: fetch.ingredient.index, key_index: fetch.id }
}

/// `key` has a value that is final, and that nothing as durable has changed since it was found to be
/// valid, or that was found to be valid in the current revision.
pub open spec fn is_known_to_be_valid<V>(
    table: Map<DatabaseKeyIndex, MemoView<V>>,
    revisions: Seq<Revision>,
    key: DatabaseKeyIndex,
) -> bool {
    table.get(key) matches Some(memo) && memo.value is Some && !memo.may_be_provisional && (
    memo.verified_at == revisions[0] || crate::laws::revisions::last_change_under(memo, revisions)
        <= memo.verified_at.generation)
}

/// Nothing but memos differs.
pub open spec fn same_but_memos<V>(before: FetchState<V>, after: FetchState<V>) -> bool {
    &&& after.local == before.local
    &&& after.runtime.revision_cancelled == before.runtime.revision_cancelled
    &&& after.runtime.cancellation_count == before.runtime.cancellation_count
    &&& after.runtime.cycle_groups == before.runtime.cycle_groups
    &&& after.runtime.revisions == before.runtime.revisions
    &&& after.runtime.dependency_graph == before.runtime.dependency_graph
}

/// What looking for a value comes to: a value that is known to be valid is returned, and is valid in
/// the current revision from then on. Otherwise the query is to be claimed, and nothing changes.
pub open spec fn looks_for_the_value<V, P>(
    fetch: Fetch,
    state: FetchState<V>,
    outcome: (Fetch, FetchState<V>, Action<P>),
) -> bool {
    let key = query_of(fetch);
    let (after, after_state, action) = outcome;
    if is_known_to_be_valid(state.runtime.table, state.runtime.revisions, key) {
        &&& action is Return
        &&& after.phase is Finished
        &&& same_but_memos(state, after_state)
        &&& after_state.runtime.table == state.runtime.table.insert(
            key,
            MemoView { verified_at: state.runtime.revisions[0], ..state.runtime.table[key] },
        )
    } else {
        &&& action is Claim
        &&& after.phase is Claiming
        &&& after_state == state
    }
}

/// The state is all of the runtime, with the memos of its table, and all of the thread's own.
pub proof fn law_state_is_all_there_is<V>(runtime: RuntimeView<MemoTable<V>>, local: LocalView)
    ensures
        ({
            let state = crate::fetch::state_of(runtime, local);
            &&& state.local == local
            &&& state.runtime.revision_cancelled == runtime.revision_cancelled
            &&& state.runtime.cancellation_count == runtime.cancellation_count
            &&& state.runtime.cycle_groups == runtime.cycle_groups
            &&& state.runtime.revisions == runtime.revisions
            &&& state.runtime.dependency_graph == runtime.dependency_graph
            &&& state.runtime.table == runtime.table@
        }),
        crate::fetch::with_table_view(runtime) == crate::fetch::state_of(runtime, local).runtime,
{
}

/// A query is named by its function and its key.
pub proof fn law_queries_are_named_by_function_and_key(
    ingredient: IngredientImpl,
    fetch: Fetch,
    id: Id,
)
    ensures
        ingredient.key_of(id).ingredient_index == ingredient.index,
        ingredient.key_of(id).key_index == id,
        fetch.key() == query_of(fetch),
{
}

/// A value is found without a claim exactly where it is final and known to be valid, whatever else
/// is true of the memo. It is then valid in the current revision, and nothing else changes.
pub proof fn law_hot_values_are_final_and_valid<V>(
    runtime: RuntimeView<Map<DatabaseKeyIndex, MemoView<V>>>,
    key: DatabaseKeyIndex,
    other: DatabaseKeyIndex,
)
    requires
        runtime.wf(),
        other != key,
    ensures
        crate::fetch::is_hot(runtime, key) <==> is_known_to_be_valid(
            runtime.table,
            runtime.revisions,
            key,
        ),
        ({
            let after = crate::fetch::with_verified(runtime, key);
            &&& after.table.contains_key(key)
            &&& after.table[key] == (MemoView {
                verified_at: runtime.revisions[0],
                ..runtime.table[key]
            })
            &&& after.table.get(other) == runtime.table.get(other)
            &&& after.revision_cancelled == runtime.revision_cancelled
            &&& after.cancellation_count == runtime.cancellation_count
            &&& after.cycle_groups == runtime.cycle_groups
            &&& after.revisions == runtime.revisions
            &&& after.dependency_graph == runtime.dependency_graph
        }),
{
}

/// A step changes what a fetch waits for, and nothing else of it.
pub proof fn law_fetch_stays_the_same_fetch<V, P>(
    fetch: Fetch,
    state: FetchState<V>,
    event: Event<V, P>,
)
    ensures
        ({
            let after = fetch.stepped(state, event).0;
            &&& after.ingredient == fetch.ingredient
            &&& after.id == fetch.id
            &&& after.me == fetch.me
            &&& after.top_level == fetch.top_level
        }),
{
}

/// After a successful claim nothing changes and nothing is returned. Where the memo is the
/// provisional state, of the current revision, of a live group of another thread, the fetch
/// waits for the root of that group. Otherwise it asks for verification exactly where the memo
/// holds a value, and for execution where it does not.
pub proof fn law_claimed_queries_are_verified_or_executed<V>(
    ingredient: IngredientImpl,
    state: FetchState<V>,
    me: ThreadId,
    key: DatabaseKeyIndex,
)
    ensures
        ({
            let (after, step) = ingredient.cold_step(state, me, key, ClaimResult::Claimed);
            let groups = state.runtime.cycle_groups;
            let memo = state.runtime.table[key];
            let foreign = state.runtime.table.contains_key(key) && memo.may_be_provisional
                && memo.verified_at == state.runtime.revisions[0] && memo.cycle_heads.len() > 0
                && groups.member_index.contains_key(key) && groups.groups.contains_key(
                groups.member_index[key],
            ) && groups.groups[groups.member_index[key]].owner != me;
            let valued = state.runtime.table.contains_key(key) && memo.value is Some;
            &&& after == state
            &&& foreign ==> step == (Step::Park {
                root: groups.groups[groups.member_index[key]].root,
            })
            &&& !foreign && valued ==> step is Verify
            &&& !foreign && !valued ==> step is Execute
        }),
{
}

/// A query that another thread computes is waited for, and nothing changes.
pub proof fn law_running_queries_are_waited_for<V>(
    ingredient: IngredientImpl,
    state: FetchState<V>,
    me: ThreadId,
    key: DatabaseKeyIndex,
    running: Running,
)
    ensures
        ingredient.cold_step(state, me, key, ClaimResult::Running(running)) == (
            state,
            Step::BlockOn(running),
        ),
{
}

/// A query that is met again by the thread that evaluates it goes the way of a cycle, whoever is said
/// to own it.
pub proof fn law_own_cycles_are_cycles<V>(
    ingredient: IngredientImpl,
    state: FetchState<V>,
    me: ThreadId,
    key: DatabaseKeyIndex,
    owner: ThreadId,
)
    ensures
        ingredient.cold_step(state, me, key, (ClaimResult::Cycle { same_thread: true, owner }))
            == ingredient.cycle_step(state, me, key),
{
}

/// A query that is not made for cycles panics, and changes nothing.
pub proof fn law_cycles_of_strict_queries_panic<V>(
    ingredient: IngredientImpl,
    state: FetchState<V>,
    me: ThreadId,
    key: DatabaseKeyIndex,
)
    requires
        ingredient.cycle_strategy is Panic,
    ensures
        ingredient.cycle_step(state, me, key) == (state, Step::Panic),
{
}

/// The last provisional value of a query is reused, whatever its iteration, durability and last
/// change: where its memo holds a value, is valid in the current revision, has the current
/// cancellation count, and has the query among its heads. Of the memo only the other heads are
/// forgotten, and no other memo changes.
pub proof fn law_last_provisional_value_is_reused<V>(
    ingredient: IngredientImpl,
    state: FetchState<V>,
    me: ThreadId,
    key: DatabaseKeyIndex,
    other: DatabaseKeyIndex,
)
    requires
        !(ingredient.cycle_strategy is Panic),
        state.runtime.table.contains_key(key),
        state.runtime.table[key].value is Some,
        state.runtime.table[key].verified_at == state.runtime.revisions[0],
        state.runtime.table[key].iteration.cancellation_count == state.runtime.cancellation_count,
        state.runtime.table[key].cycle_heads.contains(key),
        other != key,
    ensures
        ({
            let (after, step) = ingredient.cycle_step(state, me, key);
            let (memo, kept) = (state.runtime.table[key], after.runtime.table[key]);
            &&& step is Return
            &&& after.runtime.table.contains_key(key)
            &&& kept.value == memo.value
            &&& kept.cycle_heads.len() == 1
            &&& kept.cycle_heads[0] == key
            &&& kept.verified_at == memo.verified_at
            &&& kept.may_be_provisional == memo.may_be_provisional
            &&& kept.changed_at == memo.changed_at
            &&& kept.durability == memo.durability
            &&& kept.iteration == memo.iteration
            &&& kept.accumulated == memo.accumulated
            &&& kept.accumulated_inputs == memo.accumulated_inputs
            &&& after.runtime.table.get(other) == state.runtime.table.get(other)
        }),
{
}

/// Where there is no provisional value to reuse, a cycle starts from the initial value, and no memo
/// changes. The iteration is that of the memo where this holds a value, is valid in the current
/// revision, and has the current cancellation count. Otherwise it is the first one.
pub proof fn law_cycles_start_from_the_initial_value<V>(
    ingredient: IngredientImpl,
    state: FetchState<V>,
    me: ThreadId,
    key: DatabaseKeyIndex,
)
    requires
        !(ingredient.cycle_strategy is Panic),
    ensures
        ({
            let (after, step) = ingredient.cycle_step(state, me, key);
            let memo = state.runtime.table[key];
            let current = state.runtime.table.contains_key(key) && memo.value is Some
                && memo.verified_at == state.runtime.revisions[0]
                && memo.iteration.cancellation_count == state.runtime.cancellation_count;
            &&& step is Return <==> current && memo.cycle_heads.contains(key)
            &&& current && !memo.cycle_heads.contains(key) ==> step == (Step::Initial {
                iteration: memo.iteration,
            }) && after.runtime.table == state.runtime.table
            &&& !current ==> step == (Step::Initial {
                iteration: IterationStamp {
                    iteration: 0,
                    cancellation_count: state.runtime.cancellation_count,
                },
            }) && after.runtime.table == state.runtime.table
        }),
{
}

/// A cycle makes the query a head of itself in the group that the thread evaluates. Where it
/// evaluates none, a group of the thread is made, rooted at the query, unless the query is a root
/// or a member already: then no group changes. No entry of another query or thread changes.
pub proof fn law_cycles_are_recorded<V>(
    ingredient: IngredientImpl,
    state: FetchState<V>,
    me: ThreadId,
    key: DatabaseKeyIndex,
    other: DatabaseKeyIndex,
    thread: ThreadId,
)
    requires
        !(ingredient.cycle_strategy is Panic),
        other != key,
        thread != me,
    ensures
        ({
            let after = ingredient.cycle_step(state, me, key).0;
            let (old_groups, groups) = (state.runtime.cycle_groups, after.runtime.cycle_groups);
            let known = old_groups.groups.contains_key(key) || old_groups.member_index.contains_key(
                key,
            );
            match state.local.current_cycle_group {
                Some(root) => {
                    &&& groups.member_index.get(key) == Some(root)
                    &&& groups.member_heads.get(key) == Some(seq![key])
                    &&& groups.groups == old_groups.groups
                    &&& groups.owner_index == old_groups.owner_index
                    &&& after.local.current_cycle_group == Some(root)
                },
                None => if known {
                    &&& groups == old_groups
                    &&& after.local.current_cycle_group is None
                } else {
                    &&& groups.groups.get(key) == Some(GroupState { root: key, owner: me })
                    &&& groups.member_index.get(key) == Some(key)
                    &&& groups.member_heads.get(key) == Some(seq![key])
                    &&& groups.owner_index.get(me) == Some(key)
                    &&& after.local.current_cycle_group == Some(key)
                },
            }
        }),
        ({
            let after = ingredient.cycle_step(state, me, key).0;
            let (old_groups, groups) = (state.runtime.cycle_groups, after.runtime.cycle_groups);
            &&& groups.groups.get(other) == old_groups.groups.get(other)
            &&& groups.member_index.get(other) == old_groups.member_index.get(other)
            &&& groups.member_heads.get(other) == old_groups.member_heads.get(other)
            &&& groups.owner_index.get(thread) == old_groups.owner_index.get(thread)
            &&& after.runtime.revision_cancelled == state.runtime.revision_cancelled
            &&& after.runtime.cancellation_count == state.runtime.cancellation_count
            &&& after.runtime.revisions == state.runtime.revisions
            &&& after.runtime.dependency_graph == state.runtime.dependency_graph
            &&& after.local == (LocalView {
                current_cycle_group: after.local.current_cycle_group,
                ..state.local
            })
        }),
{
}

/// The winner of a cycle across threads tells exactly the threads that are blocked on the query it
/// holds there to back out, changes nothing else, and gives way. The loser unwinds, and is marked
/// as backing out, which changes nothing else.
pub proof fn law_cycles_across_threads_have_one_side_back_out<V>(
    ingredient: IngredientImpl,
    state: FetchState<V>,
    me: ThreadId,
    key: DatabaseKeyIndex,
    owner: ThreadId,
    thread: ThreadId,
)
    ensures
        ({
            let (after, step) = ingredient.cold_step(
                state,
                me,
                key,
                ClaimResult::Cycle { same_thread: false, owner },
            );
            let graph = state.runtime.dependency_graph;
            match graph.cross_cycle_walk(
                state.runtime.cycle_groups,
                me,
                owner,
                state.local.current_cycle_group,
            ) {
                Some(held) => {
                    let waits = graph.edges.contains_key(thread) && graph.edges[thread].key == held;
                    let after_graph = after.runtime.dependency_graph;
                    &&& step is Yield
                    &&& waits ==> after_graph.edges.get(thread) is None
                        && after_graph.wait_results.get(thread) == Some(WaitResult::BackOut)
                    &&& !waits ==> after_graph.edges.get(thread) == graph.edges.get(thread)
                        && after_graph.wait_results.get(thread) == graph.wait_results.get(thread)
                    &&& after_graph.transferred == graph.transferred
                    &&& after == (FetchState {
                        runtime: RuntimeView { dependency_graph: after_graph, ..state.runtime },
                        ..state
                    })
                },
                None => {
                    &&& step == Step::Unwind(Cancelled::CycleLoser)
                    &&& after == (FetchState {
                        local: LocalView { backing_out: true, ..state.local },
                        ..state
                    })
                },
            }
        }),
{
}

/// After a claim a fetch does what the claim calls for, in the state that the claim leads to.
pub proof fn law_fetch_follows_the_claim<V, P>(
    fetch: Fetch,
    state: FetchState<V>,
    claim: ClaimResult,
)
    requires
        fetch.phase is Claiming,
    ensures
        ({
            let (called_for, step) = fetch.ingredient.cold_step(
                state,
                fetch.me,
                query_of(fetch),
                claim,
            );
            let (after, after_state, action) = fetch.stepped::<V, P>(state, Event::Claim(claim));
            match step {
                Step::BlockOn(running) => action == Action::<P>::BlockOn(running) && after.phase
                    == Phase::Blocked(running) && after_state == called_for,
                Step::Park { root } => action == (Action::<P>::ReleaseAndProbe { root })
                    && after.phase is Probing && after_state == called_for,
                Step::Verify => action is VerifyMemo && after.phase is Verifying && after_state
                    == called_for,
                Step::Execute => action is Execute && after.phase is Executing && after_state
                    == called_for,
                Step::Initial { iteration } => action is ComputeInitial && after.phase
                    == (Phase::Initial { iteration }) && after_state == called_for,
                Step::Panic => action is PanicOnCycle && after.phase is Panicking && after_state
                    == called_for,
                Step::Return => action is Return && after.phase is Finished && after_state
                    == called_for,
                Step::Yield => action is Yield && after.phase is Yielding && after_state
                    == called_for,
                Step::Unwind(cancelled) => (after, after_state, action) == fetch.stepped::<V, P>(
                    called_for,
                    Event::Unwound(Payload::Cancelled(cancelled)),
                ),
                Step::Retry => false,
            }
        }),
{
}

/// A thread that is woken with `Completed` or `Cancelled` looks for the value again, in the state as
/// it is, at the top level and below it.
pub proof fn law_woken_fetches_look_again<V, P>(
    fetch: Fetch,
    state: FetchState<V>,
    result: WaitResult,
)
    requires
        state.runtime.wf(),
        fetch.phase is Blocked,
        result is Completed || result is Cancelled,
    ensures
        looks_for_the_value(fetch, state, fetch.stepped::<V, P>(state, Event::Waited(result))),
{
}

/// A thread that is woken with `Panicked` unwinds with a propagated panic, and so it does only then:
/// it does what unwinding with that would make it do. One that is woken with `BackOut` does what
/// unwinding as the loser of a cycle would make it do, marked as backing out.
pub proof fn law_woken_fetches_unwind<V, P>(fetch: Fetch, state: FetchState<V>, result: WaitResult)
    requires
        state.runtime.wf(),
        fetch.phase is Blocked,
    ensures
        result is Panicked ==> fetch.stepped::<V, P>(state, Event::Waited(result)) == fetch.stepped::<
            V,
            P,
        >(state, Event::Unwound(Payload::Cancelled(Cancelled::PropagatedPanic))),
        result is BackOut ==> fetch.stepped::<V, P>(state, Event::Waited(result)) == fetch.stepped::<
            V,
            P,
        >(
            (FetchState { local: LocalView { backing_out: true, ..state.local }, ..state }),
            Event::Unwound(Payload::Cancelled(Cancelled::CycleLoser)),
        ),
        fetch.stepped::<V, P>(state, Event::Waited(result)).2 == Action::<P>::Throw(
            Cancelled::PropagatedPanic,
        ) <==> result is Panicked,
{
}

/// A fetch that asked for the root of a group waits for who holds it. Where nobody does, it gives way.
/// Where the group waits for this thread, it does what unwinding as the loser of a cycle would
/// make it do, marked as backing out.
pub proof fn law_parked_fetches_wait_for_the_root<V, P>(
    fetch: Fetch,
    state: FetchState<V>,
    running: Running,
)
    requires
        fetch.phase is Probing,
    ensures
        ({
            let (after, after_state, action) = fetch.stepped::<V, P>(
                state,
                Event::Probed(WaitForResult::Running(running)),
            );
            action == Action::<P>::BlockOn(running) && after.phase == Phase::Blocked(running)
                && after_state == state
        }),
        ({
            let (after, after_state, action) = fetch.stepped::<V, P>(
                state,
                Event::Probed(WaitForResult::Available),
            );
            action is Yield && after.phase is Yielding && after_state == state
        }),
        fetch.stepped::<V, P>(state, Event::Probed(WaitForResult::Cycle)) == fetch.stepped::<V, P>(
            (FetchState { local: LocalView { backing_out: true, ..state.local }, ..state }),
            Event::Unwound(Payload::Cancelled(Cancelled::CycleLoser)),
        ),
{
}

/// A memo is returned exactly where its verification succeeded; otherwise the query is executed.
/// Nothing changes.
pub proof fn law_only_verified_memos_are_returned<V, P>(
    fetch: Fetch,
    state: FetchState<V>,
    valid: bool,
)
    requires
        fetch.phase is Verifying,
    ensures
        ({
            let (after, after_state, action) = fetch.stepped::<V, P>(state, Event::Verified(valid));
            &&& after_state == state
            &&& valid ==> action is Return && after.phase is Finished
            &&& !valid ==> action is Execute && after.phase is Executing
        }),
{
}

/// What an execution made is returned, and nothing changes. Where it made nothing, the fetch looks
/// for the value again.
pub proof fn law_executed_queries_are_returned<V, P>(fetch: Fetch, state: FetchState<V>)
    requires
        state.runtime.wf(),
        fetch.phase is Executing,
    ensures
        ({
            let (after, after_state, action) = fetch.stepped::<V, P>(state, Event::Executed(true));
            action is Return && after.phase is Finished && after_state == state
        }),
        looks_for_the_value(fetch, state, fetch.stepped::<V, P>(state, Event::Executed(false))),
{
}

/// The initial value of a cycle is entered as the memo of the query, for the current revision and the
/// iteration that was asked for, and is returned. No other memo changes, nor anything else.
pub proof fn law_initial_values_are_entered<V, P>(
    fetch: Fetch,
    state: FetchState<V>,
    value: V,
    iteration: IterationStamp,
    other: DatabaseKeyIndex,
)
    requires
        fetch.phase == (Phase::Initial { iteration }),
        other != query_of(fetch),
    ensures
        ({
            let (after, after_state, action) = fetch.stepped::<V, P>(state, Event::Initial(value));
            let memo = after_state.runtime.table[query_of(fetch)];
            &&& action is Return
            &&& after.phase is Finished
            &&& same_but_memos(state, after_state)
            &&& after_state.runtime.table.get(other) == state.runtime.table.get(other)
            &&& after_state.runtime.table.contains_key(query_of(fetch))
            &&& memo.value == Some(value)
            &&& memo.verified_at == state.runtime.revisions[0]
            &&& memo.may_be_provisional
            &&& memo.iteration == iteration
            &&& memo.cycle_heads.len() == 1
            &&& memo.cycle_heads[0] == query_of(fetch)
            &&& memo.changed_at.generation == 1
            &&& memo.durability is NeverChange
            &&& !memo.accumulated
            &&& memo.accumulated_inputs == InputAccumulatedValues::Empty
        }),
{
}

/// After its turn, and after the canonical query was evaluated, a fetch looks for the value again. In
/// the latter case cancellation is put off, or not, as it was before.
pub proof fn law_retries_look_again<V, P>(fetch: Fetch, state: FetchState<V>, deferred: bool)
    requires
        state.runtime.wf(),
    ensures
        fetch.phase is Yielding ==> looks_for_the_value(
            fetch,
            state,
            fetch.stepped::<V, P>(state, Event::Yielded),
        ),
        fetch.phase == (Phase::Detached { deferred }) ==> looks_for_the_value(
            fetch,
            (FetchState {
                local: LocalView { cancellation_deferred: deferred, ..state.local },
                ..state
            }),
            fetch.stepped::<V, P>(state, Event::Detached),
        ),
{
}

/// Below the top level, whatever unwinds goes on with its own payload. Nothing changes, but that
/// cancellation is put off, or not, as it was before the canonical query, if one was evaluated.
pub proof fn law_unwinding_goes_on_below_the_top_level<V, P>(
    fetch: Fetch,
    state: FetchState<V>,
    payload: Payload<P>,
)
    requires
        !fetch.top_level,
    ensures
        ({
            let (after, after_state, action) = fetch.stepped(state, Event::Unwound(payload));
            let deferred = match fetch.phase {
                Phase::Detached { deferred } => deferred,
                _ => state.local.cancellation_deferred,
            };
            &&& after.phase is Finished
            &&& payload matches Payload::Cancelled(cancelled) ==> action == Action::<P>::Throw(
                cancelled,
            )
            &&& payload matches Payload::Panic(payload) ==> action == Action::<P>::Resume(payload)
            &&& after_state == (FetchState {
                local: LocalView { cancellation_deferred: deferred, ..state.local },
                ..state
            })
        }),
{
}

/// At the top level, the loser of a cycle gives way and retries, a cycle that was entered elsewhere
/// than at its canonical query is entered there, and whatever else unwinds goes on with its own
/// payload.
pub proof fn law_unwinding_ends_at_the_top_level<V, P>(
    fetch: Fetch,
    state: FetchState<V>,
    payload: Payload<P>,
)
    requires
        fetch.top_level,
    ensures
        ({
            let (after, after_state, action) = fetch.stepped(state, Event::Unwound(payload));
            let deferred = match fetch.phase {
                Phase::Detached { deferred } => deferred,
                _ => state.local.cancellation_deferred,
            };
            let retries = LocalView {
                current_cycle_group: None,
                backing_out: false,
                cancellation_deferred: deferred,
                ..state.local
            };
            match payload {
                Payload::Cancelled(Cancelled::CycleLoser) => {
                    &&& action is Yield
                    &&& after.phase is Yielding
                    &&& after_state.local == retries
                },
                Payload::Cancelled(Cancelled::CycleCanonicalize { canonical }) => {
                    &&& action == (Action::<P>::FetchDetached { canonical })
                    &&& after.phase == (Phase::Detached { deferred })
                    &&& after_state.local == (LocalView { cancellation_deferred: true, ..retries })
                },
                Payload::Cancelled(cancelled) => {
                    &&& action == Action::<P>::Throw(cancelled)
                    &&& after.phase is Finished
                    &&& after_state.local == (LocalView {
                        backing_out: state.local.backing_out,
                        ..retries
                    })
                },
                Payload::Panic(payload) => {
                    &&& action == Action::<P>::Resume(payload)
                    &&& after.phase is Finished
                    &&& after_state.local == (LocalView {
                        backing_out: state.local.backing_out,
                        ..retries
                    })
                },
            }
        }),
{
}

/// Whatever unwinds to the top level, the group that the thread evaluates is given up: the memos and
/// the entries of the queries recorded for it are gone, and so are the group and its owner. All
/// other memos and entries stay, and so does everything else of the runtime. Where the thread
/// evaluates no group, nothing of the runtime changes.
pub proof fn law_unwinding_gives_the_group_up<V, P>(
    fetch: Fetch,
    state: FetchState<V>,
    payload: Payload<P>,
    key: DatabaseKeyIndex,
    thread: ThreadId,
)
    requires
        fetch.top_level,
    ensures
        ({
            let after = fetch.stepped(state, Event::Unwound(payload)).1.runtime;
            let (before, old_groups) = (state.runtime, state.runtime.cycle_groups);
            let groups = after.cycle_groups;
            match state.local.current_cycle_group {
                None => after == before,
                Some(root) => {
                    let of_group = old_groups.member_index.get(key) == Some(root);
                    &&& of_group ==> !after.table.contains_key(key)
                        && !groups.member_index.contains_key(key)
                        && !groups.member_heads.contains_key(key)
                    &&& !of_group ==> after.table.get(key) == before.table.get(key)
                        && groups.member_index.get(key) == old_groups.member_index.get(key)
                        && groups.member_heads.get(key) == old_groups.member_heads.get(key)
                    &&& groups.groups.get(key) == if key == root {
                        None
                    } else {
                        old_groups.groups.get(key)
                    }
                    &&& groups.owner_index.get(thread) == if old_groups.owner_index.get(thread)
                        == Some(root) {
                        None
                    } else {
                        old_groups.owner_index.get(thread)
                    }
                    &&& after.revision_cancelled == before.revision_cancelled
                    &&& after.cancellation_count == before.cancellation_count
                    &&& after.revisions == before.revisions
                    &&& after.dependency_graph == before.dependency_graph
                },
            }
        }),
{
}

/// A fetch starts by unwinding where the thread was asked to stop and that is not put off, or else
/// where a write is pending; nothing changes then. Otherwise it looks for the value. It is at the
/// top level exactly where the query stack is empty.
pub proof fn law_fetches_start_by_looking<V, P>(
    ingredient: IngredientImpl,
    state: FetchState<V>,
    me: ThreadId,
    id: Id,
)
    requires
        state.runtime.wf(),
    ensures
        ({
            let (fetch, after, action) = ingredient.begun::<V, P>(state, me, id);
            let stopped = state.local.cancellation_requested && !state.local.cancellation_deferred;
            &&& fetch.ingredient == ingredient
            &&& fetch.id == id
            &&& fetch.me == me
            &&& fetch.top_level <==> state.local.query_stack.len() == 0
            &&& stopped ==> action == Action::<P>::Throw(Cancelled::Local) && fetch.phase is Finished
                && after == state
            &&& !stopped && state.runtime.revision_cancelled ==> action == Action::<P>::Throw(
                Cancelled::PendingWrite,
            ) && fetch.phase is Finished && after == state
            &&& !stopped && !state.runtime.revision_cancelled ==> looks_for_the_value(
                fetch,
                state,
                (fetch, after, action),
            )
        }),
{
}

/// What is handed out of a fetch is the value of the memo of its query, and what its reader depends
/// on is what that memo says: the heads only where the value is provisional.
pub proof fn law_what_a_fetch_hands_out<V>(
    fetch: &Fetch,
    runtime: &Runtime<MemoTable<V>>,
    value: &V,
    read: TrackedRead,
)
    requires
        runtime@.table@.contains_key(query_of(*fetch)),
        runtime@.table@[query_of(*fetch)].value is Some,
        call_ensures(Fetch::value::<V>, (fetch, runtime), value),
        call_ensures(Fetch::tracked_read::<V>, (fetch, runtime), read),
    ensures
        ({
            let memo = runtime@.table@[query_of(*fetch)];
            &&& memo.value == Some(*value)
            &&& read.key == query_of(*fetch)
            &&& read.durability == memo.durability
            &&& read.changed_at == memo.changed_at
            &&& memo.may_be_provisional ==> read.cycle_heads@ == memo.cycle_heads
            &&& !memo.may_be_provisional ==> read.cycle_heads@.len() == 0
            &&& read.has_accumulated == memo.accumulated
            &&& read.accumulated_inputs == memo.accumulated_inputs
        }),
{
}

} // verus!
