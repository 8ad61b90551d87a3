//! What a call of an operation leaves behind and hands out.
use std::sync::Arc;
use vstd::prelude::*;

use crate::cycle_groups::{CycleGroups, GroupState};
use crate::dependency_graph::{DependencyGraph, SyncOwner, WaitResult};
use crate::fetch::{Action, ClaimResult, Event, Fetch, IngredientImpl, Step};
use crate::key::{DatabaseKeyIndex, Id, ThreadId};
use crate::local::{LocalView, ZalsaLocal};
use crate::memo::{CycleHeads, Memo, MemoTable, MemoView};
use crate::revision::{Durability, Revision};
use crate::runtime::{Running, Runtime, RuntimeView};

verus! {

/// Advancing the revision hands out the next one, which is the current one from then on. When values
/// of every other durability last changed stays as it was.
pub proof fn law_calling_new_revision<T>(runtime: &mut Runtime<T>, revision: Revision, i: int)
    requires
        runtime@.wf(),
        runtime@.revisions[0].generation < usize::MAX,
        call_ensures(Runtime::<T>::new_revision, (runtime,), revision),
        0 < i < 3,
    ensures
        revision.generation == old(runtime)@.revisions[0].generation + 1,
        final(runtime)@.revisions[0] == revision,
        final(runtime)@.revisions[i] == old(runtime)@.revisions[i],
        final(runtime)@ == (RuntimeView {
            revisions: final(runtime)@.revisions,
            cancellation_count: 0,
            revision_cancelled: false,
            ..old(runtime)@
        }),
{
}

/// A write sets the last change of every durability up to its own to the current revision, and
/// changes nothing else.
pub proof fn law_calling_report_tracked_write<T>(
    runtime: &mut Runtime<T>,
    durability: Durability,
    d: Durability,
)
    requires
        runtime@.wf(),
        !(durability is NeverChange),
        !(d is NeverChange),
        call_ensures(Runtime::<T>::report_tracked_write, (runtime, durability), ()),
    ensures
        final(runtime)@.revisions[d.position() as int] == if d.position() <= durability.position() {
            old(runtime)@.revisions[0]
        } else {
            old(runtime)@.revisions[d.position() as int]
        },
        final(runtime)@ == (RuntimeView {
            revisions: final(runtime)@.revisions,
            ..old(runtime)@
        }),
{
}

/// Bumping the cancellation count adds one, and says that it could not exactly where the count is the
/// largest there is.
pub proof fn law_calling_bump_cancellation_count<T>(runtime: &mut Runtime<T>, exhausted: bool)
    requires
        call_ensures(Runtime::<T>::bump_cancellation_count, (runtime,), exhausted),
    ensures
        exhausted <==> old(runtime)@.cancellation_count == 255,
        final(runtime)@.cancellation_count == if exhausted {
            255
        } else {
            old(runtime)@.cancellation_count + 1
        },
        final(runtime)@ == (RuntimeView {
            cancellation_count: final(runtime)@.cancellation_count,
            ..old(runtime)@
        }),
{
}

/// Setting the cancellation flag sets it, and changes nothing else.
pub proof fn law_calling_set_cancellation_flag<T>(runtime: &mut Runtime<T>)
    requires
        call_ensures(Runtime::<T>::set_cancellation_flag, (runtime,), ()),
    ensures
        final(runtime)@ == (RuntimeView { revision_cancelled: true, ..old(runtime)@ }),
{
}

/// Resetting the cancellation flag clears it, and changes nothing else.
pub proof fn law_calling_reset_cancellation_flag<T>(runtime: &mut Runtime<T>)
    requires
        call_ensures(Runtime::<T>::reset_cancellation_flag, (runtime,), ()),
    ensures
        final(runtime)@ == (RuntimeView { revision_cancelled: false, ..old(runtime)@ }),
{
}

/// Restoring takes every revision over, and nothing else. What it is restored from stays.
pub proof fn law_calling_deserialize_from<T>(runtime: &mut Runtime<T>, other: &mut Runtime<T>)
    requires
        call_ensures(Runtime::<T>::deserialize_from, (runtime, other), ()),
    ensures
        final(runtime)@.revisions == old(other)@.revisions,
        final(runtime)@ == (RuntimeView {
            revisions: final(runtime)@.revisions,
            ..old(runtime)@
        }),
        final(other)@ == old(other)@,
{
}

/// What is saved of a runtime, and restored into an empty one, is every revision.
pub proof fn law_saved_revisions_come_back<T>(
    runtime: &Runtime<T>,
    saved: [Revision; Durability::LEN],
    table: T,
    restored: Runtime<T>,
)
    requires
        call_ensures(Runtime::<T>::revisions, (runtime,), saved),
        call_ensures(Runtime::<T>::with_revisions, (saved, table), restored),
    ensures
        restored@.revisions == runtime@.revisions,
        restored@.table == table,
        restored@.cancellation_count == 0,
        !restored@.revision_cancelled,
        restored@.cycle_groups == crate::cycle_groups::GroupsView::empty(),
        restored@.dependency_graph == crate::dependency_graph::GraphView::empty(),
{
}

/// Registering a blocked thread gives it an edge to the thread and for the query that it waits for.
/// No other thread's edge changes, nor anything else.
pub proof fn law_calling_register_blocked<T>(
    running: &Running,
    runtime: &mut Runtime<T>,
    other: ThreadId,
)
    requires
        runtime@.wf(),
        runtime@.dependency_graph.is_running(running.thread_id),
        running.thread_id != running.other_id,
        !runtime@.dependency_graph.depends_on(running.other_id, running.thread_id),
        call_ensures(Running::register::<T>, (running, runtime), ()),
        other != running.thread_id,
    ensures
        ({
            let (before, after) = (old(runtime)@.dependency_graph, final(runtime)@.dependency_graph);
            &&& after.edges.contains_key(running.thread_id)
            &&& after.edges[running.thread_id].blocked_on == running.other_id
            &&& after.edges[running.thread_id].key == running.database_key
            &&& after.edges.get(other) == before.edges.get(other)
            &&& after.wait_results == before.wait_results
            &&& after.transferred == before.transferred
            &&& final(runtime)@ == (RuntimeView { dependency_graph: after, ..old(runtime)@ })
        }),
{
}

/// A woken thread is handed its own result, which is gone then. No other thread's result changes, nor
/// anything else.
pub proof fn law_calling_take_wait_result<T>(
    runtime: &mut Runtime<T>,
    thread: ThreadId,
    result: Option<WaitResult>,
    other: ThreadId,
)
    requires
        call_ensures(Runtime::<T>::take_wait_result, (runtime, thread), result),
        other != thread,
    ensures
        ({
            let (before, after) = (old(runtime)@.dependency_graph, final(runtime)@.dependency_graph);
            &&& result == before.wait_results.get(thread)
            &&& after.wait_results.get(thread) is None
            &&& after.wait_results.get(other) == before.wait_results.get(other)
            &&& after.edges == before.edges
            &&& after.transferred == before.transferred
            &&& final(runtime)@ == (RuntimeView { dependency_graph: after, ..old(runtime)@ })
        }),
{
}

/// Unblocking a query wakes exactly the threads that are blocked on it, with exactly the result that
/// it is given, and changes nothing else.
pub proof fn law_calling_unblock<T>(
    runtime: &mut Runtime<T>,
    key: DatabaseKeyIndex,
    result: WaitResult,
    thread: ThreadId,
)
    requires
        call_ensures(Runtime::<T>::unblock_queries_blocked_on, (runtime, key, result), ()),
    ensures
        ({
            let (before, after) = (old(runtime)@.dependency_graph, final(runtime)@.dependency_graph);
            let waits = before.edges.contains_key(thread) && before.edges[thread].key == key;
            &&& waits ==> after.edges.get(thread) is None && after.wait_results.get(thread)
                == Some(result)
            &&& !waits ==> after.edges.get(thread) == before.edges.get(thread)
                && after.wait_results.get(thread) == before.wait_results.get(thread)
            &&& after.transferred == before.transferred
            &&& final(runtime)@ == (RuntimeView { dependency_graph: after, ..old(runtime)@ })
        }),
{
}

/// Completing an owner wakes exactly the threads that are blocked on a query whose lock it owns, with
/// exactly the result that is passed in, and ends the transfers of exactly those queries. Nothing
/// else changes.
pub proof fn law_calling_unblock_transferred<T>(
    runtime: &mut Runtime<T>,
    owner: DatabaseKeyIndex,
    result: WaitResult,
    thread: ThreadId,
    query: DatabaseKeyIndex,
)
    requires
        runtime@.wf(),
        call_ensures(
            Runtime::<T>::unblock_transferred_queries_owned_by,
            (runtime, owner, result),
            (),
        ),
    ensures
        ({
            let (before, after) = (old(runtime)@.dependency_graph, final(runtime)@.dependency_graph);
            let waits = before.edges.contains_key(thread) && before.owned_by(
                before.edges[thread].key,
                owner,
            );
            &&& waits ==> after.edges.get(thread) is None && after.wait_results.get(thread)
                == Some(result)
            &&& !waits ==> after.edges.get(thread) == before.edges.get(thread)
                && after.wait_results.get(thread) == before.wait_results.get(thread)
            &&& after.transferred.get(query) == if before.owned_by(query, owner) {
                None
            } else {
                before.transferred.get(query)
            }
            &&& final(runtime)@ == (RuntimeView { dependency_graph: after, ..old(runtime)@ })
        }),
{
}

/// Undoing a transfer ends that one, and changes nothing else.
pub proof fn law_calling_undo_transfer_lock<T>(
    runtime: &mut Runtime<T>,
    query: DatabaseKeyIndex,
    other: DatabaseKeyIndex,
)
    requires
        call_ensures(Runtime::<T>::undo_transfer_lock, (runtime, query), ()),
        other != query,
    ensures
        ({
            let (before, after) = (old(runtime)@.dependency_graph, final(runtime)@.dependency_graph);
            &&& after.transferred.get(query) is None
            &&& after.transferred.get(other) == before.transferred.get(other)
            &&& after.edges == before.edges
            &&& after.wait_results == before.wait_results
            &&& final(runtime)@ == (RuntimeView { dependency_graph: after, ..old(runtime)@ })
        }),
{
}

/// Transferring a lock says whether it moves to another thread, enters the new owner, and changes
/// nothing but the graph.
pub proof fn law_calling_transfer_lock<T>(
    runtime: &mut Runtime<T>,
    query: DatabaseKeyIndex,
    current: ThreadId,
    new_owner: DatabaseKeyIndex,
    new_owner_id: SyncOwner,
    moved: bool,
)
    requires
        runtime@.wf(),
        new_owner != query,
        call_ensures(
            Runtime::<T>::transfer_lock,
            (runtime, query, current, new_owner, new_owner_id),
            moved,
        ),
    ensures
        ({
            let (before, after) = (old(runtime)@.dependency_graph, final(runtime)@.dependency_graph);
            &&& after == before.transfer_lock(query, current, new_owner, new_owner_id)
            &&& moved <==> before.transfer_changes_thread(query, current, new_owner, new_owner_id)
            &&& after.transferred.contains_key(query) && after.transferred[query].owner == new_owner
            &&& after.wf()
            &&& final(runtime)@ == (RuntimeView { dependency_graph: after, ..old(runtime)@ })
        }),
{
    crate::laws::graph::law_transfer_enters_the_query(
        runtime@.dependency_graph,
        query,
        current,
        new_owner,
        new_owner_id,
        new_owner,
    );
}

/// The graph itself wakes exactly the threads that are blocked on a query, with exactly the result
/// that it is given.
pub proof fn law_calling_unblock_on_the_graph(
    graph: &mut DependencyGraph,
    key: DatabaseKeyIndex,
    result: WaitResult,
    thread: ThreadId,
)
    requires
        graph@.wf(),
        call_ensures(DependencyGraph::unblock_runtimes_blocked_on, (graph, key, result), ()),
    ensures
        ({
            let (before, after) = (old(graph)@, final(graph)@);
            let waits = before.edges.contains_key(thread) && before.edges[thread].key == key;
            &&& waits ==> after.edges.get(thread) is None && after.wait_results.get(thread)
                == Some(result)
            &&& !waits ==> after.edges.get(thread) == before.edges.get(thread)
                && after.wait_results.get(thread) == before.wait_results.get(thread)
            &&& after.transferred == before.transferred
        }),
{
}

/// A decision on a cycle across threads is the one of the graph and the groups of the runtime.
pub proof fn law_calling_cross_cycle_decision<T>(
    runtime: &Runtime<T>,
    me: ThreadId,
    owner: ThreadId,
    my_root: Option<DatabaseKeyIndex>,
    held: Option<DatabaseKeyIndex>,
)
    requires
        runtime@.dependency_graph.wf(),
        call_ensures(Runtime::<T>::cross_cycle_decision, (runtime, me, owner, my_root), held),
    ensures
        held == runtime@.dependency_graph.cross_cycle_walk(
            runtime@.cycle_groups,
            me,
            owner,
            my_root,
        ),
{
}

/// A key that is a root or a member is not registered, and nothing changes. Any other is, for the
/// owner, and the group is handed out.
pub proof fn law_calling_register_group(
    groups: &mut CycleGroups,
    root: DatabaseKeyIndex,
    owner: ThreadId,
    registered: Option<Arc<GroupState>>,
)
    requires
        call_ensures(CycleGroups::register, (groups, root, owner), registered),
    ensures
        ({
            let (before, after) = (old(groups)@, final(groups)@);
            let known = before.groups.contains_key(root) || before.member_index.contains_key(root);
            &&& registered is None <==> known
            &&& known ==> after == before
            &&& !known ==> registered->0.root == root && registered->0.owner == owner && after
                == before.register(root, owner)
        }),
{
}

/// Recording a member enters it for the root, with exactly its heads.
pub proof fn law_calling_add_member(
    groups: &mut CycleGroups,
    root: DatabaseKeyIndex,
    member: DatabaseKeyIndex,
    heads: Vec<DatabaseKeyIndex>,
)
    requires
        groups@.groups.contains_key(root),
        call_ensures(CycleGroups::add_member, (groups, root, member, heads), ()),
    ensures
        final(groups)@.member_index.get(member) == Some(root),
        final(groups)@.member_heads.get(member) == Some(heads@),
        final(groups)@ == old(groups)@.add_member(root, member, heads@),
{
}

/// Completing a group leaves no group with its root.
pub proof fn law_calling_complete(groups: &mut CycleGroups, root: DatabaseKeyIndex)
    requires
        call_ensures(CycleGroups::complete, (groups, root), ()),
    ensures
        !final(groups)@.groups.contains_key(root),
        final(groups)@ == old(groups)@.complete(root),
{
}

/// A query that is pushed is the innermost one, on top of those that were there.
pub proof fn law_calling_push_query(local: &mut ZalsaLocal, key: DatabaseKeyIndex)
    requires
        call_ensures(ZalsaLocal::push_query, (local, key), ()),
    ensures
        final(local)@.query_stack.len() == old(local)@.query_stack.len() + 1,
        final(local)@.query_stack.last() == key,
        final(local)@.query_stack.drop_last() == old(local)@.query_stack,
        final(local)@ == (LocalView {
            query_stack: final(local)@.query_stack,
            ..old(local)@
        }),
{
    assert(local@.query_stack.push(key).drop_last() =~= local@.query_stack);
}

/// What is popped is the innermost query, if there is one: pushing it restores the stack.
pub proof fn law_calling_pop_query(local: &mut ZalsaLocal, popped: Option<DatabaseKeyIndex>)
    requires
        call_ensures(ZalsaLocal::pop_query, (local,), popped),
    ensures
        popped is None <==> old(local)@.query_stack.len() == 0,
        popped is None ==> final(local)@ == old(local)@,
        popped matches Some(key) ==> final(local)@.query_stack.push(key)
            == old(local)@.query_stack,
        final(local)@ == (LocalView {
            query_stack: final(local)@.query_stack,
            ..old(local)@
        }),
{
    if local@.query_stack.len() > 0 {
        let stack = local@.query_stack;
        assert(stack.drop_last().push(stack.last()) =~= stack);
    }
}

/// The group that a thread evaluates is set on its own.
pub proof fn law_calling_set_current_cycle_group(
    local: &mut ZalsaLocal,
    root: Option<DatabaseKeyIndex>,
)
    requires
        call_ensures(ZalsaLocal::set_current_cycle_group, (local, root), ()),
    ensures
        final(local)@ == (LocalView { current_cycle_group: root, ..old(local)@ }),
{
}

/// Beginning to back out marks the thread, and changes nothing else.
pub proof fn law_calling_begin_cycle_backout(local: &mut ZalsaLocal)
    requires
        call_ensures(ZalsaLocal::begin_cycle_backout, (local,), ()),
    ensures
        final(local)@ == (LocalView { backing_out: true, ..old(local)@ }),
{
}

/// Ending to back out takes the mark away, and changes nothing else.
pub proof fn law_calling_end_cycle_backout(local: &mut ZalsaLocal)
    requires
        call_ensures(ZalsaLocal::end_cycle_backout, (local,), ()),
    ensures
        final(local)@ == (LocalView { backing_out: false, ..old(local)@ }),
{
}

/// A request to stop is made or taken back on its own.
pub proof fn law_calling_request_cancellation(local: &mut ZalsaLocal, requested: bool)
    requires
        call_ensures(ZalsaLocal::request_cancellation, (local, requested), ()),
    ensures
        final(local)@ == (LocalView { cancellation_requested: requested, ..old(local)@ }),
{
}

/// Requests to stop are put off or let through on their own, and how it was before is handed out.
pub proof fn law_calling_defer_cancellation(local: &mut ZalsaLocal, deferred: bool, before: bool)
    requires
        call_ensures(ZalsaLocal::defer_cancellation, (local, deferred), before),
    ensures
        before == old(local)@.cancellation_deferred,
        final(local)@ == (LocalView { cancellation_deferred: deferred, ..old(local)@ }),
{
}

/// The loser of a cycle is marked as backing out, which changes nothing else.
pub proof fn law_calling_cycle_loser_unwind(
    local: &mut ZalsaLocal,
    cancelled: crate::cancelled::Cancelled,
)
    requires
        call_ensures(crate::fetch::cycle_loser_unwind, (local,), cancelled),
    ensures
        cancelled is CycleLoser,
        final(local)@ == (LocalView { backing_out: true, ..old(local)@ }),
{
}

/// A memo that is entered is the one that is found, and no other one changes.
pub proof fn law_calling_insert_memo<V>(
    table: &mut MemoTable<V>,
    key: DatabaseKeyIndex,
    memo: Memo<V>,
    other: DatabaseKeyIndex,
)
    requires
        call_ensures(MemoTable::<V>::insert_memo, (table, key, memo), ()),
        other != key,
    ensures
        final(table)@.get(key) == Some(memo@),
        final(table)@.get(other) == old(table)@.get(other),
{
}

/// A memo is found exactly where there is one.
pub proof fn law_calling_get_memo<V>(
    table: &MemoTable<V>,
    key: DatabaseKeyIndex,
    memo: Option<&Memo<V>>,
)
    requires
        call_ensures(MemoTable::<V>::get, (table, key), memo),
    ensures
        memo is Some <==> table@.contains_key(key),
        memo matches Some(memo) ==> memo@ == table@[key],
{
}

/// Exactly the memos of the given keys are removed.
pub proof fn law_calling_remove_memos<V>(
    table: &mut MemoTable<V>,
    keys: &Vec<DatabaseKeyIndex>,
    key: DatabaseKeyIndex,
)
    requires
        call_ensures(MemoTable::<V>::remove_memos, (table, keys), ()),
    ensures
        keys@.contains(key) ==> final(table)@.get(key) is None,
        !keys@.contains(key) ==> final(table)@.get(key) == old(table)@.get(key),
{
    assert(keys@.contains(key) <==> keys@.to_set().contains(key));
}

/// A memo that is found to be valid is so in the given revision, and stays the same otherwise. No
/// other one changes, and none is made.
pub proof fn law_calling_mark_verified<V>(
    table: &mut MemoTable<V>,
    key: DatabaseKeyIndex,
    revision: Revision,
    other: DatabaseKeyIndex,
)
    requires
        call_ensures(MemoTable::<V>::mark_verified, (table, key, revision), ()),
        other != key,
    ensures
        old(table)@.contains_key(key) ==> final(table)@.get(key) == Some(
            MemoView { verified_at: revision, ..old(table)@[key] },
        ),
        !old(table)@.contains_key(key) ==> final(table)@.get(key) is None,
        final(table)@.get(other) == old(table)@.get(other),
{
}

/// Of the heads of a memo, exactly its own query is kept, and the memo stays the same otherwise. No
/// other one changes, and none is made.
pub proof fn law_calling_keep_own_head<V>(
    table: &mut MemoTable<V>,
    key: DatabaseKeyIndex,
    other: DatabaseKeyIndex,
    head: DatabaseKeyIndex,
)
    requires
        call_ensures(MemoTable::<V>::keep_own_head, (table, key), ()),
        other != key,
    ensures
        old(table)@.contains_key(key) ==> {
            let (before, after) = (old(table)@[key], final(table)@[key]);
            &&& final(table)@.contains_key(key)
            &&& after == (MemoView { cycle_heads: after.cycle_heads, ..before })
            &&& after.cycle_heads.contains(head) <==> head == key && before.cycle_heads.contains(
                key,
            )
        },
        !old(table)@.contains_key(key) ==> final(table)@.get(key) is None,
        final(table)@.get(other) == old(table)@.get(other),
{
    if table@.contains_key(key) {
        assert(seq![key].contains(head) <==> head == key) by {
            assert(seq![key][0] == key);
        }
    }
}

/// Heads are those that they were made of.
pub proof fn law_calling_cycle_heads(
    heads: Vec<DatabaseKeyIndex>,
    cycle_heads: CycleHeads,
    key: DatabaseKeyIndex,
    found: bool,
    empty: bool,
)
    requires
        call_ensures(CycleHeads::from_heads, (heads,), cycle_heads),
        call_ensures(CycleHeads::contains, (&cycle_heads, key), found),
        call_ensures(CycleHeads::is_empty, (&cycle_heads,), empty),
    ensures
        cycle_heads@ == heads@,
        found <==> exists|i: int| 0 <= i < heads@.len() && #[trigger] heads@[i] == key,
        empty <==> heads@.len() == 0,
{
}

/// Looking for a value says whether it is final and known to be valid, and marks it as valid then.
pub proof fn law_calling_fetch_hot<V>(
    ingredient: &IngredientImpl,
    runtime: &mut Runtime<MemoTable<V>>,
    id: Id,
    hit: bool,
)
    requires
        runtime@.wf(),
        call_ensures(IngredientImpl::fetch_hot::<V>, (ingredient, runtime, id), hit),
    ensures
        ({
            let key = DatabaseKeyIndex { ingredient_index: ingredient.index, key_index: id };
            let (before, after) = (old(runtime)@, final(runtime)@);
            &&& hit <==> crate::laws::fetching::is_known_to_be_valid(
                before.table@,
                before.revisions,
                key,
            )
            &&& after.table@ == if hit {
                before.table@.insert(
                    key,
                    MemoView { verified_at: before.revisions[0], ..before.table@[key] },
                )
            } else {
                before.table@
            }
            &&& after == (RuntimeView { table: after.table, ..before })
        }),
{
    let (before, after) = (
        crate::fetch::with_table_view(old(runtime)@),
        crate::fetch::with_table_view(final(runtime)@),
    );
    assert(after.revisions == before.revisions && after.cycle_groups == before.cycle_groups);
}

/// Starting a fetch comes to what the law on starting says.
pub proof fn law_calling_fetch<V, P>(
    ingredient: &IngredientImpl,
    runtime: &mut Runtime<MemoTable<V>>,
    local: &ZalsaLocal,
    me: ThreadId,
    id: Id,
    started: (Fetch, Action<P>),
)
    requires
        crate::fetch::state_of(runtime@, local@).wf(me),
        call_ensures(
            IngredientImpl::fetch::<V, P>,
            (ingredient, runtime, local, me, id),
            started,
        ),
    ensures
        (started.0, crate::fetch::state_of(final(runtime)@, local@), started.1)
            == ingredient.begun::<V, P>(crate::fetch::state_of(old(runtime)@, local@), me, id),
{
}

/// Going on after a claim comes to what the laws on claims say.
pub proof fn law_calling_fetch_cold<V>(
    ingredient: &IngredientImpl,
    runtime: &mut Runtime<MemoTable<V>>,
    local: &mut ZalsaLocal,
    me: ThreadId,
    id: Id,
    claim: ClaimResult,
    step: Step,
)
    requires
        crate::fetch::state_of(runtime@, local@).wf(me),
        call_ensures(
            IngredientImpl::fetch_cold::<V>,
            (ingredient, runtime, local, me, id, claim),
            step,
        ),
    ensures
        (crate::fetch::state_of(final(runtime)@, final(local)@), step) == ingredient.cold_step(
            crate::fetch::state_of(old(runtime)@, old(local)@),
            me,
            (DatabaseKeyIndex { ingredient_index: ingredient.index, key_index: id }),
            claim,
        ),
{
}

/// Going on after a query was met again comes to what the laws on cycles say.
pub proof fn law_calling_fetch_cold_cycle<V>(
    ingredient: &IngredientImpl,
    runtime: &mut Runtime<MemoTable<V>>,
    local: &mut ZalsaLocal,
    me: ThreadId,
    id: Id,
    step: Step,
)
    requires
        crate::fetch::state_of(runtime@, local@).wf(me),
        call_ensures(
            IngredientImpl::fetch_cold_cycle::<V>,
            (ingredient, runtime, local, me, id),
            step,
        ),
    ensures
        (crate::fetch::state_of(final(runtime)@, final(local)@), step) == ingredient.cycle_step(
            crate::fetch::state_of(old(runtime)@, old(local)@),
            me,
            (DatabaseKeyIndex { ingredient_index: ingredient.index, key_index: id }),
        ),
{
}

/// Every step of a fetch comes to what the laws on steps say.
pub proof fn law_calling_step<V, P>(
    fetch: &mut Fetch,
    runtime: &mut Runtime<MemoTable<V>>,
    local: &mut ZalsaLocal,
    event: Event<V, P>,
    action: Action<P>,
)
    requires
        crate::fetch::state_of(runtime@, local@).wf(fetch.me),
        fetch.accepts(crate::fetch::state_of(runtime@, local@), event),
        call_ensures(Fetch::step::<V, P>, (fetch, runtime, local, event), action),
    ensures
        (*final(fetch), crate::fetch::state_of(final(runtime)@, final(local)@), action) == old(
            fetch,
        ).stepped::<V, P>(crate::fetch::state_of(old(runtime)@, old(local)@), event),
{
}

/// A memo is seen with everything that it holds.
pub proof fn law_memos_are_seen_whole<V>(memo: Memo<V>)
    ensures
        memo@.value == memo.value,
        memo@.verified_at == memo.header.verified_at,
        memo@.may_be_provisional == memo.header.may_be_provisional,
        memo@.changed_at == memo.header.revisions.changed_at,
        memo@.durability == memo.header.revisions.durability,
        memo@.iteration == memo.header.revisions.iteration,
        memo@.cycle_heads == memo.header.revisions.cycle_heads@,
        memo@.accumulated == memo.header.revisions.accumulated,
        memo@.accumulated_inputs == memo.header.revisions.accumulated_inputs,
{
}

/// A new runtime is in the first revision, in which values of every durability last changed. Nothing
/// is cancelled, no group is live, and no thread waits.
pub proof fn law_new_runtime_is_at_rest<T: Default>(
    runtime: Runtime<T>,
    key: DatabaseKeyIndex,
    thread: ThreadId,
    i: int,
)
    requires
        call_ensures(<Runtime::<T> as Default>::default, (), runtime),
        0 <= i < 3,
    ensures
        runtime@.revisions.len() == 3,
        runtime@.revisions[i].generation == 1,
        runtime@.cancellation_count == 0,
        !runtime@.revision_cancelled,
        !runtime@.cycle_groups.groups.contains_key(key),
        !runtime@.cycle_groups.member_index.contains_key(key),
        !runtime@.cycle_groups.member_heads.contains_key(key),
        !runtime@.cycle_groups.owner_index.contains_key(thread),
        !runtime@.dependency_graph.edges.contains_key(thread),
        !runtime@.dependency_graph.wait_results.contains_key(thread),
        !runtime@.dependency_graph.transferred.contains_key(key),
{
}

} // verus!
