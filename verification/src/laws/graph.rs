//! Which threads wait, and who owns the locks of queries.
use vstd::prelude::*;

use crate::cycle_groups::GroupsView;
use crate::dependency_graph::{DependencyGraph, Edge, GraphView, SyncOwner, Transfer, WaitResult};
use crate::key::{DatabaseKeyIndex, ThreadId};
use crate::runtime::{
    BlockOnTransferredOwner, BlockResult, BlockTransferredResult, Running, Runtime, WillBlockOn,
};

verus! {

/// Whether `a` is blocked on `b`.
pub open spec fn is_blocked_on(edges: Map<ThreadId, Edge>, a: ThreadId, b: ThreadId) -> bool {
    edges.contains_key(a) && edges[a].blocked_on == b
}

/// Each thread of `path` is blocked on the one after it.
pub open spec fn is_path_of_waits(edges: Map<ThreadId, Edge>, path: Seq<ThreadId>) -> bool {
    &&& path.len() >= 2
    &&& forall|i: int, j: int|
        0 <= i && j == i + 1 && j < path.len() ==> is_blocked_on(
            edges,
            #[trigger] path[i],
            #[trigger] path[j],
        )
}

/// Whether the lock of `a` was transferred to `b`.
pub open spec fn is_transferred_to(
    transferred: Map<DatabaseKeyIndex, Transfer>,
    a: DatabaseKeyIndex,
    b: DatabaseKeyIndex,
) -> bool {
    transferred.contains_key(a) && transferred[a].owner == b
}

/// The lock of each query of `path` was transferred to the one after it.
pub open spec fn is_path_of_transfers(
    transferred: Map<DatabaseKeyIndex, Transfer>,
    path: Seq<DatabaseKeyIndex>,
) -> bool {
    &&& path.len() >= 2
    &&& forall|i: int, j: int|
        0 <= i && j == i + 1 && j < path.len() ==> is_transferred_to(
            transferred,
            #[trigger] path[i],
            #[trigger] path[j],
        )
}

/// A thread waits for another one exactly where a path of blocked threads leads there.
pub proof fn law_waiting_follows_the_edges(view: GraphView, from: ThreadId, to: ThreadId)
    ensures
        view.depends_on(from, to) <==> exists|path: Seq<ThreadId>| #[trigger]
            is_path_of_waits(view.edges, path) && path[0] == from && path.last() == to,
{
    let waits = view.waits();
    assert forall|path: Seq<ThreadId>| #[trigger] is_path_of_waits(
        view.edges,
        path,
    ) implies crate::walk::is_chain(waits, path) by {
        assert forall|i: int, j: int|
            0 <= i && j == i + 1 && j < path.len() implies crate::walk::is_link(
            waits,
            #[trigger] path[i],
            #[trigger] path[j],
        ) by {
            assert(is_blocked_on(view.edges, path[i], path[j]));
        }
    }
    crate::walk::lemma_reaches_is_chain(waits, from, to);
    if view.depends_on(from, to) {
        let path = choose|path: Seq<ThreadId>| #[trigger]
            crate::walk::is_chain(waits, path) && path[0] == from && path.last() == to;
        assert forall|i: int, j: int| 0 <= i && j == i + 1 && j < path.len() implies is_blocked_on(
            view.edges,
            #[trigger] path[i],
            #[trigger] path[j],
        ) by {
            assert(crate::walk::is_link(waits, path[i], path[j]));
        }
        assert(is_path_of_waits(view.edges, path));
    }
}

/// A query owns the lock of another one exactly where a path of transfers leads to it.
pub proof fn law_ownership_follows_the_transfers(
    view: GraphView,
    query: DatabaseKeyIndex,
    owner: DatabaseKeyIndex,
)
    ensures
        view.owned_by(query, owner) <==> exists|path: Seq<DatabaseKeyIndex>| #[trigger]
            is_path_of_transfers(view.transferred, path) && path[0] == query && path.last()
                == owner,
{
    let owners = view.owners();
    assert forall|path: Seq<DatabaseKeyIndex>| #[trigger]
        is_path_of_transfers(view.transferred, path) implies crate::walk::is_chain(
        owners,
        path,
    ) by {
        assert forall|i: int, j: int|
            0 <= i && j == i + 1 && j < path.len() implies crate::walk::is_link(
            owners,
            #[trigger] path[i],
            #[trigger] path[j],
        ) by {
            assert(is_transferred_to(view.transferred, path[i], path[j]));
        }
    }
    crate::walk::lemma_reaches_is_chain(owners, query, owner);
    if view.owned_by(query, owner) {
        let path = choose|path: Seq<DatabaseKeyIndex>| #[trigger]
            crate::walk::is_chain(owners, path) && path[0] == query && path.last() == owner;
        assert forall|i: int, j: int|
            0 <= i && j == i + 1 && j < path.len() implies is_transferred_to(
            view.transferred,
            #[trigger] path[i],
            #[trigger] path[j],
        ) by {
            assert(crate::walk::is_link(owners, path[i], path[j]));
        }
        assert(is_path_of_transfers(view.transferred, path));
    }
}

/// A new graph holds nothing.
pub proof fn law_new_graph_is_empty(thread: ThreadId, query: DatabaseKeyIndex)
    ensures
        !GraphView::empty().edges.contains_key(thread),
        !GraphView::empty().wait_results.contains_key(thread),
        !GraphView::empty().transferred.contains_key(query),
{
}

/// Blocking gives the thread an edge to the other one, for the query it waits for, and changes
/// nothing else.
pub proof fn law_blocking_adds_one_edge(
    view: GraphView,
    from: ThreadId,
    key: DatabaseKeyIndex,
    to: ThreadId,
    other: ThreadId,
)
    requires
        other != from,
    ensures
        ({
            let after = view.block_on(from, key, to);
            &&& after.edges.contains_key(from)
            &&& after.edges[from].blocked_on == to
            &&& after.edges[from].key == key
            &&& after.edges.get(other) == view.edges.get(other)
            &&& after.wait_results == view.wait_results
            &&& after.transferred == view.transferred
        }),
        view.is_running(from) <==> (view.edges.get(from) is None && view.wait_results.get(
            from,
        ) is None),
{
}

/// Handing a result out takes it away from that thread, and changes nothing else.
pub proof fn law_results_are_handed_out_once(view: GraphView, thread: ThreadId, other: ThreadId)
    requires
        other != thread,
    ensures
        view.take_wait_result(thread).wait_results.get(thread) is None,
        view.take_wait_result(thread).wait_results.get(other) == view.wait_results.get(other),
        view.take_wait_result(thread).edges == view.edges,
        view.take_wait_result(thread).transferred == view.transferred,
{
}

/// Unblocking a query takes the edges of exactly the threads away that are blocked on it, and gives
/// them exactly the result that it is given. Every other thread keeps its edge and its result.
pub proof fn law_unblocking_wakes_exactly_the_waiters(
    view: GraphView,
    key: DatabaseKeyIndex,
    result: WaitResult,
    thread: ThreadId,
)
    ensures
        ({
            let after = view.unblock(key, result);
            let waits = view.edges.contains_key(thread) && view.edges[thread].key == key;
            &&& waits ==> after.edges.get(thread) is None && after.wait_results.get(thread)
                == Some(result)
            &&& !waits ==> after.edges.get(thread) == view.edges.get(thread)
                && after.wait_results.get(thread) == view.wait_results.get(thread)
            &&& after.transferred == view.transferred
        }),
{
}

/// When a query completes, exactly the threads that are blocked on a query whose lock it owns,
/// directly or through other queries, lose their edge and get exactly the result that is passed
/// in. Every other thread keeps its edge and its result. The transfers of exactly those queries
/// end.
pub proof fn law_completed_owner_wakes_exactly_its_waiters(
    view: GraphView,
    owner: DatabaseKeyIndex,
    result: WaitResult,
    thread: ThreadId,
    query: DatabaseKeyIndex,
)
    ensures
        ({
            let after = view.unblock_owned_by(owner, result);
            let waits = view.edges.contains_key(thread) && exists|path: Seq<DatabaseKeyIndex>|
                #[trigger]
                is_path_of_transfers(view.transferred, path) && path[0] == view.edges[thread].key
                    && path.last() == owner;
            &&& waits ==> after.edges.get(thread) is None && after.wait_results.get(thread)
                == Some(result)
            &&& !waits ==> after.edges.get(thread) == view.edges.get(thread)
                && after.wait_results.get(thread) == view.wait_results.get(thread)
        }),
        ({
            let after = view.unblock_owned_by(owner, result);
            let owned = exists|path: Seq<DatabaseKeyIndex>| #[trigger]
                is_path_of_transfers(view.transferred, path) && path[0] == query && path.last()
                    == owner;
            after.transferred.get(query) == if owned {
                None
            } else {
                view.transferred.get(query)
            }
        }),
{
    law_ownership_follows_the_transfers(view, view.edges[thread].key, owner);
    law_ownership_follows_the_transfers(view, query, owner);
}

/// Undoing a transfer takes the transfer of that query away, and changes nothing else.
pub proof fn law_undoing_ends_one_transfer(
    view: GraphView,
    query: DatabaseKeyIndex,
    other: DatabaseKeyIndex,
)
    requires
        other != query,
    ensures
        view.undo_transfer_lock(query).transferred.get(query) is None,
        view.undo_transfer_lock(query).transferred.get(other) == view.transferred.get(other),
        view.undo_transfer_lock(query).edges == view.edges,
        view.undo_transfer_lock(query).wait_results == view.wait_results,
{
}

/// The lock of a query that was not transferred is owned by no other thread.
pub proof fn law_untransferred_lock_has_no_other_owner(
    transferred: Map<DatabaseKeyIndex, Transfer>,
    query: DatabaseKeyIndex,
)
    ensures
        crate::dependency_graph::owner_thread(transferred, query) is None
            <==> !transferred.contains_key(query),
{
}

/// The lock of a transferred query is owned by the thread of the last transfer on its path: where the
/// query's own transfer is the last one, by its thread, and otherwise by that of the transfer
/// which the path ends with.
pub proof fn law_last_transfer_owns_the_lock(
    view: GraphView,
    query: DatabaseKeyIndex,
    last: DatabaseKeyIndex,
)
    requires
        view.wf(),
        last == query || exists|path: Seq<DatabaseKeyIndex>| #[trigger]
            is_path_of_transfers(view.transferred, path) && path[0] == query && path.last() == last,
        view.transferred.contains_key(last),
        !view.transferred.contains_key(view.transferred[last].owner),
    ensures
        crate::dependency_graph::owner_thread(view.transferred, query) == Some(
            view.transferred[last].thread,
        ),
{
    law_ownership_follows_the_transfers(view, query, last);
    assert(crate::dependency_graph::is_last_transfer(view.transferred, query, last));
    crate::dependency_graph::lemma_last_transfer_unique(view.transferred, query, last);
    crate::walk::lemma_reaches_step(view.owners(), query, last);
}

/// A transferred query and the query that it was transferred to have the same owner, where that one
/// was transferred as well.
pub proof fn law_owner_is_passed_along(view: GraphView, query: DatabaseKeyIndex)
    requires
        view.wf(),
        view.transferred.dom().finite(),
        view.transferred.contains_key(query),
    ensures
        ({
            let owner = view.transferred[query].owner;
            crate::dependency_graph::owner_thread(view.transferred, query)
                == if view.transferred.contains_key(owner) {
                crate::dependency_graph::owner_thread(view.transferred, owner)
            } else {
                Some(view.transferred[query].thread)
            }
        }),
{
    let owner = view.transferred[query].owner;
    let owners = view.owners();
    if view.transferred.contains_key(owner) {
        assert(owners.dom() =~= view.transferred.dom());
        let end = crate::walk::lemma_chain_ends(owners, owner);
        let last = crate::walk::lemma_last_link(owners, owner, end);
        assert(crate::dependency_graph::is_last_transfer(view.transferred, owner, last));
        crate::dependency_graph::lemma_last_transfer_unique(view.transferred, owner, last);
        crate::walk::lemma_reaches_step(owners, query, last);
        assert(crate::dependency_graph::is_last_transfer(view.transferred, query, last));
        crate::dependency_graph::lemma_last_transfer_unique(view.transferred, query, last);
    } else {
        assert(crate::dependency_graph::is_last_transfer(view.transferred, query, query));
        crate::dependency_graph::lemma_last_transfer_unique(view.transferred, query, query);
    }
}

/// The thread that takes a lock over is the one that is named; where none is named, it is the one
/// that owns the lock of the new owner, apart from the transfer of the query itself, and the
/// current one where there is none.
pub proof fn law_who_takes_a_lock_over(
    view: GraphView,
    query: DatabaseKeyIndex,
    current: ThreadId,
    new_owner: DatabaseKeyIndex,
    named: ThreadId,
)
    requires
        new_owner != query,
    ensures
        view.new_owner_thread(query, current, new_owner, SyncOwner::Thread(named)) == named,
        !view.transferred.contains_key(new_owner) ==> view.new_owner_thread(
            query,
            current,
            new_owner,
            SyncOwner::Transferred,
        ) == current,
        view.transferred.contains_key(new_owner) ==> Some(
            view.new_owner_thread(query, current, new_owner, SyncOwner::Transferred),
        ) == crate::dependency_graph::owner_thread(view.transferred.remove(query), new_owner),
{
}

/// A transfer enters the query with its new owner and the thread that takes over. A query that led
/// from the new owner into the query takes over what the query had before (nothing, if the query
/// was not transferred). No other transfer changes.
pub proof fn law_transfer_enters_the_query(
    view: GraphView,
    query: DatabaseKeyIndex,
    current: ThreadId,
    new_owner: DatabaseKeyIndex,
    new_owner_id: SyncOwner,
    other: DatabaseKeyIndex,
)
    requires
        view.wf(),
        new_owner != query,
        other != query,
    ensures
        ({
            let after = view.transfer_lock(query, current, new_owner, new_owner_id).transferred;
            let thread = view.new_owner_thread(query, current, new_owner, new_owner_id);
            let leads_in = (other == new_owner || exists|path: Seq<DatabaseKeyIndex>| #[trigger]
                is_path_of_transfers(view.transferred, path) && path[0] == new_owner && path.last()
                    == other) && view.transferred.contains_key(other)
                && view.transferred[other].owner == query;
            &&& after.contains_key(query)
            &&& after[query].owner == new_owner
            &&& after[query].thread == thread
            &&& leads_in ==> after.get(other) == view.transferred.get(query)
            &&& !leads_in ==> after.get(other) == view.transferred.get(other)
        }),
{
    let owners = view.owners();
    law_ownership_follows_the_transfers(view, new_owner, other);
    if crate::walk::reaches(owners, new_owner, query) {
        let link = crate::walk::lemma_last_link(owners, new_owner, query);
        assert(crate::dependency_graph::is_link_into(view.transferred, new_owner, query, link));
        crate::dependency_graph::lemma_link_into_unique(view.transferred, new_owner, query, link);
        crate::walk::lemma_reaches_step(owners, query, query);
        if other != link {
            assert(!crate::dependency_graph::is_link_into(
                view.transferred,
                new_owner,
                query,
                other,
            ));
        }
    } else if view.transferred.contains_key(other) && view.transferred[other].owner == query {
        crate::walk::lemma_reaches_step(owners, other, query);
        if crate::walk::reaches(owners, new_owner, other) {
            crate::walk::lemma_reaches_transitive(owners, new_owner, other, query);
        }
    }
}

/// A lock moves exactly where the thread that takes it over is not the one that owned it before,
/// which is the current one where the lock was not transferred.
pub proof fn law_lock_moves_between_threads(
    view: GraphView,
    query: DatabaseKeyIndex,
    current: ThreadId,
    new_owner: DatabaseKeyIndex,
    new_owner_id: SyncOwner,
)
    ensures
        ({
            let taking = view.new_owner_thread(query, current, new_owner, new_owner_id);
            let moves = view.transfer_changes_thread(query, current, new_owner, new_owner_id);
            &&& !view.transferred.contains_key(query) ==> (moves <==> taking != current)
            &&& view.transferred.contains_key(query) ==> (moves <==> Some(taking)
                != crate::dependency_graph::owner_thread(view.transferred, query))
        }),
{
}

/// A transfer that moves no lock leaves all waiting threads alone. One that does leaves exactly those
/// alone that wait for something else than the query or what it owns from then on. The others
/// wait for the thread that took over, for the same query as before, unless that thread waits for
/// them, or is one of them: those are told that the query was completed.
pub proof fn law_transfer_redirects_the_waiters(
    view: GraphView,
    query: DatabaseKeyIndex,
    current: ThreadId,
    new_owner: DatabaseKeyIndex,
    new_owner_id: SyncOwner,
    thread: ThreadId,
)
    ensures
        ({
            let after = view.transfer_lock(query, current, new_owner, new_owner_id);
            let taking = view.new_owner_thread(query, current, new_owner, new_owner_id);
            let moves = view.transfer_changes_thread(query, current, new_owner, new_owner_id);
            let concerned = moves && view.edges.contains_key(thread) && (view.edges[thread].key
                == query || exists|path: Seq<DatabaseKeyIndex>| #[trigger]
                is_path_of_transfers(after.transferred, path) && path[0] == view.edges[thread].key
                    && path.last() == query);
            let ahead = thread == taking || exists|path: Seq<ThreadId>| #[trigger]
                is_path_of_waits(view.edges, path) && path[0] == taking && path.last() == thread;
            &&& !concerned ==> after.edges.get(thread) == view.edges.get(thread)
                && after.wait_results.get(thread) == view.wait_results.get(thread)
            &&& concerned && ahead ==> after.edges.get(thread) is None && after.wait_results.get(
                thread,
            ) == Some(WaitResult::Completed)
            &&& concerned && !ahead ==> after.edges.contains_key(thread)
                && after.edges[thread].blocked_on == taking && after.edges[thread].key
                == view.edges[thread].key && after.wait_results.get(thread)
                == view.wait_results.get(thread)
        }),
{
    let after = view.transfer_lock(query, current, new_owner, new_owner_id);
    let taking = view.new_owner_thread(query, current, new_owner, new_owner_id);
    let relinked = GraphView { transferred: after.transferred, ..view };
    law_ownership_follows_the_transfers(relinked, view.edges[thread].key, query);
    law_waiting_follows_the_edges(view, taking, thread);
    assert(relinked.waits() =~= view.waits());
}

/// A thread wins a cycle exactly where `owner` waits for it, it evaluates a group, and no thread on
/// the way from `owner` to it is known for a group with an equal or smaller root: a smaller
/// ingredient, or the same ingredient and a key that is not larger.
pub proof fn law_smallest_root_wins(
    view: GraphView,
    groups: GroupsView,
    me: ThreadId,
    owner: ThreadId,
    my_root: Option<DatabaseKeyIndex>,
)
    ensures
        view.cross_cycle_walk(groups, me, owner, my_root) is Some <==> {
            &&& view.depends_on(owner, me)
            &&& my_root is Some
            &&& forall|thread: ThreadId|
                (thread == owner || view.depends_on(owner, thread)) && view.depends_on(thread, me)
                    && #[trigger] groups.owner_index.contains_key(thread) ==> {
                    let (mine, theirs) = (my_root->0, groups.owner_index[thread]);
                    ||| mine.ingredient_index.index < theirs.ingredient_index.index
                    ||| mine.ingredient_index.index == theirs.ingredient_index.index
                        && mine.key_index.bits < theirs.key_index.bits
                }
        },
{
    if view.cross_cycle_walk(groups, me, owner, my_root) is Some {
        assert forall|thread: ThreadId|
            (thread == owner || view.depends_on(owner, thread)) && view.depends_on(thread, me)
                && #[trigger] groups.owner_index.contains_key(thread) implies {
            let (mine, theirs) = (my_root->0, groups.owner_index[thread]);
            ||| mine.ingredient_index.index < theirs.ingredient_index.index
            ||| mine.ingredient_index.index == theirs.ingredient_index.index && mine.key_index.bits
                < theirs.key_index.bits
        } by {
            assert(view.between(owner, me, thread));
        }
    }
}

/// What the winner wakes is the query that the last thread on the way from `owner` waits for, which
/// is blocked on the winner.
pub proof fn law_winner_wakes_who_waits_for_it(
    view: GraphView,
    groups: GroupsView,
    me: ThreadId,
    owner: ThreadId,
    my_root: Option<DatabaseKeyIndex>,
    waiter: ThreadId,
)
    requires
        view.wf(),
        view.cross_cycle_walk(groups, me, owner, my_root) is Some,
        waiter == owner || view.depends_on(owner, waiter),
        view.edges.contains_key(waiter),
        view.edges[waiter].blocked_on == me,
    ensures
        view.cross_cycle_walk(groups, me, owner, my_root) == Some(view.edges[waiter].key),
{
    assert(view.is_waiter(owner, me, waiter));
    view.lemma_waiter_unique(owner, me, waiter);
}

/// Blocking is a cycle of the thread itself exactly where it holds the lock, a cycle across threads
/// exactly where the holder waits for it, and is told with the thread and the query otherwise.
pub proof fn law_who_can_be_blocked_on<T>(
    runtime: &Runtime<T>,
    thread: ThreadId,
    key: DatabaseKeyIndex,
    holder: ThreadId,
    result: BlockResult,
)
    requires
        runtime@.dependency_graph.wf(),
        call_ensures(Runtime::<T>::block, (runtime, thread, key, holder), result),
    ensures
        thread == holder ==> (result matches BlockResult::Cycle { same_thread, owner }
            && same_thread && owner == holder),
        thread != holder && runtime@.dependency_graph.depends_on(holder, thread) ==> (
        result matches BlockResult::Cycle { same_thread, owner } && !same_thread && owner == holder),
        thread != holder && !runtime@.dependency_graph.depends_on(holder, thread) ==> (
        result matches BlockResult::Running(running) && running.thread_id == thread
            && running.database_key == key && running.other_id == holder),
{
}

/// Who claims a transferred query finds it released exactly where it is not transferred, and owns it
/// exactly where the owning thread is its own, or waits for it. Otherwise it is told the query,
/// its own thread and the owning one.
pub proof fn law_who_owns_a_transferred_query<T>(
    runtime: &Runtime<T>,
    query: DatabaseKeyIndex,
    thread: ThreadId,
    result: BlockTransferredResult,
)
    requires
        runtime@.dependency_graph.wf(),
        call_ensures(Runtime::<T>::block_transferred, (runtime, query, thread), result),
    ensures
        ({
            let graph = runtime@.dependency_graph;
            let owner = crate::dependency_graph::owner_thread(graph.transferred, query);
            &&& result is Released <==> !graph.transferred.contains_key(query)
            &&& result is ImTheOwner <==> (owner matches Some(owner) && (owner == thread
                || graph.depends_on(owner, thread)))
            &&& result matches BlockTransferredResult::OwnedBy(owned_by) ==> Some(owned_by.other_id)
                == owner && owned_by.database_key == query && owned_by.thread_id == thread
        }),
{
}

/// What is reported before a thread blocks names the query and the thread that it waits for.
pub proof fn law_blocking_is_reported(running: &Running, event: WillBlockOn)
    requires
        call_ensures(Running::event, (running,), event),
    ensures
        event.other_thread_id == running.other_id,
        event.database_key == running.database_key,
{
}

/// Who blocks on the owner of a transferred query is told what it would be told by blocking on that
/// thread: a cycle of the thread itself where it is the owner, a cycle across threads where the owner
/// waits for it, and the query and both threads otherwise.
pub proof fn law_blocking_on_a_transferred_owner<T>(
    blocked: BlockOnTransferredOwner,
    runtime: &Runtime<T>,
    result: BlockResult,
)
    requires
        runtime@.dependency_graph.wf(),
        call_ensures(BlockOnTransferredOwner::block::<T>, (blocked, runtime), result),
    ensures
        ({
            let (thread, holder) = (blocked.thread_id, blocked.other_id);
            let cycle = runtime@.dependency_graph.depends_on(holder, thread);
            &&& thread == holder ==> (result matches BlockResult::Cycle { same_thread, owner }
                && same_thread && owner == holder)
            &&& thread != holder && cycle ==> (result matches BlockResult::Cycle {
                same_thread,
                owner,
            } && !same_thread && owner == holder)
            &&& thread != holder && !cycle ==> (result matches BlockResult::Running(running)
                && running.thread_id == thread && running.database_key == blocked.database_key
                && running.other_id == holder)
        }),
{
}

/// What the graph answers is what its edges and transfers say. A transfer that is to be passed over
/// counts as if there were none.
pub proof fn law_graph_answers(
    graph: &DependencyGraph,
    from: ThreadId,
    to: ThreadId,
    query: DatabaseKeyIndex,
    passed_over: DatabaseKeyIndex,
    waits: bool,
    running: bool,
    owner: Option<ThreadId>,
    other_owner: Option<ThreadId>,
)
    requires
        graph@.wf(),
        call_ensures(DependencyGraph::depends_on, (graph, from, to), waits),
        call_ensures(DependencyGraph::is_running, (graph, from), running),
        call_ensures(
            DependencyGraph::thread_id_of_transferred_query,
            (graph, query, None::<DatabaseKeyIndex>),
            owner,
        ),
        call_ensures(
            DependencyGraph::thread_id_of_transferred_query,
            (graph, query, Some(passed_over)),
            other_owner,
        ),
    ensures
        waits <==> exists|path: Seq<ThreadId>| #[trigger]
            is_path_of_waits(graph@.edges, path) && path[0] == from && path.last() == to,
        running <==> (!graph@.edges.contains_key(from) && !graph@.wait_results.contains_key(from)),
        owner == crate::dependency_graph::owner_thread(graph@.transferred, query),
        other_owner == crate::dependency_graph::owner_thread(
            graph@.transferred.remove(passed_over),
            query,
        ),
{
    law_waiting_follows_the_edges(graph@, from, to);
}

} // verus!
