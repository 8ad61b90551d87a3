//! Which threads wait for one another, and which queries own the locks of others.
use vstd::prelude::*;

use crate::cycle_groups::{comes_before, CycleGroups, GroupsView};
use crate::fx_map::FxMap;
use crate::key::{DatabaseKeyIndex, ThreadId};

verus! {

/// What a blocked thread is told when it is woken.
#[derive(Clone, Copy, Debug, PartialEq, Eq, Structural)]
pub enum WaitResult {
    Completed,
    Panicked,
    Cancelled,
    /// The blocked thread must back out of its entire computation (releasing all of its
    /// claims) and retry from the top level: it is part of a cross-thread cycle whose winner
    /// requested the chain to yield. See `Cancelled::CycleLoser`.
    BackOut,
}

/// Who holds the lock of a query.
#[derive(Clone, Copy, Debug, PartialEq, Eq, Structural)]
pub enum SyncOwner {
    /// The thread that claimed the query.
    Thread(ThreadId),
    /// The query that the lock was transferred to.
    Transferred,
}

/// A blocked thread waits for the thread `blocked_on` to finish the query `key`.
#[derive(Clone, Copy, Debug, PartialEq, Eq, Structural)]
pub struct Edge {
    pub blocked_on: ThreadId,
    pub key: DatabaseKeyIndex,
}

/// The lock of a query is owned by the query `owner`, which `thread` was evaluating when the
/// lock was transferred to it.
#[derive(Clone, Copy, Debug, PartialEq, Eq, Structural)]
pub struct Transfer {
    pub thread: ThreadId,
    pub owner: DatabaseKeyIndex,
}

/// What the graph holds.
#[verifier::ext_equal]
pub struct GraphView {
    /// The blocked threads.
    pub edges: Map<ThreadId, Edge>,
    /// The threads that were woken and have not run yet, and what they are told.
    pub wait_results: Map<ThreadId, WaitResult>,
    /// The queries whose lock is owned by another query.
    pub transferred: Map<DatabaseKeyIndex, Transfer>,
}

/// The links of a chain of transfers.
pub open spec fn owner_links(transferred: Map<DatabaseKeyIndex, Transfer>) -> Map<
    DatabaseKeyIndex,
    DatabaseKeyIndex,
> {
    transferred.map_values(|transfer: Transfer| transfer.owner)
}

/// Whether `last` is the last query on the chain of transfers from `query` whose lock is
/// owned by another query.
pub open spec fn is_last_transfer(
    transferred: Map<DatabaseKeyIndex, Transfer>,
    query: DatabaseKeyIndex,
    last: DatabaseKeyIndex,
) -> bool {
    &&& last == query || crate::walk::reaches(owner_links(transferred), query, last)
    &&& transferred.contains_key(last)
    &&& !transferred.contains_key(transferred[last].owner)
}

/// The thread that owns the lock of a transferred query: that of the last transfer.
pub open spec fn owner_thread(
    transferred: Map<DatabaseKeyIndex, Transfer>,
    query: DatabaseKeyIndex,
) -> Option<ThreadId> {
    if transferred.contains_key(query) {
        Some(
            transferred[choose|last: DatabaseKeyIndex| #[trigger]
                is_last_transfer(transferred, query, last)].thread,
        )
    } else {
        None
    }
}

/// Whether `link` is the query on the chain of transfers from `query` whose lock `owner` owns
/// directly.
pub open spec fn is_link_into(
    transferred: Map<DatabaseKeyIndex, Transfer>,
    query: DatabaseKeyIndex,
    owner: DatabaseKeyIndex,
    link: DatabaseKeyIndex,
) -> bool {
    &&& link == query || crate::walk::reaches(owner_links(transferred), query, link)
    &&& transferred.contains_key(link)
    &&& transferred[link].owner == owner
}

/// The transfers after the lock of `query` is transferred as `transfer` says. Where the new
/// owner's own lock was owned by `query`, the chain between the two is turned around: what
/// led into `query` takes over the transfer that `query` had, if any.
pub open spec fn relink(
    transferred: Map<DatabaseKeyIndex, Transfer>,
    query: DatabaseKeyIndex,
    transfer: Transfer,
) -> Map<DatabaseKeyIndex, Transfer> {
    let opened = if crate::walk::reaches(owner_links(transferred), transfer.owner, query) {
        let link = choose|link: DatabaseKeyIndex| #[trigger]
            is_link_into(transferred, transfer.owner, query, link);
        if transferred.contains_key(query) {
            transferred.insert(link, transferred[query])
        } else {
            transferred.remove(link)
        }
    } else {
        transferred
    };
    opened.insert(query, transfer)
}

impl GraphView {
    pub open spec fn empty() -> GraphView {
        GraphView {
            edges: Map::empty(),
            wait_results: Map::empty(),
            transferred: Map::empty(),
        }
    }

    /// The thread that each blocked thread waits for.
    pub open spec fn waits(self) -> Map<ThreadId, ThreadId> {
        self.edges.map_values(|edge: Edge| edge.blocked_on)
    }

    /// The query that owns each transferred lock.
    pub open spec fn owners(self) -> Map<DatabaseKeyIndex, DatabaseKeyIndex> {
        owner_links(self.transferred)
    }

    /// No thread waits for itself, no query owns its own lock, and a thread that was woken is
    /// not blocked.
    pub open spec fn wf(self) -> bool {
        &&& crate::walk::acyclic(self.waits())
        &&& crate::walk::acyclic(self.owners())
        &&& self.edges.dom().disjoint(self.wait_results.dom())
    }

    /// Whether `thread` runs: it is not blocked, and no result of blocking waits for it.
    pub open spec fn is_running(self, thread: ThreadId) -> bool {
        !self.edges.contains_key(thread) && !self.wait_results.contains_key(thread)
    }

    /// Whether `from` waits for `to`, directly or through other threads.
    pub open spec fn depends_on(self, from: ThreadId, to: ThreadId) -> bool {
        crate::walk::reaches(self.waits(), from, to)
    }

    /// Whether `owner` owns the lock of `query`, directly or through other queries.
    pub open spec fn owned_by(self, query: DatabaseKeyIndex, owner: DatabaseKeyIndex) -> bool {
        crate::walk::reaches(self.owners(), query, owner)
    }

    /// The graph after `from` has blocked on `key`, which `to` computes.
    pub open spec fn block_on(
        self,
        from: ThreadId,
        key: DatabaseKeyIndex,
        to: ThreadId,
    ) -> GraphView {
        GraphView { edges: self.edges.insert(from, Edge { blocked_on: to, key }), ..self }
    }

    /// The graph after `thread` was handed its result.
    pub open spec fn take_wait_result(self, thread: ThreadId) -> GraphView {
        GraphView { wait_results: self.wait_results.remove(thread), ..self }
    }

    /// The graph after `threads`, which were blocked, are woken with `result`.
    pub open spec fn wake(self, threads: Set<ThreadId>, result: WaitResult) -> GraphView {
        GraphView {
            edges: self.edges.remove_keys(threads),
            wait_results: self.wait_results.union_prefer_right(
                Map::new(|thread: ThreadId| threads.contains(thread), |thread: ThreadId| result),
            ),
            ..self
        }
    }

    /// The threads that are blocked on `key`.
    pub open spec fn blocked_on(self, key: DatabaseKeyIndex) -> Set<ThreadId> {
        Set::new(
            |thread: ThreadId| self.edges.contains_key(thread) && self.edges[thread].key == key,
        )
    }

    /// The graph after the threads that are blocked on `key` were woken with `result`.
    pub open spec fn unblock(self, key: DatabaseKeyIndex, result: WaitResult) -> GraphView {
        self.wake(self.blocked_on(key), result)
    }

    /// The threads that are blocked on a query whose lock `owner` owns.
    pub open spec fn blocked_on_owned_by(self, owner: DatabaseKeyIndex) -> Set<ThreadId> {
        Set::new(
            |thread: ThreadId|
                self.edges.contains_key(thread) && self.owned_by(self.edges[thread].key, owner),
        )
    }

    /// The queries whose lock `owner` owns.
    pub open spec fn queries_owned_by(self, owner: DatabaseKeyIndex) -> Set<DatabaseKeyIndex> {
        Set::new(|query: DatabaseKeyIndex| self.owned_by(query, owner))
    }

    /// The graph after the threads that are blocked on a query whose lock `owner` owns were woken
    /// with `result`, and the transfers of those queries have ended.
    pub open spec fn unblock_owned_by(
        self,
        owner: DatabaseKeyIndex,
        result: WaitResult,
    ) -> GraphView {
        GraphView {
            transferred: self.transferred.remove_keys(self.queries_owned_by(owner)),
            ..self.wake(self.blocked_on_owned_by(owner), result)
        }
    }

    /// The graph after the transfer of the lock of `query` has ended.
    pub open spec fn undo_transfer_lock(self, query: DatabaseKeyIndex) -> GraphView {
        GraphView { transferred: self.transferred.remove(query), ..self }
    }
}

impl GraphView {
    /// The thread that takes over the lock of `query` when it is transferred to `new_owner_key`.
    pub open spec fn new_owner_thread(
        self,
        query: DatabaseKeyIndex,
        current: ThreadId,
        new_owner_key: DatabaseKeyIndex,
        new_owner_id: SyncOwner,
    ) -> ThreadId {
        match new_owner_id {
            SyncOwner::Thread(thread) => thread,
            SyncOwner::Transferred => match owner_thread(
                self.transferred.remove(query),
                new_owner_key,
            ) {
                Some(thread) => thread,
                None => current,
            },
        }
    }

    /// Whether the lock of `query` moves to another thread when it is transferred.
    pub open spec fn transfer_changes_thread(
        self,
        query: DatabaseKeyIndex,
        current: ThreadId,
        new_owner_key: DatabaseKeyIndex,
        new_owner_id: SyncOwner,
    ) -> bool {
        let before = match owner_thread(self.transferred, query) {
            Some(thread) => thread,
            None => current,
        };
        before != self.new_owner_thread(query, current, new_owner_key, new_owner_id)
    }

    /// Whether `thread` is blocked on `query` or on a query whose lock `query` owns.
    pub open spec fn waits_under(self, query: DatabaseKeyIndex, thread: ThreadId) -> bool {
        self.edges.contains_key(thread) && (self.edges[thread].key == query || self.owned_by(
            self.edges[thread].key,
            query,
        ))
    }

    /// The graph after `new_owner` has taken over `query` and the locks that it owns from
    /// another thread: the threads that waited for them wait for `new_owner` now, except those
    /// that `new_owner` itself waits for, and `new_owner` itself. They are woken.
    pub open spec fn hand_over(self, query: DatabaseKeyIndex, new_owner: ThreadId) -> GraphView {
        let woken = Set::new(
            |thread: ThreadId|
                self.waits_under(query, thread) && (thread == new_owner || self.depends_on(
                    new_owner,
                    thread,
                )),
        );
        GraphView {
            edges: self.edges.map_entries(
                |thread: ThreadId, edge: Edge|
                    if self.waits_under(query, thread) {
                        Edge { blocked_on: new_owner, ..edge }
                    } else {
                        edge
                    },
            ),
            ..self
        }.wake(woken, WaitResult::Completed)
    }

    /// The graph after the lock of `query`, held by `current` or transferred before, is
    /// transferred to `new_owner_key`.
    pub open spec fn transfer_lock(
        self,
        query: DatabaseKeyIndex,
        current: ThreadId,
        new_owner_key: DatabaseKeyIndex,
        new_owner_id: SyncOwner,
    ) -> GraphView {
        let thread = self.new_owner_thread(query, current, new_owner_key, new_owner_id);
        let relinked = GraphView {
            transferred: relink(
                self.transferred,
                query,
                Transfer { thread, owner: new_owner_key },
            ),
            ..self
        };
        if self.transfer_changes_thread(query, current, new_owner_key, new_owner_id) {
            relinked.hand_over(query, thread)
        } else {
            relinked
        }
    }
}

impl GraphView {
    /// Whether `thread` is on the chain of blocked threads that leads from `owner` to `me`.
    pub open spec fn between(self, owner: ThreadId, me: ThreadId, thread: ThreadId) -> bool {
        (thread == owner || self.depends_on(owner, thread)) && self.depends_on(thread, me)
    }

    /// Whether the thread `me`, which evaluates the group rooted at `my_root` (if any), wins over
    /// every thread on the chain from `owner` to `me`: it owns a group, and every other group
    /// owner on the chain has a larger root.
    pub open spec fn wins(
        self,
        groups: GroupsView,
        me: ThreadId,
        owner: ThreadId,
        my_root: Option<DatabaseKeyIndex>,
    ) -> bool {
        &&& my_root is Some
        &&& forall|thread: ThreadId| #[trigger]
            self.between(owner, me, thread) && groups.owner_index.contains_key(thread)
                ==> crate::cycle_groups::precedes(my_root->0, groups.owner_index[thread])
    }

    /// Whether `thread` is the last on the chain from `owner` to `me`: it is blocked on a query
    /// that `me` evaluates.
    pub open spec fn is_waiter(self, owner: ThreadId, me: ThreadId, thread: ThreadId) -> bool {
        &&& thread == owner || self.depends_on(owner, thread)
        &&& self.edges.contains_key(thread)
        &&& self.edges[thread].blocked_on == me
    }

    /// The query that `me` holds on the cycle that it would close by waiting for `owner`, where
    /// `me` wins; `None` where it must back out itself, or where there is no such cycle.
    pub open spec fn cross_cycle_walk(
        self,
        groups: GroupsView,
        me: ThreadId,
        owner: ThreadId,
        my_root: Option<DatabaseKeyIndex>,
    ) -> Option<DatabaseKeyIndex> {
        if self.depends_on(owner, me) && self.wins(groups, me, owner, my_root) {
            Some(
                self.edges[choose|thread: ThreadId| #[trigger]
                    self.is_waiter(owner, me, thread)].key,
            )
        } else {
            None
        }
    }

    /// Whether `a` and `b` are on one cycle of threads that wait for one another.
    pub open spec fn on_cycle(self, a: ThreadId, b: ThreadId) -> bool {
        self.depends_on(a, b) && self.depends_on(b, a)
    }

    /// The graph before `thread` was blocked.
    pub open spec fn without(self, thread: ThreadId) -> GraphView {
        GraphView { edges: self.edges.remove(thread), ..self }
    }

    /// What `thread` decides, when it is the one that closes the cycle.
    pub open spec fn decision_of(self, groups: GroupsView, thread: ThreadId) -> Option<
        DatabaseKeyIndex,
    > {
        self.without(thread).cross_cycle_walk(
            groups,
            thread,
            self.edges[thread].blocked_on,
            groups.owner_index.get(thread),
        )
    }

    /// Whether `thread` owns a group, and every other group owner on its cycle has a larger root.
    pub open spec fn has_priority(self, groups: GroupsView, thread: ThreadId) -> bool {
        &&& groups.owner_index.contains_key(thread)
        &&& forall|other: ThreadId| #[trigger]
            self.on_cycle(thread, other) && other != thread && groups.owner_index.contains_key(
                other,
            ) ==> crate::cycle_groups::precedes(
                groups.owner_index[thread],
                groups.owner_index[other],
            )
    }
}

/// The dependency graph tracks which threads are blocked on one another, waiting for queries
/// to terminate.
#[derive(Debug)]
pub struct DependencyGraph {
    edges: FxMap<ThreadId, Edge>,
    wait_results: FxMap<ThreadId, WaitResult>,
    transferred: FxMap<DatabaseKeyIndex, Transfer>,
}

impl View for DependencyGraph {
    type V = GraphView;

    closed spec fn view(&self) -> GraphView {
        GraphView {
            edges: self.edges@,
            wait_results: self.wait_results@,
            transferred: self.transferred@,
        }
    }
}

impl Default for DependencyGraph {
    fn default() -> (graph: DependencyGraph)
        ensures
            graph@ == GraphView::empty(),
            graph@.wf(),
    {
        let graph = DependencyGraph {
            edges: FxMap::new(),
            wait_results: FxMap::new(),
            transferred: FxMap::new(),
        };
        proof {
            assert(graph@ =~= GraphView::empty());
            crate::walk::lemma_acyclic_empty(graph@.waits());
            crate::walk::lemma_acyclic_empty(graph@.owners());
        }
        graph
    }
}

impl DependencyGraph {
    /// Whether `from` waits for `to`, directly or through other threads.
    pub fn depends_on(&self, from: ThreadId, to: ThreadId) -> (waits: bool)
        requires
            crate::walk::acyclic(self@.waits()),
        ensures
            waits == self@.depends_on(from, to),
    {
        let ghost waits = self@.waits();
        let mut current = from;
        let ghost mut passed: Set<ThreadId> = Set::empty();
        proof {
            self.edges.lemma_finite();
        }
        loop
            invariant
                waits == self@.waits(),
                waits.dom() == self.edges@.dom(),
                self.edges@.dom().finite(),
                crate::walk::acyclic(waits),
                crate::walk::reaches(waits, from, to) == crate::walk::reaches(waits, current, to),
                passed.finite(),
                passed.subset_of(waits.dom()),
                forall|t: ThreadId| #[trigger]
                    passed.contains(t) ==> crate::walk::reaches(waits, t, current),
            decreases waits.dom().len() - passed.len(),
        {
            proof {
                crate::walk::lemma_reaches_step(waits, current, to);
            }
            match self.edges.get(current) {
                None => {
                    return false;
                },
                Some(edge) => {
                    if edge.blocked_on == to {
                        return true;
                    }
                    proof {
                        crate::walk::lemma_chain_advances(waits, passed, current);
                        passed = passed.insert(current);
                    }
                    current = edge.blocked_on;
                },
            }
        }
    }

    /// Decides which side of a cross-thread cycle must back out.
    ///
    /// The thread `me`, which evaluates the group rooted at `my_root` (if any), wants a query
    /// that `owner` computes, which would close a cycle `owner -> ... -> me` of blocked threads.
    /// A group owner beats threads that own no group, and between two group owners the
    /// one with the smaller root wins.
    ///
    /// Returns the query that `me` holds on the cycle if `me` wins: its waiters must be woken with
    /// [`WaitResult::BackOut`]. Returns `None` if `me` must back out itself, which is also
    /// the answer where `owner` does not wait for `me`.
    pub fn cross_cycle_walk(
        &self,
        groups: &CycleGroups,
        me: ThreadId,
        owner: ThreadId,
        my_root: Option<DatabaseKeyIndex>,
    ) -> (wake_key: Option<DatabaseKeyIndex>)
        requires
            crate::walk::acyclic(self@.waits()),
        ensures
            wake_key == self@.cross_cycle_walk(groups@, me, owner, my_root),
            wake_key matches Some(key) ==> exists|thread: ThreadId|
                self@.edges.contains_key(thread) && #[trigger] self@.edges[thread] == (Edge {
                    blocked_on: me,
                    key,
                }),
    {
        let root = match my_root {
            Some(root) => root,
            None => {
                return None;
            },
        };
        let ghost waits = self@.waits();
        let mut current = owner;
        let ghost mut passed: Set<ThreadId> = Set::empty();
        proof {
            self.edges.lemma_finite();
            assert forall|thread: ThreadId| !#[trigger] self@.between(owner, owner, thread) by {
                if self@.depends_on(owner, thread) && self@.depends_on(thread, owner) {
                    crate::walk::lemma_reaches_transitive(waits, owner, thread, owner);
                }
            }
        }
        loop
            invariant
                my_root == Some(root),
                waits == self@.waits(),
                waits.dom() == self.edges@.dom(),
                self.edges@.dom().finite(),
                crate::walk::acyclic(waits),
                current == owner || self@.depends_on(owner, current),
                self@.depends_on(owner, me) == self@.depends_on(current, me),
                forall|thread: ThreadId| #[trigger]
                    self@.between(owner, current, thread) && groups@.owner_index.contains_key(
                        thread,
                    ) ==> crate::cycle_groups::precedes(root, groups@.owner_index[thread]),
                passed.subset_of(waits.dom()),
                forall|thread: ThreadId| #[trigger]
                    passed.contains(thread) ==> crate::walk::reaches(waits, thread, current),
            decreases waits.dom().len() - passed.len(),
        {
            proof {
                crate::walk::lemma_reaches_step(waits, current, me);
            }
            match self.edges.get(current) {
                None => {
                    return None;
                },
                Some(edge) => {
                    match groups.root_owned_by(current) {
                        Some(other) => {
                            if !comes_before(root, other) {
                                proof {
                                    if self@.depends_on(owner, me) {
                                        assert(self@.between(owner, me, current));
                                    }
                                }
                                return None;
                            }
                        },
                        None => {},
                    }
                    proof {
                        self@.lemma_chain_passed(owner, current);
                    }
                    if edge.blocked_on == me {
                        proof {
                            self@.lemma_waiter_unique(owner, me, current);
                            assert(self@.is_waiter(owner, me, current));
                            assert(self@.wins(groups@, me, owner, my_root));
                        }
                        return Some(edge.key);
                    }
                    proof {
                        crate::walk::lemma_chain_advances(waits, passed, current);
                        passed = passed.insert(current);
                        crate::walk::lemma_reaches_step(waits, current, edge.blocked_on);
                        if current != owner {
                            crate::walk::lemma_reaches_transitive(
                                waits,
                                owner,
                                current,
                                edge.blocked_on,
                            );
                        }
                    }
                    current = edge.blocked_on;
                },
            }
        }
    }

    /// The query on the chain of transfers from `query` whose lock `owner` owns directly;
    /// `None` where `owner` does not own the lock of `query`.
    fn link_into(&self, query: DatabaseKeyIndex, owner: DatabaseKeyIndex) -> (link: Option<
        DatabaseKeyIndex,
    >)
        requires
            crate::walk::acyclic(self@.owners()),
        ensures
            link is Some <==> self@.owned_by(query, owner),
            link matches Some(link) ==> is_link_into(self@.transferred, query, owner, link),
    {
        let ghost owners = self@.owners();
        let mut current = query;
        let ghost mut passed: Set<DatabaseKeyIndex> = Set::empty();
        proof {
            self.transferred.lemma_finite();
        }
        loop
            invariant
                owners == self@.owners(),
                owners.dom() == self.transferred@.dom(),
                self.transferred@.dom().finite(),
                crate::walk::acyclic(owners),
                current == query || crate::walk::reaches(owners, query, current),
                crate::walk::reaches(owners, query, owner) == crate::walk::reaches(
                    owners,
                    current,
                    owner,
                ),
                passed.subset_of(owners.dom()),
                forall|q: DatabaseKeyIndex| #[trigger]
                    passed.contains(q) ==> crate::walk::reaches(owners, q, current),
            decreases owners.dom().len() - passed.len(),
        {
            proof {
                crate::walk::lemma_reaches_step(owners, current, owner);
            }
            match self.transferred.get(current) {
                None => {
                    return None;
                },
                Some(transfer) => {
                    if transfer.owner == owner {
                        return Some(current);
                    }
                    proof {
                        crate::walk::lemma_chain_advances(owners, passed, current);
                        passed = passed.insert(current);
                        crate::walk::lemma_reaches_step(owners, current, transfer.owner);
                        if current != query {
                            crate::walk::lemma_reaches_transitive(
                                owners,
                                query,
                                current,
                                transfer.owner,
                            );
                        }
                    }
                    current = transfer.owner;
                },
            }
        }
    }

    /// Whether `owner` owns the lock of `query`, directly or through other queries.
    fn owned_by(&self, query: DatabaseKeyIndex, owner: DatabaseKeyIndex) -> (owned: bool)
        requires
            crate::walk::acyclic(self@.owners()),
        ensures
            owned == self@.owned_by(query, owner),
    {
        self.link_into(query, owner).is_some()
    }

    /// The thread that owns the lock of the transferred query `query`; `None` where its lock
    /// is not (or no longer) owned by another query. The transfer of `ignore` is passed over.
    pub fn thread_id_of_transferred_query(
        &self,
        query: DatabaseKeyIndex,
        ignore: Option<DatabaseKeyIndex>,
    ) -> (thread: Option<ThreadId>)
        requires
            crate::walk::acyclic(self@.owners()),
        ensures
            thread == owner_thread(
                match ignore {
                    Some(ignored) => self@.transferred.remove(ignored),
                    None => self@.transferred,
                },
                query,
            ),
    {
        let ghost transferred = match ignore {
            Some(ignored) => self@.transferred.remove(ignored),
            None => self@.transferred,
        };
        let ghost owners = owner_links(transferred);
        proof {
            self.transferred.lemma_finite();
            assert(owners.submap_of(self@.owners()));
            crate::walk::lemma_acyclic_submap(owners, self@.owners());
        }
        let mut current = query;
        let mut found: Option<ThreadId> = None;
        let ghost mut last = query;
        let ghost mut passed: Set<DatabaseKeyIndex> = Set::empty();
        loop
            invariant
                transferred == (match ignore {
                    Some(ignored) => self@.transferred.remove(ignored),
                    None => self@.transferred,
                }),
                owners == owner_links(transferred),
                transferred.dom().finite(),
                crate::walk::acyclic(owners),
                current == query || crate::walk::reaches(owners, query, current),
                found is None ==> current == query,
                found matches Some(thread) ==> {
                    &&& transferred.contains_key(query)
                    &&& last == query || crate::walk::reaches(owners, query, last)
                    &&& transferred.contains_key(last)
                    &&& transferred[last].owner == current
                    &&& transferred[last].thread == thread
                },
                passed.subset_of(owners.dom()),
                forall|q: DatabaseKeyIndex| #[trigger]
                    passed.contains(q) ==> crate::walk::reaches(owners, q, current),
            decreases owners.dom().len() - passed.len(),
        {
            let ignored = match ignore {
                Some(ignored) => ignored == current,
                None => false,
            };
            let next = if ignored {
                None
            } else {
                self.transferred.get(current)
            };
            match next {
                None => {
                    proof {
                        if found is Some {
                            assert(is_last_transfer(transferred, query, last));
                            lemma_last_transfer_unique(transferred, query, last);
                        }
                    }
                    return found;
                },
                Some(transfer) => {
                    proof {
                        assert(owners.dom() =~= transferred.dom());
                        crate::walk::lemma_chain_advances(owners, passed, current);
                        passed = passed.insert(current);
                        crate::walk::lemma_reaches_step(owners, current, transfer.owner);
                        if current != query {
                            crate::walk::lemma_reaches_transitive(
                                owners,
                                query,
                                current,
                                transfer.owner,
                            );
                        }
                        last = current;
                    }
                    found = Some(transfer.thread);
                    current = transfer.owner;
                },
            }
        }
    }

    /// Wakes `threads` with `result`.
    fn wake(&mut self, threads: &Vec<ThreadId>, result: WaitResult)
        ensures
            final(self)@ == old(self)@.wake(threads@.to_set(), result),
    {
        self.edges.remove_all(threads);
        self.wait_results.insert_all(threads, result);
        proof {
            let expected = old(self)@.wake(threads@.to_set(), result);
            assert(self@.wait_results =~= expected.wait_results);
        }
    }

    /// Whether `thread` runs: it is not blocked, and no result of blocking waits for it.
    pub fn is_running(&self, thread: ThreadId) -> (running: bool)
        ensures
            running == self@.is_running(thread),
    {
        self.edges.get(thread).is_none() && self.wait_results.get(thread).is_none()
    }

    /// Registers that the thread `from` waits for `to` to finish `key`. Blocking must not
    /// close a cycle.
    pub fn block_on(&mut self, from: ThreadId, key: DatabaseKeyIndex, to: ThreadId)
        requires
            old(self)@.wf(),
            from != to,
            old(self)@.is_running(from),
            !old(self)@.depends_on(to, from),
        ensures
            final(self)@ == old(self)@.block_on(from, key, to),
            final(self)@.wf(),
    {
        self.edges.insert(from, Edge { blocked_on: to, key });
        proof {
            crate::walk::lemma_acyclic_insert(old(self)@.waits(), from, to);
            assert(self@.waits() =~= old(self)@.waits().insert(from, to));
        }
    }

    /// Hands a woken thread what it was woken with, once.
    pub fn take_wait_result(&mut self, thread: ThreadId) -> (result: Option<WaitResult>)
        ensures
            result == old(self)@.wait_results.get(thread),
            final(self)@ == old(self)@.take_wait_result(thread),
            old(self)@.wf() ==> final(self)@.wf(),
    {
        self.wait_results.remove(thread)
    }

    /// Wakes every thread that is blocked on `key` with `result`.
    pub fn unblock_runtimes_blocked_on(&mut self, key: DatabaseKeyIndex, result: WaitResult)
        ensures
            final(self)@ == old(self)@.unblock(key, result),
            old(self)@.wf() ==> final(self)@.wf(),
    {
        let threads = self.edges.keys();
        let mut blocked: Vec<ThreadId> = Vec::new();
        for i in 0..threads.len()
            invariant
                self == old(self),
                forall|thread: ThreadId| #[trigger]
                    threads@.contains(thread) <==> self@.edges.contains_key(thread),
                forall|thread: ThreadId| #[trigger]
                    blocked@.contains(thread) <==> threads@.take(i as int).contains(thread)
                        && self@.edges[thread].key == key,
        {
            let thread = threads[i];
            proof {
                crate::seqs::lemma_take_next(threads@, i as int);
                crate::seqs::lemma_push_contains(blocked@, thread);
            }
            match self.edges.get(thread) {
                Some(edge) => {
                    if edge.key == key {
                        blocked.push(thread);
                    }
                },
                None => {},
            }
        }
        proof {
            crate::seqs::lemma_take_all(threads@);
            assert(blocked@.to_set() =~= self@.blocked_on(key));
            old(self)@.lemma_wake_keeps_wf(self@.blocked_on(key), result);
        }
        self.wake(&blocked, result);
    }

    /// Wakes every thread that is blocked on a query whose lock `owner` owns, directly or
    /// through other queries, with `result`, and ends the transfers of those queries. Threads
    /// that are blocked on `owner` itself are not woken.
    pub fn unblock_runtimes_blocked_on_transferred_queries_owned_by(
        &mut self,
        owner: DatabaseKeyIndex,
        result: WaitResult,
    )
        requires
            old(self)@.wf(),
        ensures
            final(self)@ == old(self)@.unblock_owned_by(owner, result),
            final(self)@.wf(),
    {
        let threads = self.edges.keys();
        let mut blocked: Vec<ThreadId> = Vec::new();
        for i in 0..threads.len()
            invariant
                self == old(self),
                self@.wf(),
                forall|thread: ThreadId| #[trigger]
                    threads@.contains(thread) <==> self@.edges.contains_key(thread),
                forall|thread: ThreadId| #[trigger]
                    blocked@.contains(thread) <==> threads@.take(i as int).contains(thread)
                        && self@.owned_by(self@.edges[thread].key, owner),
        {
            let thread = threads[i];
            proof {
                crate::seqs::lemma_take_next(threads@, i as int);
                crate::seqs::lemma_push_contains(blocked@, thread);
            }
            match self.edges.get(thread) {
                Some(edge) => {
                    if self.owned_by(edge.key, owner) {
                        blocked.push(thread);
                    }
                },
                None => {},
            }
        }
        let queries = self.transferred.keys();
        let mut owned: Vec<DatabaseKeyIndex> = Vec::new();
        for i in 0..queries.len()
            invariant
                self == old(self),
                self@.wf(),
                forall|query: DatabaseKeyIndex| #[trigger]
                    owned@.contains(query) <==> queries@.take(i as int).contains(query)
                        && self@.owned_by(query, owner),
        {
            let query = queries[i];
            proof {
                crate::seqs::lemma_take_next(queries@, i as int);
                crate::seqs::lemma_push_contains(owned@, query);
            }
            if self.owned_by(query, owner) {
                owned.push(query);
            }
        }
        proof {
            crate::seqs::lemma_take_all(threads@);
            crate::seqs::lemma_take_all(queries@);
            assert(blocked@.to_set() =~= self@.blocked_on_owned_by(owner));
            assert forall|query: DatabaseKeyIndex| self@.owned_by(
                query,
                owner,
            ) implies queries@.contains(query) by {
                crate::walk::lemma_reaches_step(self@.owners(), query, owner);
            }
            assert(owned@.to_set() =~= self@.queries_owned_by(owner));
            old(self)@.lemma_wake_keeps_wf(self@.blocked_on_owned_by(owner), result);
        }
        self.wake(&blocked, result);
        self.transferred.remove_all(&owned);
        proof {
            assert(self@.owners().submap_of(old(self)@.owners()));
            crate::walk::lemma_acyclic_submap(self@.owners(), old(self)@.owners());
        }
    }

    /// Ends the transfer of the lock of `query`, if there is one, so that `query` owns its lock
    /// again.
    pub fn undo_transfer_lock(&mut self, query: DatabaseKeyIndex)
        ensures
            final(self)@ == old(self)@.undo_transfer_lock(query),
            owner_thread(final(self)@.transferred, query) is None,
            old(self)@.wf() ==> final(self)@.wf(),
    {
        self.transferred.remove(query);
        proof {
            if old(self)@.wf() {
                assert(self@.owners().submap_of(old(self)@.owners()));
                crate::walk::lemma_acyclic_submap(self@.owners(), old(self)@.owners());
            }
        }
    }

    /// Records that the lock of `query` is transferred as `transfer` says.
    fn relink(&mut self, query: DatabaseKeyIndex, transfer: Transfer)
        requires
            old(self)@.wf(),
            transfer.owner != query,
        ensures
            final(self)@ == (GraphView {
                transferred: relink(old(self)@.transferred, query, transfer),
                ..old(self)@
            }),
            final(self)@.wf(),
    {
        match self.link_into(transfer.owner, query) {
            Some(link) => {
                let taken_over = match self.transferred.get(query) {
                    Some(earlier) => Some(*earlier),
                    None => None,
                };
                match taken_over {
                    Some(earlier) => {
                        self.transferred.insert(link, earlier);
                    },
                    None => {
                        self.transferred.remove(link);
                    },
                }
                proof {
                    lemma_link_into_unique(old(self)@.transferred, transfer.owner, query, link);
                }
            },
            None => {},
        }
        self.transferred.insert(query, transfer);
        proof {
            assert(self@.transferred == relink(old(self)@.transferred, query, transfer));
            lemma_relink_acyclic(old(self)@.transferred, query, transfer);
        }
    }

    /// Transfers the ownership of the lock for `query`, held by the thread `current` or
    /// transferred before, to `new_owner_key`. Returns whether the lock moved to another thread.
    pub fn transfer_lock(
        &mut self,
        query: DatabaseKeyIndex,
        current: ThreadId,
        new_owner_key: DatabaseKeyIndex,
        new_owner_id: SyncOwner,
    ) -> (moved: bool)
        requires
            old(self)@.wf(),
            new_owner_key != query,
        ensures
            final(self)@ == old(self)@.transfer_lock(query, current, new_owner_key, new_owner_id),
            moved == old(self)@.transfer_changes_thread(
                query,
                current,
                new_owner_key,
                new_owner_id,
            ),
            final(self)@.wf(),
    {
        let thread = match new_owner_id {
            SyncOwner::Thread(thread) => thread,
            SyncOwner::Transferred => match self.thread_id_of_transferred_query(
                new_owner_key,
                Some(query),
            ) {
                Some(thread) => thread,
                None => current,
            },
        };
        let before = match self.thread_id_of_transferred_query(query, None) {
            Some(thread) => thread,
            None => current,
        };
        self.relink(query, Transfer { thread, owner: new_owner_key });
        if before != thread {
            self.hand_over(query, thread);
            true
        } else {
            false
        }
    }

    /// Makes the threads that wait for `query`, or for a lock that it owns, wait for
    /// `new_owner`. Those that `new_owner` waits for, and `new_owner` itself, are woken.
    fn hand_over(&mut self, query: DatabaseKeyIndex, new_owner: ThreadId)
        requires
            old(self)@.wf(),
        ensures
            final(self)@ == old(self)@.hand_over(query, new_owner),
            final(self)@.wf(),
    {
        let threads = self.edges.keys();
        let mut woken: Vec<ThreadId> = Vec::new();
        let ghost before = self@;
        for i in 0..threads.len()
            invariant
                self@ == before,
                self@.wf(),
                forall|thread: ThreadId| #[trigger]
                    threads@.contains(thread) <==> before.edges.contains_key(thread),
                forall|thread: ThreadId| #[trigger]
                    woken@.contains(thread) <==> threads@.take(i as int).contains(thread)
                        && before.waits_under(query, thread) && (thread == new_owner
                        || before.depends_on(new_owner, thread)),
        {
            let thread = threads[i];
            proof {
                crate::seqs::lemma_take_next(threads@, i as int);
                crate::seqs::lemma_push_contains(woken@, thread);
            }
            match self.edges.get(thread) {
                Some(edge) => {
                    if edge.key == query || self.owned_by(edge.key, query) {
                        if thread == new_owner || self.depends_on(new_owner, thread) {
                            woken.push(thread);
                        }
                    }
                },
                None => {},
            }
        }
        proof {
            crate::seqs::lemma_take_all(threads@);
        }
        for i in 0..threads.len()
            invariant
                threads@.no_duplicates(),
                forall|thread: ThreadId| #[trigger]
                    threads@.contains(thread) <==> before.edges.contains_key(thread),
                crate::walk::acyclic(self@.owners()),
                self@.transferred == before.transferred,
                self@.wait_results == before.wait_results,
                self@.edges == before.edges.map_entries(
                    |thread: ThreadId, edge: Edge|
                        if threads@.take(i as int).contains(thread) && before.waits_under(
                            query,
                            thread,
                        ) {
                            Edge { blocked_on: new_owner, ..edge }
                        } else {
                            edge
                        },
                ),
        {
            let thread = threads[i];
            proof {
                crate::seqs::lemma_take_next(threads@, i as int);
            }
            let key = match self.edges.get(thread) {
                Some(edge) => Some(edge.key),
                None => None,
            };
            match key {
                Some(key) => {
                    if key == query || self.owned_by(key, query) {
                        self.edges.insert(thread, Edge { blocked_on: new_owner, key });
                    }
                },
                None => {},
            }
            assert(self@.edges =~= before.edges.map_entries(
                |thread: ThreadId, edge: Edge|
                    if threads@.take(i + 1).contains(thread) && before.waits_under(query, thread) {
                        Edge { blocked_on: new_owner, ..edge }
                    } else {
                        edge
                    },
            ));
        }
        self.wake(&woken, WaitResult::Completed);
        proof {
            crate::seqs::lemma_take_all(threads@);
            let expected = before.hand_over(query, new_owner);
            assert(self@.edges =~= expected.edges);
            assert(self@.wait_results =~= expected.wait_results);
            before.lemma_hand_over_keeps_wf(query, new_owner);
        }
    }
}

impl GraphView {
    proof fn lemma_hand_over_keeps_wf(self, query: DatabaseKeyIndex, new_owner: ThreadId)
        requires
            self.wf(),
        ensures
            self.hand_over(query, new_owner).wf(),
    {
        let after = self.hand_over(query, new_owner);
        let moved = Set::new(
            |thread: ThreadId|
                self.waits_under(query, thread) && thread != new_owner && !self.depends_on(
                    new_owner,
                    thread,
                ),
        );
        crate::walk::lemma_acyclic_redirect(self.waits(), after.waits(), moved, new_owner);
    }

    /// The chain from `owner` up to what `current` waits for is that up to `current`, and
    /// `current`.
    proof fn lemma_chain_passed(self, owner: ThreadId, current: ThreadId)
        requires
            crate::walk::acyclic(self.waits()),
            current == owner || self.depends_on(owner, current),
            self.edges.contains_key(current),
        ensures
            forall|thread: ThreadId| #[trigger]
                self.between(owner, self.edges[current].blocked_on, thread) ==> thread == current
                    || self.between(owner, current, thread),
    {
        let waits = self.waits();
        let next = self.edges[current].blocked_on;
        assert forall|thread: ThreadId| #[trigger] self.between(owner, next, thread) implies thread
            == current || self.between(owner, current, thread) by {
            if thread != current {
                if thread != owner && current != owner {
                    crate::walk::lemma_reaches_ordered(waits, owner, thread, current);
                }
                crate::walk::lemma_reaches_step(waits, current, thread);
                if crate::walk::reaches(waits, current, thread) && next != thread {
                    crate::walk::lemma_reaches_transitive(waits, next, thread, next);
                }
            }
        }
    }

    /// A chain of blocked threads that leads to `me` has one last thread.
    pub proof fn lemma_waiter_unique(self, owner: ThreadId, me: ThreadId, waiter: ThreadId)
        requires
            crate::walk::acyclic(self.waits()),
            self.is_waiter(owner, me, waiter),
        ensures
            forall|thread: ThreadId| #[trigger]
                self.is_waiter(owner, me, thread) ==> thread == waiter,
    {
        let waits = self.waits();
        assert forall|thread: ThreadId| #[trigger] self.is_waiter(owner, me, thread) implies thread
            == waiter by {
            if thread != waiter {
                if thread != owner && waiter != owner {
                    crate::walk::lemma_reaches_ordered(waits, owner, thread, waiter);
                }
                crate::walk::lemma_reaches_step(waits, thread, waiter);
                crate::walk::lemma_reaches_step(waits, waiter, thread);
                crate::walk::lemma_reaches_step(waits, thread, me);
                crate::walk::lemma_reaches_step(waits, waiter, me);
                if crate::walk::reaches(waits, me, waiter) {
                    crate::walk::lemma_reaches_transitive(waits, me, waiter, me);
                }
                if crate::walk::reaches(waits, me, thread) {
                    crate::walk::lemma_reaches_transitive(waits, me, thread, me);
                }
            }
        }
    }

    pub proof fn lemma_wake_keeps_wf(self, threads: Set<ThreadId>, result: WaitResult)
        ensures
            self.wf() ==> self.wake(threads, result).wf(),
    {
        if self.wf() {
            let after = self.wake(threads, result);
            assert(after.waits().submap_of(self.waits()));
            crate::walk::lemma_acyclic_submap(after.waits(), self.waits());
        }
    }
}

/// A chain of transfers has one last transfer.
pub proof fn lemma_last_transfer_unique(
    transferred: Map<DatabaseKeyIndex, Transfer>,
    query: DatabaseKeyIndex,
    last: DatabaseKeyIndex,
)
    requires
        crate::walk::acyclic(owner_links(transferred)),
        is_last_transfer(transferred, query, last),
    ensures
        forall|other: DatabaseKeyIndex| #[trigger]
            is_last_transfer(transferred, query, other) ==> other == last,
{
    let owners = owner_links(transferred);
    assert forall|other: DatabaseKeyIndex| #[trigger]
        is_last_transfer(transferred, query, other) implies other == last by {
        if other != last {
            if other != query && last != query {
                crate::walk::lemma_reaches_ordered(owners, query, other, last);
            }
            // Neither can lead to the other, since the owner of each has no transfer.
            crate::walk::lemma_reaches_step(owners, other, last);
            crate::walk::lemma_reaches_step(owners, last, other);
            crate::walk::lemma_reaches_step(owners, transferred[other].owner, last);
            crate::walk::lemma_reaches_step(owners, transferred[last].owner, other);
        }
    }
}

/// A chain of transfers has one link into a query.
pub proof fn lemma_link_into_unique(
    transferred: Map<DatabaseKeyIndex, Transfer>,
    query: DatabaseKeyIndex,
    owner: DatabaseKeyIndex,
    link: DatabaseKeyIndex,
)
    requires
        crate::walk::acyclic(owner_links(transferred)),
        is_link_into(transferred, query, owner, link),
    ensures
        forall|other: DatabaseKeyIndex| #[trigger]
            is_link_into(transferred, query, owner, other) ==> other == link,
{
    let owners = owner_links(transferred);
    assert forall|other: DatabaseKeyIndex| #[trigger]
        is_link_into(transferred, query, owner, other) implies other == link by {
        if other != link {
            if other != query && link != query {
                crate::walk::lemma_reaches_ordered(owners, query, other, link);
            }
            // One of them would lead to the other through `owner`, which then leads to itself.
            crate::walk::lemma_reaches_step(owners, other, link);
            crate::walk::lemma_reaches_step(owners, link, other);
            crate::walk::lemma_reaches_step(owners, link, owner);
            crate::walk::lemma_reaches_step(owners, other, owner);
            if crate::walk::reaches(owners, owner, link) {
                crate::walk::lemma_reaches_transitive(owners, owner, link, owner);
            }
            if crate::walk::reaches(owners, owner, other) {
                crate::walk::lemma_reaches_transitive(owners, owner, other, owner);
            }
        }
    }
}

/// Transferring a lock never makes a query own its own lock.
proof fn lemma_relink_acyclic(
    transferred: Map<DatabaseKeyIndex, Transfer>,
    query: DatabaseKeyIndex,
    transfer: Transfer,
)
    requires
        crate::walk::acyclic(owner_links(transferred)),
        transfer.owner != query,
    ensures
        crate::walk::acyclic(owner_links(relink(transferred, query, transfer))),
{
    let owners = owner_links(transferred);
    let after = owner_links(relink(transferred, query, transfer));
    if crate::walk::reaches(owners, transfer.owner, query) {
        let found = crate::walk::lemma_last_link(owners, transfer.owner, query);
        assert(is_link_into(transferred, transfer.owner, query, found));
        let link = choose|link: DatabaseKeyIndex| #[trigger]
            is_link_into(transferred, transfer.owner, query, link);
        let opened = owner_links(
            if transferred.contains_key(query) {
                transferred.insert(link, transferred[query])
            } else {
                transferred.remove(link)
            },
        );
        // Where the old chain went on from `link` through `query`, the opened one skips `query`.
        assert forall|k: DatabaseKeyIndex| #[trigger]
            opened.contains_key(k) implies crate::walk::reaches(owners, k, opened[k]) by {
            crate::walk::lemma_reaches_step(owners, k, opened[k]);
            crate::walk::lemma_reaches_step(owners, query, opened[k]);
        }
        assert forall|k: DatabaseKeyIndex| !#[trigger] crate::walk::reaches(opened, k, k) by {
            if crate::walk::reaches(opened, k, k) {
                crate::walk::lemma_reaches_covered(opened, owners, k, k);
            }
        }
        if crate::walk::reaches(opened, transfer.owner, query) {
            let other = crate::walk::lemma_last_link(opened, transfer.owner, query);
            if other != transfer.owner {
                crate::walk::lemma_reaches_covered(opened, owners, transfer.owner, other);
            }
            crate::walk::lemma_reaches_step(owners, query, query);
            lemma_link_into_unique(transferred, transfer.owner, query, link);
            assert(is_link_into(transferred, transfer.owner, query, other));
        }
        crate::walk::lemma_acyclic_insert(opened, query, transfer.owner);
        assert(after =~= opened.insert(query, transfer.owner));
    } else {
        crate::walk::lemma_acyclic_insert(owners, query, transfer.owner);
        assert(after =~= owners.insert(query, transfer.owner));
    }
}

/// In a graph without cycles, every blocked thread waits, in the end, for a thread that is not
/// blocked: the threads are never in a deadlock.
pub proof fn law_no_deadlock(view: GraphView, thread: ThreadId)
    requires
        view.wf(),
        view.edges.dom().finite(),
        view.edges.contains_key(thread),
    ensures
        exists|running: ThreadId|
            #![trigger view.edges.contains_key(running)]
            view.depends_on(thread, running) && !view.edges.contains_key(running),
{
    assert(view.waits().dom() =~= view.edges.dom());
    let running = crate::walk::lemma_chain_ends(view.waits(), thread);
    assert(!view.edges.contains_key(running));
}

/// A thread that blocks on a query is woken when the query is unblocked, with the result that
/// the query was unblocked with, and nothing of its blocking remains once it took the result.
pub proof fn law_blocked_thread_gets_result(
    view: GraphView,
    from: ThreadId,
    key: DatabaseKeyIndex,
    to: ThreadId,
    result: WaitResult,
)
    requires
        view.is_running(from),
    ensures
        ({
            let woken = view.block_on(from, key, to).unblock(key, result);
            &&& woken.wait_results.get(from) == Some(result)
            &&& !woken.edges.contains_key(from)
            &&& woken.take_wait_result(from) == view.unblock(key, result)
        }),
{
    let blocked = view.block_on(from, key, to);
    let woken = blocked.unblock(key, result);
    let plain = view.unblock(key, result);
    assert(blocked.blocked_on(key).contains(from));
    assert(woken.wait_results.remove(from) =~= plain.wait_results);
    assert(woken.edges =~= plain.edges);
}

/// Unblocking a query leaves the threads that are blocked on other queries as they were.
pub proof fn law_unblocking_wakes_no_others(
    view: GraphView,
    key: DatabaseKeyIndex,
    result: WaitResult,
    thread: ThreadId,
)
    requires
        !(view.edges.contains_key(thread) && view.edges[thread].key == key),
    ensures
        view.unblock(key, result).edges.get(thread) == view.edges.get(thread),
        view.unblock(key, result).wait_results.get(thread) == view.wait_results.get(thread),
{
}

/// Unblocking the queries that transferred their lock to `owner` leaves the threads that are
/// blocked on `owner` itself blocked.
pub proof fn law_unblocking_owned_leaves_owner(
    view: GraphView,
    owner: DatabaseKeyIndex,
    result: WaitResult,
    thread: ThreadId,
)
    requires
        view.wf(),
        view.blocked_on(owner).contains(thread),
    ensures
        view.unblock_owned_by(owner, result).edges.get(thread) == view.edges.get(thread),
        view.unblock_owned_by(owner, result).transferred.get(owner) == view.transferred.get(owner),
{
    assert(!view.owned_by(owner, owner));
}

/// Which threads of a cycle of waiting threads win does not depend on the thread that closed
/// it: a thread that closes it wins exactly where it owns a group and every other group owner
/// on the cycle has a larger root.
pub proof fn law_cross_cycle_decision(ring: GraphView, groups: GroupsView, thread: ThreadId)
    requires
        ring.on_cycle(thread, thread),
        ring.edges[thread].blocked_on != thread,
    ensures
        ring.decision_of(groups, thread) is Some <==> ring.has_priority(groups, thread),
{
    let waits = ring.waits();
    let rest = ring.without(thread);
    let owner = ring.edges[thread].blocked_on;
    crate::walk::lemma_reaches_step(waits, thread, thread);
    assert(rest.waits() =~= waits.remove(thread));
    assert forall|other: ThreadId| #[trigger]
        rest.between(owner, thread, other) <==> other != thread && ring.on_cycle(
            thread,
            other,
        ) by {
        crate::walk::lemma_cut_cycle(waits, thread, other);
    }
    crate::walk::lemma_cut_cycle(waits, thread, thread);
    if ring.has_priority(groups, thread) {
        assert(rest.wins(groups, thread, owner, groups.owner_index.get(thread)));
    }
    if rest.wins(groups, thread, owner, groups.owner_index.get(thread)) {
        assert forall|other: ThreadId| #[trigger]
            ring.on_cycle(thread, other) && other != thread && groups.owner_index.contains_key(
                other,
            ) implies crate::cycle_groups::precedes(
            groups.owner_index[thread],
            groups.owner_index[other],
        ) by {
            assert(rest.between(owner, thread, other));
        }
    }
}

/// Of two threads of a cycle, at most one would win.
pub proof fn law_cross_cycle_one_winner(
    ring: GraphView,
    groups: GroupsView,
    a: ThreadId,
    b: ThreadId,
)
    requires
        ring.on_cycle(a, b),
        a != b,
        ring.edges[a].blocked_on != a,
        ring.edges[b].blocked_on != b,
    ensures
        ring.decision_of(groups, a) is None || ring.decision_of(groups, b) is None,
{
    crate::walk::lemma_reaches_transitive(ring.waits(), a, b, a);
    crate::walk::lemma_reaches_transitive(ring.waits(), b, a, b);
    law_cross_cycle_decision(ring, groups, a);
    law_cross_cycle_decision(ring, groups, b);
    assert(ring.on_cycle(a, b) && ring.on_cycle(b, a));
}

/// Where a thread of a cycle owns a group, one of the threads of the cycle has priority: the one
/// with the smallest root.
pub proof fn law_cross_cycle_has_winner(
    ring: GraphView,
    groups: GroupsView,
    group_owner: ThreadId,
) -> (winner: ThreadId)
    requires
        groups.wf(),
        ring.on_cycle(group_owner, group_owner),
        groups.owner_index.contains_key(group_owner),
    ensures
        ring.on_cycle(group_owner, winner),
        ring.has_priority(groups, winner),
    decreases
            groups.owner_index[group_owner].ingredient_index.index,
            groups.owner_index[group_owner].key_index.bits,
{
    if ring.has_priority(groups, group_owner) {
        group_owner
    } else {
        let other = choose|other: ThreadId| #[trigger]
            ring.on_cycle(group_owner, other) && other != group_owner
                && groups.owner_index.contains_key(other) && !crate::cycle_groups::precedes(
                groups.owner_index[group_owner],
                groups.owner_index[other],
            );
        crate::cycle_groups::law_key_order_is_total(
            groups.owner_index[group_owner],
            groups.owner_index[other],
            groups.owner_index[other],
        );
        crate::walk::lemma_reaches_transitive(ring.waits(), other, group_owner, other);
        let winner = law_cross_cycle_has_winner(ring, groups, other);
        crate::walk::lemma_reaches_transitive(ring.waits(), group_owner, other, winner);
        crate::walk::lemma_reaches_transitive(ring.waits(), winner, other, group_owner);
        winner
    }
}

/// Waking the waiters of the query that the winner holds breaks the cycle: `owner` no longer
/// waits for the winner.
pub proof fn law_back_out_breaks_cycle(
    view: GraphView,
    groups: GroupsView,
    me: ThreadId,
    owner: ThreadId,
    my_root: Option<DatabaseKeyIndex>,
)
    requires
        view.wf(),
        view.cross_cycle_walk(groups, me, owner, my_root) is Some,
    ensures
        ({
            let wake_key = view.cross_cycle_walk(groups, me, owner, my_root)->0;
            !view.unblock(wake_key, WaitResult::BackOut).depends_on(owner, me)
        }),
{
    let wake_key = view.cross_cycle_walk(groups, me, owner, my_root)->0;
    let after = view.unblock(wake_key, WaitResult::BackOut);
    let found = crate::walk::lemma_last_link(view.waits(), owner, me);
    assert(view.is_waiter(owner, me, found));
    let waiter = choose|thread: ThreadId| #[trigger] view.is_waiter(owner, me, thread);
    if after.depends_on(owner, me) {
        let last = crate::walk::lemma_last_link(after.waits(), owner, me);
        assert forall|k: ThreadId| #[trigger]
            after.waits().contains_key(k) implies crate::walk::reaches(
            view.waits(),
            k,
            after.waits()[k],
        ) by {
            crate::walk::lemma_reaches_step(view.waits(), k, after.waits()[k]);
        }
        if last != owner {
            crate::walk::lemma_reaches_covered(after.waits(), view.waits(), owner, last);
        }
        assert(after.edges.contains_key(last));
        assert(view.is_waiter(owner, me, last));
        view.lemma_waiter_unique(owner, me, waiter);
    }
}

/// After the lock of a query is transferred, it is owned by the thread that takes it over, where
/// the new owner's own lock was not owned by that query (or was by that query alone), and
/// `new_owner_id` says truly whether the lock of the new owner is itself transferred.
pub proof fn law_transfer_hands_lock_over(
    view: GraphView,
    query: DatabaseKeyIndex,
    current: ThreadId,
    new_owner_key: DatabaseKeyIndex,
    new_owner_id: SyncOwner,
)
    requires
        view.wf(),
        view.transferred.dom().finite(),
        new_owner_key != query,
        view.owned_by(new_owner_key, query) ==> view.transferred[new_owner_key].owner == query
            && !view.transferred.contains_key(query),
        new_owner_id is Transferred <==> view.transferred.contains_key(new_owner_key),
    ensures
        owner_thread(
            view.transfer_lock(query, current, new_owner_key, new_owner_id).transferred,
            query,
        ) == Some(view.new_owner_thread(query, current, new_owner_key, new_owner_id)),
{
    let thread = view.new_owner_thread(query, current, new_owner_key, new_owner_id);
    let transfer = Transfer { thread, owner: new_owner_key };
    let after = relink(view.transferred, query, transfer);
    let links = owner_links(after);
    lemma_relink_acyclic(view.transferred, query, transfer);
    crate::walk::lemma_reaches_step(links, query, new_owner_key);
    crate::walk::lemma_reaches_step(view.owners(), new_owner_key, query);
    if view.owned_by(new_owner_key, query) {
        assert(is_link_into(view.transferred, new_owner_key, query, new_owner_key));
        lemma_link_into_unique(view.transferred, new_owner_key, query, new_owner_key);
        let rest = view.transferred.remove(query);
        assert(rest =~= view.transferred);
        assert(is_last_transfer(rest, new_owner_key, new_owner_key));
        lemma_last_transfer_unique(rest, new_owner_key, new_owner_key);
        assert(is_last_transfer(after, query, query));
        lemma_last_transfer_unique(after, query, query);
    } else if new_owner_id is Transferred {
        let rest = view.transferred.remove(query);
        let rest_links = owner_links(rest);
        assert(rest_links.submap_of(view.owners()));
        crate::walk::lemma_acyclic_submap(rest_links, view.owners());
        assert(rest_links.dom() =~= rest.dom());
        let end = crate::walk::lemma_chain_ends(rest_links, new_owner_key);
        let last = crate::walk::lemma_last_link(rest_links, new_owner_key, end);
        assert(is_last_transfer(rest, new_owner_key, last));
        lemma_last_transfer_unique(rest, new_owner_key, last);
        assert forall|k: DatabaseKeyIndex| #[trigger]
            rest_links.contains_key(k) implies crate::walk::reaches(links, k, rest_links[k])
            && crate::walk::reaches(view.owners(), k, rest_links[k]) by {
            crate::walk::lemma_reaches_step(links, k, rest_links[k]);
            crate::walk::lemma_reaches_step(view.owners(), k, rest_links[k]);
        }
        crate::walk::lemma_reaches_covered(rest_links, view.owners(), new_owner_key, end);
        if last != new_owner_key {
            crate::walk::lemma_reaches_covered(rest_links, links, new_owner_key, last);
            crate::walk::lemma_reaches_transitive(links, query, new_owner_key, last);
        }
        assert(is_last_transfer(after, query, last));
        lemma_last_transfer_unique(after, query, last);
    } else {
        assert(is_last_transfer(after, query, query));
        lemma_last_transfer_unique(after, query, query);
    }
}

/// Where the new owner's own lock was owned by the query, and that of the query by another one, a
/// transfer only turns the chain around: the thread that owns the lock of the query stays the
/// same.
pub proof fn law_turned_transfer_keeps_owner(
    view: GraphView,
    query: DatabaseKeyIndex,
    current: ThreadId,
    new_owner_key: DatabaseKeyIndex,
    new_owner_id: SyncOwner,
)
    requires
        view.wf(),
        view.transferred.dom().finite(),
        view.owned_by(new_owner_key, query),
        view.transferred.contains_key(query),
    ensures
        owner_thread(
            view.transfer_lock(query, current, new_owner_key, new_owner_id).transferred,
            query,
        ) == owner_thread(view.transferred, query),
{
    let before = view.transferred;
    let thread = view.new_owner_thread(query, current, new_owner_key, new_owner_id);
    let transfer = Transfer { thread, owner: new_owner_key };
    let after = relink(before, query, transfer);
    let (links, turned) = (owner_links(before), owner_links(after));
    let old_owner = before[query].owner;
    assert(new_owner_key != query);
    let found = crate::walk::lemma_last_link(links, new_owner_key, query);
    assert(is_link_into(before, new_owner_key, query, found));
    let link = choose|link: DatabaseKeyIndex| #[trigger]
        is_link_into(before, new_owner_key, query, link);
    lemma_relink_acyclic(before, query, transfer);
    crate::walk::lemma_reaches_step(links, link, query);
    crate::walk::lemma_reaches_step(links, query, old_owner);
    assert(link != query) by {
        assert(!crate::walk::reaches(links, query, query));
    }
    lemma_turned_chain_reaches_link(before, query, transfer, link);
    let end = {
        assert(links.dom() =~= before.dom());
        crate::walk::lemma_chain_ends(links, query)
    };
    let last = crate::walk::lemma_last_link(links, query, end);
    assert(is_last_transfer(before, query, last));
    lemma_last_transfer_unique(before, query, last);
    assert(after.dom() =~= before.dom());
    if last == query {
        assert(is_last_transfer(after, query, link));
        lemma_last_transfer_unique(after, query, link);
    } else {
        let moved = set![link, query];
        crate::walk::lemma_reaches_step(links, query, last);
        // The chain that `query` led to before passes neither `query` nor `link` again.
        assert forall|k: DatabaseKeyIndex|
            k == old_owner || crate::walk::reaches(links, old_owner, k) implies k != link && k
            != query by {
            crate::walk::lemma_reaches_step(links, query, k);
            if k == link {
                crate::walk::lemma_reaches_transitive(links, query, link, query);
            }
            assert(!crate::walk::reaches(links, query, query));
        }
        assert(!moved.contains(old_owner));
        assert forall|k: DatabaseKeyIndex| #[trigger]
            crate::walk::reaches(turned, old_owner, k) implies !moved.contains(k) by {
            crate::walk::lemma_reaches_unchanged(links, turned, moved, old_owner, k);
        }
        if last != old_owner {
            crate::walk::lemma_reaches_unchanged(turned, links, moved, old_owner, last);
        }
        crate::walk::lemma_reaches_step(turned, link, last);
        crate::walk::lemma_reaches_transitive(turned, query, link, last);
        assert(is_last_transfer(after, query, last));
        lemma_last_transfer_unique(after, query, last);
    }
}

/// After a chain was turned around, the query leads to what led into it.
proof fn lemma_turned_chain_reaches_link(
    transferred: Map<DatabaseKeyIndex, Transfer>,
    query: DatabaseKeyIndex,
    transfer: Transfer,
    link: DatabaseKeyIndex,
)
    requires
        crate::walk::acyclic(owner_links(transferred)),
        transfer.owner != query,
        link != query,
        is_link_into(transferred, transfer.owner, query, link),
    ensures
        crate::walk::reaches(owner_links(relink(transferred, query, transfer)), query, link),
{
    let links = owner_links(transferred);
    let turned = owner_links(relink(transferred, query, transfer));
    lemma_link_into_unique(transferred, transfer.owner, query, link);
    crate::walk::lemma_reaches_step(links, link, query);
    if link != transfer.owner {
        crate::walk::lemma_reaches_transitive(links, transfer.owner, link, query);
        let cut = links.remove(link);
        let rest = cut.remove(query);
        crate::walk::lemma_reaches_without(links, link, transfer.owner, link);
        if crate::walk::reaches(rest, transfer.owner, query) {
            // Another link would lead into `query`.
            let other = crate::walk::lemma_last_link(rest, transfer.owner, query);
            assert forall|k: DatabaseKeyIndex| #[trigger]
                rest.contains_key(k) implies crate::walk::reaches(links, k, rest[k]) by {
                crate::walk::lemma_reaches_step(links, k, rest[k]);
            }
            if other != transfer.owner {
                crate::walk::lemma_reaches_covered(rest, links, transfer.owner, other);
            }
            assert(is_link_into(transferred, transfer.owner, query, other));
        }
        crate::walk::lemma_reaches_without(cut, query, transfer.owner, link);
        assert forall|k: DatabaseKeyIndex| #[trigger]
            rest.contains_key(k) implies crate::walk::reaches(turned, k, rest[k]) by {
            assert(turned[k] == rest[k]);
            crate::walk::lemma_reaches_step(turned, k, rest[k]);
        }
        crate::walk::lemma_reaches_covered(rest, turned, transfer.owner, link);
    }
    assert(crate::walk::reaches(links, transfer.owner, query));
    crate::walk::lemma_reaches_step(turned, query, link);
}

} // verus!
