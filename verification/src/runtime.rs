//! The state that all threads share: the revision, its cancellation, the live cycle groups, and
//! which threads wait for one another.
use vstd::prelude::*;

use crate::cancelled::Cancelled;
use crate::cycle_groups::{CycleGroups, GroupsView};
use crate::dependency_graph::{DependencyGraph, GraphView, SyncOwner, WaitResult};
use crate::key::{DatabaseKeyIndex, ThreadId};
use crate::revision::{Durability, Revision};

verus! {

/// When a value last changed, and how durable it is.
#[derive(Clone, Copy, Debug, PartialEq, Eq, Structural)]
pub struct Stamp {
    pub durability: Durability,
    pub changed_at: Revision,
}

pub fn stamp(revision: Revision, durability: Durability) -> (stamp: Stamp)
    ensures
        stamp == (Stamp { durability, changed_at: revision }),
{
    Stamp { durability, changed_at: revision }
}

/// The thread `thread_id` is about to block on `database_key`, which `other_id` computes.
#[derive(Clone, Copy, Debug, PartialEq, Eq, Structural)]
pub struct Running {
    pub database_key: DatabaseKeyIndex,
    pub other_id: ThreadId,
    pub thread_id: ThreadId,
}

/// Whether a thread can wait for a query.
#[derive(Clone, Copy, Debug, PartialEq, Eq, Structural)]
pub enum BlockResult {
    /// The query is running on another thread.
    Running(Running),
    /// Blocking resulted in a cycle.
    ///
    /// The lock is held by the current thread, or another thread waits for the current thread,
    /// and blocking this thread on the other thread would result in a deadlock.
    ///
    /// `same_thread` is `true` when the lock is held by the current thread itself (a cycle over
    /// its own query stack). `false` means that the cycle spans threads: another thread
    /// transitively waits for us. `owner` is the thread that holds the contested key.
    Cycle { same_thread: bool, owner: ThreadId },
}

/// The current thread `thread_id` tries to claim the transferred query `database_key`, whose
/// lock is owned by the thread `other_id`.
#[derive(Clone, Copy, Debug, PartialEq, Eq, Structural)]
pub struct BlockOnTransferredOwner {
    /// The query that we're trying to claim.
    pub database_key: DatabaseKeyIndex,
    /// The thread that currently owns the lock for the transferred query.
    pub other_id: ThreadId,
    /// The current thread that is trying to claim the transferred query.
    pub thread_id: ThreadId,
}

/// Who owns the lock of a transferred query, seen from the thread that tries to claim it.
#[derive(Debug, PartialEq, Eq)]
pub enum BlockTransferredResult {
    /// The current thread is the owner of the transferred query and it can claim it if it wants
    /// to.
    ImTheOwner,
    /// The query is owned by, or running on, another thread.
    OwnedBy(Box<BlockOnTransferredOwner>),
    /// The query has transferred its ownership to another query previously but that query has
    /// since then completed and released the lock.
    Released,
}

/// The outcome of blocking on another thread's computation.
#[derive(Clone, Copy, Debug, PartialEq, Eq, Structural)]
pub enum BlockOutcome {
    /// The other thread completed the computation.
    Completed,
    /// The other thread was cancelled; retry the claim.
    Cancelled,
    /// The current thread must back out of its computation entirely (see
    /// [`WaitResult::BackOut`]).
    BackOut,
}

/// Reported before a thread blocks on a query that another thread computes.
#[derive(Clone, Copy, Debug, PartialEq, Eq, Structural)]
pub struct WillBlockOn {
    pub other_thread_id: ThreadId,
    pub database_key: DatabaseKeyIndex,
}

/// What comes of `thread_id` blocking on `database_key`, which `other_id` computes.
pub open spec fn spec_block(
    graph: GraphView,
    thread_id: ThreadId,
    database_key: DatabaseKeyIndex,
    other_id: ThreadId,
) -> BlockResult {
    if thread_id == other_id {
        BlockResult::Cycle { same_thread: true, owner: other_id }
    } else if graph.depends_on(other_id, thread_id) {
        BlockResult::Cycle { same_thread: false, owner: other_id }
    } else {
        BlockResult::Running(Running { database_key, other_id, thread_id })
    }
}

/// What comes of `thread_id` claiming the transferred query `query`.
pub open spec fn spec_block_transferred(
    graph: GraphView,
    query: DatabaseKeyIndex,
    thread_id: ThreadId,
) -> BlockTransferredResult {
    match crate::dependency_graph::owner_thread(graph.transferred, query) {
        None => BlockTransferredResult::Released,
        Some(other_id) => if other_id == thread_id || graph.depends_on(other_id, thread_id) {
            BlockTransferredResult::ImTheOwner
        } else {
            BlockTransferredResult::OwnedBy(
                Box::new(BlockOnTransferredOwner { database_key: query, other_id, thread_id }),
            )
        },
    }
}

impl BlockOnTransferredOwner {
    /// Block on the other thread to complete the computation.
    pub fn block<T>(self, runtime: &Runtime<T>) -> (result: BlockResult)
        requires
            runtime@.dependency_graph.wf(),
        ensures
            result == spec_block(
                runtime@.dependency_graph,
                self.thread_id,
                self.database_key,
                self.other_id,
            ),
    {
        runtime.block(self.thread_id, self.database_key, self.other_id)
    }
}

/// What a thread that was woken with `result` goes on with.
pub open spec fn outcome_of(result: WaitResult) -> Result<BlockOutcome, Cancelled> {
    match result {
        WaitResult::Panicked => Err(Cancelled::PropagatedPanic),
        WaitResult::Cancelled => Ok(BlockOutcome::Cancelled),
        WaitResult::Completed => Ok(BlockOutcome::Completed),
        WaitResult::BackOut => Ok(BlockOutcome::BackOut),
    }
}

impl Running {
    /// What is reported before the thread blocks.
    pub fn event(&self) -> (event: WillBlockOn)
        ensures
            event == (WillBlockOn {
                other_thread_id: self.other_id,
                database_key: self.database_key,
            }),
    {
        WillBlockOn { other_thread_id: self.other_id, database_key: self.database_key }
    }

    /// Registers that the thread is blocked. It must run: it is not blocked already, and it
    /// has no result waiting for it.
    pub fn register<T>(&self, runtime: &mut Runtime<T>)
        requires
            old(runtime)@.dependency_graph.wf(),
            old(runtime)@.dependency_graph.is_running(self.thread_id),
            spec_block(
                old(runtime)@.dependency_graph,
                self.thread_id,
                self.database_key,
                self.other_id,
            ) == BlockResult::Running(*self),
        ensures
            final(runtime)@ == (RuntimeView {
                dependency_graph: old(runtime)@.dependency_graph.block_on(
                    self.thread_id,
                    self.database_key,
                    self.other_id,
                ),
                ..old(runtime)@
            }),
            final(runtime)@.dependency_graph.wf(),
            old(runtime)@.wf() ==> final(runtime)@.wf(),
    {
        runtime.dependency_graph.block_on(self.thread_id, self.database_key, self.other_id);
    }

    /// What the thread goes on with once it was woken with `result`. If the other thread
    /// panicked, then this thread is considered cancelled. The assumption is that the panic
    /// will be detected by the other thread and responded to appropriately.
    pub fn block_on(self, result: WaitResult) -> (outcome: Result<BlockOutcome, Cancelled>)
        ensures
            outcome == outcome_of(result),
    {
        match result {
            WaitResult::Panicked => Err(Cancelled::PropagatedPanic),
            WaitResult::Cancelled => Ok(BlockOutcome::Cancelled),
            WaitResult::Completed => Ok(BlockOutcome::Completed),
            WaitResult::BackOut => Ok(BlockOutcome::BackOut),
        }
    }
}

/// What a runtime holds.
#[verifier::ext_equal]
pub struct RuntimeView<T> {
    pub revision_cancelled: bool,
    pub cancellation_count: u8,
    pub cycle_groups: GroupsView,
    pub revisions: Seq<Revision>,
    pub dependency_graph: GraphView,
    pub table: T,
}

impl<T> RuntimeView<T> {
    /// There is a revision for each durability of values that can change, and the registry and
    /// the graph are well-formed.
    pub open spec fn wf(self) -> bool {
        &&& self.revisions.len() == Durability::LEN
        &&& self.cycle_groups.wf()
        &&& self.dependency_graph.wf()
    }

    /// A value of some durability changes no more often than a less durable one, and none has
    /// changed before the first revision.
    pub open spec fn declining(self) -> bool {
        &&& forall|i: int, j: int|
            0 <= i <= j < self.revisions.len() ==> (#[trigger] self.revisions[i]).generation >= (
            #[trigger] self.revisions[j]).generation
        &&& forall|i: int|
            0 <= i < self.revisions.len() ==> (#[trigger] self.revisions[i]).generation
                >= Revision::spec_start().generation
    }

    pub open spec fn current_revision(self) -> Revision {
        self.revisions[0]
    }

    /// The revision in which values of durability `d` may have last changed.
    pub open spec fn last_changed_revision(self, d: Durability) -> Revision {
        if d.position() < self.revisions.len() {
            self.revisions[d.position() as int]
        } else {
            Revision::spec_start()
        }
    }

    /// The runtime after an input of durability `durability` changed.
    pub open spec fn report_tracked_write(self, durability: Durability) -> RuntimeView<T> {
        RuntimeView {
            revisions: Seq::new(
                self.revisions.len(),
                |i: int|
                    if i <= durability.position() {
                        self.current_revision()
                    } else {
                        self.revisions[i]
                    },
            ),
            ..self
        }
    }

    /// The runtime in the next revision.
    pub open spec fn new_revision(self) -> RuntimeView<T> {
        RuntimeView {
            revisions: self.revisions.update(0, self.current_revision().spec_next()),
            cancellation_count: 0,
            revision_cancelled: false,
            ..self
        }
    }

    /// The runtime after the other handles were cancelled within the revision. Nothing changes
    /// where the count is exhausted.
    pub open spec fn bump_cancellation_count(self) -> RuntimeView<T> {
        if self.cancellation_count < u8::MAX {
            RuntimeView { cancellation_count: (self.cancellation_count + 1) as u8, ..self }
        } else {
            self
        }
    }

    /// Whether `self` is after `other`: in a later revision, or in the same revision with a larger
    /// cancellation count.
    pub open spec fn after(self, other: RuntimeView<T>) -> bool {
        ||| self.current_revision().generation > other.current_revision().generation
        ||| self.current_revision() == other.current_revision() && self.cancellation_count
            > other.cancellation_count
    }
}

/// The revision for values that never change.
fn never_changed_revision() -> (revision: Revision)
    ensures
        revision == Revision::spec_start(),
{
    Revision::start()
}

/// The state that all threads share. `T` stores the instances of inputs and tracked values.
pub struct Runtime<T> {
    /// Set to true when the current revision has been cancelled. This is done when an input is
    /// being changed. The flag is set back to false once the input has been changed.
    revision_cancelled: bool,
    /// Distinguishes provisional cycle results created before and after cancelling other handles
    /// within the same revision. Reset when the revision advances.
    cancellation_count: u8,
    /// In-flight cycle groups.
    cycle_groups: CycleGroups,
    /// Stores the "last change" revision for values of each durability. The element at index 0
    /// is special as it represents the "current revision". In general, revisions in here are
    /// *declining*, because when you modify a value with durability D, that implies that
    /// values with durability less than D may have changed too.
    revisions: [Revision; Durability::LEN],
    /// Tracks which threads are blocked on one another, waiting for queries to terminate.
    dependency_graph: DependencyGraph,
    /// Data for instances.
    table: T,
}

impl<T> View for Runtime<T> {
    type V = RuntimeView<T>;

    closed spec fn view(&self) -> RuntimeView<T> {
        RuntimeView {
            revision_cancelled: self.revision_cancelled,
            cancellation_count: self.cancellation_count,
            cycle_groups: self.cycle_groups@,
            revisions: self.revisions@,
            dependency_graph: self.dependency_graph@,
            table: self.table,
        }
    }
}

impl<T: Default> Default for Runtime<T> {
    fn default() -> (runtime: Runtime<T>)
        ensures
            runtime@ == (RuntimeView {
                revision_cancelled: false,
                cancellation_count: 0,
                cycle_groups: GroupsView::empty(),
                revisions: seq![
                    Revision::spec_start(),
                    Revision::spec_start(),
                    Revision::spec_start(),
                ],
                dependency_graph: GraphView::empty(),
                table: runtime@.table,
            }),
            call_ensures(T::default, (), runtime@.table),
            runtime@.wf(),
            runtime@.declining(),
    {
        let start = Revision::start();
        let runtime = Runtime {
            revisions: [start, start, start],
            revision_cancelled: false,
            cancellation_count: 0,
            cycle_groups: CycleGroups::default(),
            dependency_graph: DependencyGraph::default(),
            table: T::default(),
        };
        assert(runtime@.revisions =~= seq![start, start, start]);
        runtime
    }
}

impl<T> Runtime<T> {
    pub fn current_revision(&self) -> (revision: Revision)
        ensures
            revision == self@.current_revision(),
    {
        self.revisions[0]
    }

    /// Reports that an input with durability `durability` changed. This updates the "last changed
    /// at" values for every durability less than or equal to `durability` to the current
    /// revision. An input that never changes cannot be mutated.
    pub fn report_tracked_write(&mut self, durability: Durability)
        requires
            durability != Durability::NEVER_CHANGE,
        ensures
            final(self)@ == old(self)@.report_tracked_write(durability),
            old(self)@.wf() ==> final(self)@.wf(),
            old(self)@.declining() ==> final(self)@.declining(),
    {
        let new_revision = self.current_revision();
        let last: usize = durability.index();
        let mut i: usize = 1;
        while i <= last
            invariant
                1 <= i <= last + 1,
                last < Durability::LEN,
                new_revision == old(self)@.current_revision(),
                old(self)@.revisions.len() == 3,
                self@ == (RuntimeView { revisions: self@.revisions, ..old(self)@ }),
                self@.revisions =~= Seq::new(
                    3,
                    |j: int|
                        if 1 <= j < i {
                            new_revision
                        } else {
                            old(self)@.revisions[j]
                        },
                ),
            decreases last + 1 - i,
        {
            self.revisions[i] = new_revision;
            i += 1;
        }
        proof {
            assert(self@.revisions =~= old(self)@.report_tracked_write(durability).revisions);
        }
    }

    /// The revision in which values with durability `d` may have last changed. For the lowest
    /// durability, this is just the current revision. But for higher levels of durability, this
    /// value may lag behind the current revision. If we encounter a value of durability D, then,
    /// we can check this function to get a "bound" on when the value may have changed, which
    /// allows us to skip walking its dependencies.
    pub fn last_changed_revision(&self, d: Durability) -> (revision: Revision)
        ensures
            revision == self@.last_changed_revision(d),
    {
        let index: usize = d.index();
        if index < Durability::LEN {
            self.revisions[index]
        } else {
            never_changed_revision()
        }
    }

    pub fn load_cancellation_flag(&self) -> (cancelled: bool)
        ensures
            cancelled == self@.revision_cancelled,
    {
        self.revision_cancelled
    }

    pub fn cycle_groups(&self) -> (groups: &CycleGroups)
        ensures
            groups@ == self@.cycle_groups,
    {
        &self.cycle_groups
    }

    pub fn cycle_groups_mut(&mut self) -> (groups: &mut CycleGroups)
        ensures
            groups@ == old(self)@.cycle_groups,
            final(self)@ == (RuntimeView { cycle_groups: final(groups)@, ..old(self)@ }),
    {
        &mut self.cycle_groups
    }

    /// Which threads wait for one another.
    pub fn dependency_graph(&self) -> (graph: &DependencyGraph)
        ensures
            graph@ == self@.dependency_graph,
    {
        &self.dependency_graph
    }

    pub fn cancellation_count(&self) -> (count: u8)
        ensures
            count == self@.cancellation_count,
    {
        self.cancellation_count
    }

    pub fn set_cancellation_flag(&mut self)
        ensures
            final(self)@ == (RuntimeView { revision_cancelled: true, ..old(self)@ }),
    {
        self.revision_cancelled = true;
    }

    pub fn reset_cancellation_flag(&mut self)
        ensures
            final(self)@ == (RuntimeView { revision_cancelled: false, ..old(self)@ }),
    {
        self.revision_cancelled = false;
    }

    /// Counts that the other handles were cancelled within the current revision. Returns
    /// whether the count is exhausted: only a new revision can tell results apart then.
    pub fn bump_cancellation_count(&mut self) -> (exhausted: bool)
        ensures
            exhausted == (old(self)@.cancellation_count == u8::MAX),
            final(self)@ == old(self)@.bump_cancellation_count(),
    {
        match self.cancellation_count.checked_add(1) {
            None => true,
            Some(next) => {
                self.cancellation_count = next;
                false
            },
        }
    }

    /// The table that stores the values of instances.
    pub fn table(&self) -> (table: &T)
        ensures
            *table == self@.table,
    {
        &self.table
    }

    pub fn table_mut(&mut self) -> (table: &mut T)
        ensures
            *table == old(self)@.table,
            final(self)@ == (RuntimeView { table: *final(table), ..old(self)@ }),
    {
        &mut self.table
    }

    /// Increments the "current revision" counter and clears the cancellation flag.
    ///
    /// This should only be done by the storage when the state is "quiescent".
    pub fn new_revision(&mut self) -> (revision: Revision)
        requires
            old(self)@.current_revision().has_next(),
        ensures
            revision == old(self)@.current_revision().spec_next(),
            final(self)@ == old(self)@.new_revision(),
            old(self)@.wf() ==> final(self)@.wf(),
            old(self)@.declining() ==> final(self)@.declining(),
    {
        let r_old = self.current_revision();
        let r_new = r_old.next();
        self.revisions[0] = r_new;
        self.cancellation_count = 0;
        self.revision_cancelled = false;
        assert(self@.revisions =~= old(self)@.new_revision().revisions);
        r_new
    }

    /// Decides which side of a cross-thread cycle must back out, preferring to keep the
    /// established cycle driver alive.
    ///
    /// The thread `me`, which evaluates the group rooted at `my_root` (if any), wants a query
    /// that `owner` computes, which would close a cycle `owner -> ... -> me` of blocked threads.
    /// With "requester always loses", an unrelated thread that merely holds a query which the
    /// driver's evaluation reaches would keep killing the driver, forming the cycle over and over.
    ///
    /// Returns `Some(wake_key)` if `me` should win: `wake_key` is the key it holds on the
    /// cycle whose waiters must be woken with [`WaitResult::BackOut`]. Returns `None` if `me` must
    /// back out itself (also where `owner` does not wait for `me`).
    pub fn cross_cycle_decision(
        &self,
        me: ThreadId,
        owner: ThreadId,
        my_root: Option<DatabaseKeyIndex>,
    ) -> (wake_key: Option<DatabaseKeyIndex>)
        requires
            self@.dependency_graph.wf(),
        ensures
            wake_key == self@.dependency_graph.cross_cycle_walk(
                self@.cycle_groups,
                me,
                owner,
                my_root,
            ),
    {
        self.dependency_graph.cross_cycle_walk(&self.cycle_groups, me, owner, my_root)
    }

    /// Whether `thread_id` can block until `other_id` completes executing `database_key`.
    pub fn block(
        &self,
        thread_id: ThreadId,
        database_key: DatabaseKeyIndex,
        other_id: ThreadId,
    ) -> (result: BlockResult)
        requires
            self@.dependency_graph.wf(),
        ensures
            result == spec_block(self@.dependency_graph, thread_id, database_key, other_id),
    {
        // Cycle in the same thread.
        if thread_id == other_id {
            return BlockResult::Cycle { same_thread: true, owner: other_id };
        }
        if self.dependency_graph.depends_on(other_id, thread_id) {
            return BlockResult::Cycle { same_thread: false, owner: other_id };
        }
        BlockResult::Running(Running { database_key, other_id, thread_id })
    }

    /// Whether `thread_id` runs: it is not blocked, and no result of blocking waits for it.
    pub fn is_running(&self, thread_id: ThreadId) -> (running: bool)
        ensures
            running == self@.dependency_graph.is_running(thread_id),
    {
        self.dependency_graph.is_running(thread_id)
    }

    /// Hands a woken thread what it was woken with, once.
    pub fn take_wait_result(&mut self, thread_id: ThreadId) -> (result: Option<WaitResult>)
        ensures
            result == old(self)@.dependency_graph.wait_results.get(thread_id),
            final(self)@ == (RuntimeView {
                dependency_graph: old(self)@.dependency_graph.take_wait_result(thread_id),
                ..old(self)@
            }),
            old(self)@.wf() ==> final(self)@.wf(),
    {
        self.dependency_graph.take_wait_result(thread_id)
    }

    /// Tries to claim ownership of a transferred query where `current_id` is the current thread and
    /// `query` is the query (that had its ownership transferred) to claim.
    ///
    /// For this operation to be reasonable, the caller must ensure that the sync table lock on
    /// `query` is not released before this operation completes.
    pub fn block_transferred(&self, query: DatabaseKeyIndex, current_id: ThreadId) -> (result:
        BlockTransferredResult)
        requires
            self@.dependency_graph.wf(),
        ensures
            result == spec_block_transferred(self@.dependency_graph, query, current_id),
    {
        let owner_thread_id = match self.dependency_graph.thread_id_of_transferred_query(
            query,
            None,
        ) {
            Some(owner_thread_id) => owner_thread_id,
            None => {
                // The query transferred its ownership but the owner has since then released the
                // lock.
                return BlockTransferredResult::Released;
            },
        };
        if owner_thread_id == current_id || self.dependency_graph.depends_on(
            owner_thread_id,
            current_id,
        ) {
            BlockTransferredResult::ImTheOwner
        } else {
            // Lock is owned by another thread, wait for it to be released.
            BlockTransferredResult::OwnedBy(
                Box::new(
                    BlockOnTransferredOwner {
                        database_key: query,
                        other_id: owner_thread_id,
                        thread_id: current_id,
                    },
                ),
            )
        }
    }

    /// Invoked when `database_key` was computed with the given result `wait_result`. This
    /// function unblocks any dependent queries and allows them to continue executing.
    pub fn unblock_queries_blocked_on(
        &mut self,
        database_key: DatabaseKeyIndex,
        wait_result: WaitResult,
    )
        ensures
            final(self)@ == (RuntimeView {
                dependency_graph: old(self)@.dependency_graph.unblock(database_key, wait_result),
                ..old(self)@
            }),
            old(self)@.wf() ==> final(self)@.wf(),
    {
        self.dependency_graph.unblock_runtimes_blocked_on(database_key, wait_result);
    }

    /// Unblocks all transferred queries that are owned by `database_key` recursively.
    ///
    /// Invoked when a query completes that has been marked as transfer target (it has queries that
    /// transferred their lock ownership to it) with the given `wait_result`.
    ///
    /// This function unblocks any dependent queries and allows them to continue executing. The
    /// query `database_key` is not unblocked by this function.
    pub fn unblock_transferred_queries_owned_by(
        &mut self,
        database_key: DatabaseKeyIndex,
        wait_result: WaitResult,
    )
        requires
            old(self)@.dependency_graph.wf(),
        ensures
            final(self)@ == (RuntimeView {
                dependency_graph: old(self)@.dependency_graph.unblock_owned_by(
                    database_key,
                    wait_result,
                ),
                ..old(self)@
            }),
            final(self)@.dependency_graph.wf(),
            old(self)@.wf() ==> final(self)@.wf(),
    {
        self.dependency_graph.unblock_runtimes_blocked_on_transferred_queries_owned_by(
            database_key,
            wait_result,
        );
    }

    /// Removes the ownership transfer of `query`'s lock if it exists.
    ///
    /// If `query` has transferred its lock ownership to another query, this function will remove
    /// that transfer, so that `query` now owns its lock again.
    pub fn undo_transfer_lock(&mut self, query: DatabaseKeyIndex)
        ensures
            final(self)@ == (RuntimeView {
                dependency_graph: old(self)@.dependency_graph.undo_transfer_lock(query),
                ..old(self)@
            }),
            old(self)@.wf() ==> final(self)@.wf(),
    {
        self.dependency_graph.undo_transfer_lock(query);
    }

    /// Transfers ownership of the lock for `query`, which the thread `current_id` releases, to
    /// `new_owner_key`. Returns whether the lock moved to another thread.
    ///
    /// For this operation to be reasonable, the caller must ensure that the sync table lock on
    /// `query` is not released and that `new_owner_key` is currently blocked on `query`. Otherwise,
    /// `new_owner_key` might complete before the lock is transferred, leaving `query` locked
    /// forever.
    pub fn transfer_lock(
        &mut self,
        query: DatabaseKeyIndex,
        current_id: ThreadId,
        new_owner_key: DatabaseKeyIndex,
        new_owner_id: SyncOwner,
    ) -> (moved: bool)
        requires
            old(self)@.dependency_graph.wf(),
            new_owner_key != query,
        ensures
            final(self)@ == (RuntimeView {
                dependency_graph: old(self)@.dependency_graph.transfer_lock(
                    query,
                    current_id,
                    new_owner_key,
                    new_owner_id,
                ),
                ..old(self)@
            }),
            moved == old(self)@.dependency_graph.transfer_changes_thread(
                query,
                current_id,
                new_owner_key,
                new_owner_id,
            ),
            final(self)@.dependency_graph.wf(),
            old(self)@.wf() ==> final(self)@.wf(),
    {
        self.dependency_graph.transfer_lock(query, current_id, new_owner_key, new_owner_id)
    }

    /// The part of the runtime that outlives the process: the revisions.
    pub fn revisions(&self) -> (revisions: [Revision; Durability::LEN])
        ensures
            revisions@ == self@.revisions,
    {
        self.revisions
    }

    /// A runtime with the given revisions and an empty rest.
    pub fn with_revisions(revisions: [Revision; Durability::LEN], table: T) -> (runtime: Runtime<T>)
        ensures
            runtime@ == (RuntimeView {
                revision_cancelled: false,
                cancellation_count: 0,
                cycle_groups: GroupsView::empty(),
                revisions: revisions@,
                dependency_graph: GraphView::empty(),
                table,
            }),
            runtime@.wf(),
    {
        Runtime {
            revisions,
            revision_cancelled: false,
            cancellation_count: 0,
            cycle_groups: CycleGroups::default(),
            dependency_graph: DependencyGraph::default(),
            table,
        }
    }

    /// Takes over the revisions of a runtime that was restored.
    pub fn deserialize_from(&mut self, other: &mut Runtime<T>)
        ensures
            final(self)@ == (RuntimeView { revisions: old(other)@.revisions, ..old(self)@ }),
            final(other)@ == old(other)@,
            old(self)@.wf() ==> final(self)@.wf(),
            old(other)@.declining() ==> final(self)@.declining(),
    {
        // The revisions are all that outlives the process.
        self.revisions = other.revisions;
        assert(self@.revisions == old(other)@.revisions);
    }
}

/// A thread is told to wait exactly where waiting closes no cycle: where it is not told so,
/// waiting would be a deadlock.
pub proof fn law_block_avoids_exactly_deadlock(
    graph: GraphView,
    thread_id: ThreadId,
    database_key: DatabaseKeyIndex,
    other_id: ThreadId,
)
    requires
        graph.wf(),
        graph.is_running(thread_id),
    ensures
        spec_block(graph, thread_id, database_key, other_id) is Running <==> graph.block_on(
            thread_id,
            database_key,
            other_id,
        ).wf(),
{
    let blocked = graph.block_on(thread_id, database_key, other_id);
    let (before, after) = (graph.waits(), blocked.waits());
    assert(after =~= before.insert(thread_id, other_id));
    crate::walk::lemma_reaches_step(after, thread_id, thread_id);
    if spec_block(graph, thread_id, database_key, other_id) is Running {
        crate::walk::lemma_acyclic_insert(before, thread_id, other_id);
    } else if thread_id != other_id {
        assert forall|k: ThreadId| #[trigger] before.contains_key(k) implies crate::walk::reaches(
            after,
            k,
            before[k],
        ) by {
            crate::walk::lemma_reaches_step(after, k, before[k]);
        }
        crate::walk::lemma_reaches_covered(before, after, other_id, thread_id);
    }
}

/// A thread that finds a transferred query owned by another thread can wait for that thread.
pub proof fn law_transferred_owner_can_be_waited_for(
    graph: GraphView,
    query: DatabaseKeyIndex,
    thread_id: ThreadId,
)
    requires
        spec_block_transferred(graph, query, thread_id) is OwnedBy,
    ensures
        ({
            let owned_by = spec_block_transferred(graph, query, thread_id)->OwnedBy_0;
            &&& owned_by.database_key == query
            &&& owned_by.thread_id == thread_id
            &&& spec_block(graph, thread_id, query, owned_by.other_id) is Running
        }),
{
}

/// After an undone transfer the query owns its lock again.
pub proof fn law_undone_transfer_is_released(
    graph: GraphView,
    query: DatabaseKeyIndex,
    thread_id: ThreadId,
)
    ensures
        spec_block_transferred(graph.undo_transfer_lock(query), query, thread_id) is Released,
{
}

/// Values of the lowest durability may have changed in the current revision, and a more durable
/// value changes no more often than a less durable one.
pub proof fn law_durable_values_change_less<T>(view: RuntimeView<T>, d: Durability, e: Durability)
    requires
        view.wf(),
        view.declining(),
        d.position() <= e.position(),
    ensures
        view.last_changed_revision(Durability::LOW) == view.current_revision(),
        view.last_changed_revision(d).generation >= view.last_changed_revision(e).generation,
        view.last_changed_revision(Durability::NEVER_CHANGE) == Revision::spec_start(),
{
}

/// A write to an input of durability `durability` changes the values that are at most as
/// durable now, and no others.
pub proof fn law_write_changes_less_durable<T>(
    view: RuntimeView<T>,
    durability: Durability,
    d: Durability,
)
    requires
        view.wf(),
        durability != Durability::NEVER_CHANGE,
    ensures
        view.report_tracked_write(durability).last_changed_revision(d) == if d.position()
            <= durability.position() {
            view.current_revision()
        } else {
            view.last_changed_revision(d)
        },
        view.report_tracked_write(durability).current_revision() == view.current_revision(),
{
}

/// Revision and cancellation count together never come back: a new revision comes after, and so
/// does a count that was bumped, and what comes after something that came after comes after.
pub proof fn law_epochs_advance<T>(a: RuntimeView<T>, b: RuntimeView<T>, c: RuntimeView<T>)
    requires
        a.wf(),
        a.current_revision().has_next(),
    ensures
        a.new_revision().after(a),
        a.cancellation_count < u8::MAX ==> a.bump_cancellation_count().after(a),
        !a.after(a),
        c.after(b) && b.after(a) ==> c.after(a),
{
}

/// Once the count is exhausted, bumping it changes nothing until the revision advances.
pub proof fn law_exhausted_count_needs_revision<T>(view: RuntimeView<T>)
    requires
        view.wf(),
        view.cancellation_count == u8::MAX,
    ensures
        view.bump_cancellation_count() == view,
        view.new_revision().cancellation_count == 0,
        view.new_revision().bump_cancellation_count().cancellation_count == 1,
        view.new_revision().current_revision() == view.current_revision().spec_next(),
{
}

} // verus!
