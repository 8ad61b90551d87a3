//! The state that one thread keeps for itself while it evaluates queries.
use vstd::prelude::*;

use crate::cancelled::Cancelled;
use crate::dependency_graph::WaitResult;
use crate::key::DatabaseKeyIndex;

verus! {

/// What the state of a thread holds.
#[verifier::ext_equal]
pub struct LocalView {
    /// The queries that the thread is evaluating, the innermost last.
    pub query_stack: Seq<DatabaseKeyIndex>,
    /// The root of the cycle group that the thread is evaluating.
    pub current_cycle_group: Option<DatabaseKeyIndex>,
    /// Whether the execution on this thread was asked to stop.
    pub cancellation_requested: bool,
    /// Whether such a request is put off.
    pub cancellation_deferred: bool,
    /// Whether the thread unwinds because it lost a cycle, or to enter one elsewhere.
    pub backing_out: bool,
}

impl LocalView {
    pub open spec fn empty() -> LocalView {
        LocalView {
            query_stack: Seq::empty(),
            current_cycle_group: None,
            cancellation_requested: false,
            cancellation_deferred: false,
            backing_out: false,
        }
    }

    /// Why a query must not be started, if anything speaks against it.
    pub open spec fn cancellation(self, revision_cancelled: bool) -> Option<Cancelled> {
        if self.cancellation_requested && !self.cancellation_deferred {
            Some(Cancelled::Local)
        } else if revision_cancelled {
            Some(Cancelled::PendingWrite)
        } else {
            None
        }
    }

    /// What the waiters of a query are told when the thread gives up its claim of it.
    pub open spec fn release_result(self, unwinding: bool) -> WaitResult {
        if !unwinding {
            WaitResult::Completed
        } else if self.cancellation_requested || self.backing_out {
            WaitResult::Cancelled
        } else {
            WaitResult::Panicked
        }
    }
}

/// The state that one thread keeps for itself.
pub struct ZalsaLocal {
    query_stack: Vec<DatabaseKeyIndex>,
    current_cycle_group: Option<DatabaseKeyIndex>,
    cancellation_requested: bool,
    cancellation_deferred: bool,
    backing_out: bool,
}

impl View for ZalsaLocal {
    type V = LocalView;

    closed spec fn view(&self) -> LocalView {
        LocalView {
            query_stack: self.query_stack@,
            current_cycle_group: self.current_cycle_group,
            cancellation_requested: self.cancellation_requested,
            cancellation_deferred: self.cancellation_deferred,
            backing_out: self.backing_out,
        }
    }
}

impl Default for ZalsaLocal {
    fn default() -> (local: ZalsaLocal)
        ensures
            local@ == LocalView::empty(),
    {
        let local = ZalsaLocal {
            query_stack: Vec::new(),
            current_cycle_group: None,
            cancellation_requested: false,
            cancellation_deferred: false,
            backing_out: false,
        };
        assert(local@.query_stack =~= Seq::empty());
        local
    }
}

impl ZalsaLocal {
    pub fn query_stack_is_empty(&self) -> (empty: bool)
        ensures
            empty == (self@.query_stack.len() == 0),
    {
        self.query_stack.len() == 0
    }

    /// The queries that the thread is evaluating, the innermost last.
    pub fn query_stack(&self) -> (stack: &Vec<DatabaseKeyIndex>)
        ensures
            stack@ == self@.query_stack,
    {
        &self.query_stack
    }

    pub fn push_query(&mut self, key: DatabaseKeyIndex)
        ensures
            final(self)@ == (LocalView {
                query_stack: old(self)@.query_stack.push(key),
                ..old(self)@
            }),
    {
        self.query_stack.push(key);
    }

    pub fn pop_query(&mut self) -> (key: Option<DatabaseKeyIndex>)
        ensures
            old(self)@.query_stack.len() == 0 ==> key is None && final(self)@ == old(self)@,
            old(self)@.query_stack.len() > 0 ==> key == Some(old(self)@.query_stack.last())
                && final(self)@ == (LocalView {
                query_stack: old(self)@.query_stack.drop_last(),
                ..old(self)@
            }),
    {
        self.query_stack.pop()
    }

    pub fn current_cycle_group(&self) -> (root: Option<DatabaseKeyIndex>)
        ensures
            root == self@.current_cycle_group,
    {
        self.current_cycle_group
    }

    pub fn set_current_cycle_group(&mut self, root: Option<DatabaseKeyIndex>)
        ensures
            final(self)@ == (LocalView { current_cycle_group: root, ..old(self)@ }),
    {
        self.current_cycle_group = root;
    }

    /// The thread starts to unwind out of all of its queries, to retry from the top level.
    pub fn begin_cycle_backout(&mut self)
        ensures
            final(self)@ == (LocalView { backing_out: true, ..old(self)@ }),
    {
        self.backing_out = true;
    }

    /// The thread has unwound out of all of its queries.
    pub fn end_cycle_backout(&mut self)
        ensures
            final(self)@ == (LocalView { backing_out: false, ..old(self)@ }),
    {
        self.backing_out = false;
    }

    /// Asks the execution on this thread to stop, or takes that back.
    pub fn request_cancellation(&mut self, requested: bool)
        ensures
            final(self)@ == (LocalView { cancellation_requested: requested, ..old(self)@ }),
    {
        self.cancellation_requested = requested;
    }

    /// Puts requests to stop off, or lets them through again. Returns how it was before.
    pub fn defer_cancellation(&mut self, deferred: bool) -> (before: bool)
        ensures
            before == old(self)@.cancellation_deferred,
            final(self)@ == (LocalView { cancellation_deferred: deferred, ..old(self)@ }),
    {
        let before = self.cancellation_deferred;
        self.cancellation_deferred = deferred;
        before
    }

    /// Why a query must not be started, if anything speaks against it.
    pub fn cancellation(&self, revision_cancelled: bool) -> (cancelled: Option<Cancelled>)
        ensures
            cancelled == self@.cancellation(revision_cancelled),
    {
        if self.cancellation_requested && !self.cancellation_deferred {
            Some(Cancelled::Local)
        } else if revision_cancelled {
            Some(Cancelled::PendingWrite)
        } else {
            None
        }
    }

    /// What the waiters of a query are told when the thread gives up its claim of it. A thread
    /// that was cancelled, or that backs out, lets them retry. A panic is passed on.
    pub fn release_result(&self, unwinding: bool) -> (result: WaitResult)
        ensures
            result == self@.release_result(unwinding),
    {
        if !unwinding {
            WaitResult::Completed
        } else if self.cancellation_requested || self.backing_out {
            WaitResult::Cancelled
        } else {
            WaitResult::Panicked
        }
    }
}

} // verus!
