//! Why the evaluation of a query was cancelled.
use vstd::prelude::*;

use crate::key::DatabaseKeyIndex;

verus! {

/// What a query unwinds with when its execution was cancelled.
#[derive(Clone, Copy, Debug, PartialEq, Eq, Structural)]
#[non_exhaustive]
pub enum Cancelled {
    /// The query was operating but the local database execution has been cancelled.
    Local,
    /// The query was operating on revision R, but there is a pending write to move to
    /// revision R+1.
    PendingWrite,
    /// The query was blocked on another thread, and that thread panicked.
    PropagatedPanic,
    /// The query attempted to claim a query on another thread and that would have formed a
    /// cross-thread cycle. To keep fixpoint iteration deterministic, the requesting side
    /// backs out entirely (releasing all of its claims) and retries from the top level once
    /// the winning thread has finalized the cycle.
    CycleLoser,
    /// A cycle group converged, but this evaluation did not enter the strongly connected
    /// component at its canonical (minimum) member, so the converged values could depend on
    /// which query happened to close the cycle first. The owner backs out, the group's
    /// provisional state is discarded, and the component is evaluated again, detached, from
    /// `canonical`.
    CycleCanonicalize {
        /// The canonical entry: the group's minimum member key.
        canonical: DatabaseKeyIndex,
    },
}

/// What a computation unwound with: a cancellation, or anything else.
#[derive(Debug, PartialEq, Eq)]
pub enum Payload<P> {
    Cancelled(Cancelled),
    Panic(P),
}

/// What becomes of a computation whose cancellations are caught.
#[derive(Debug, PartialEq, Eq)]
pub enum Caught<T, P> {
    /// The computation returned, or was cancelled.
    Returned(Result<T, Cancelled>),
    /// The computation panicked: unwinding goes on with its own payload.
    Resume(P),
}

impl Cancelled {
    pub open spec fn spec_why(self) -> Seq<char> {
        match self {
            Cancelled::Local => "local cancellation request"@,
            Cancelled::PendingWrite => "pending write"@,
            Cancelled::PropagatedPanic => "propagated panic"@,
            Cancelled::CycleLoser => "losing a cross-thread cycle race"@,
            Cancelled::CycleCanonicalize { .. } => "canonical cycle re-evaluation"@,
        }
    }

    /// The reason, in words.
    pub fn why(&self) -> (why: &'static str)
        ensures
            why@ == self.spec_why(),
    {
        match self {
            Cancelled::Local => "local cancellation request",
            Cancelled::PendingWrite => "pending write",
            Cancelled::PropagatedPanic => "propagated panic",
            Cancelled::CycleLoser => "losing a cross-thread cycle race",
            Cancelled::CycleCanonicalize { .. } => "canonical cycle re-evaluation",
        }
    }

    /// The message that the cancellation is shown with.
    pub fn message(&self) -> (message: String)
        ensures
            message@ == "cancelled because of "@ + self.spec_why(),
    {
        let mut message = String::from_str("cancelled because of ");
        message.append(self.why());
        message
    }

    /// Catches any cancellation of a computation that ended with `run`: its value, or what it
    /// unwound with.
    pub fn catch<T, P>(run: Result<T, Payload<P>>) -> (caught: Caught<T, P>)
        ensures
            caught == (match run {
                Ok(value) => Caught::Returned(Ok(value)),
                Err(Payload::Cancelled(cancelled)) => Caught::Returned(Err(cancelled)),
                Err(Payload::Panic(payload)) => Caught::Resume(payload),
            }),
    {
        match run {
            Ok(value) => Caught::Returned(Ok(value)),
            Err(Payload::Cancelled(cancelled)) => Caught::Returned(Err(cancelled)),
            Err(Payload::Panic(payload)) => Caught::Resume(payload),
        }
    }
}

} // verus!
