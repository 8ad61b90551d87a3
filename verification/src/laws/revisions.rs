//! Revisions, cancellation, and what is known of a memo.
use vstd::prelude::*;

use crate::cancelled::{Cancelled, Caught, Payload};
use crate::dependency_graph::WaitResult;
use crate::key::DatabaseKeyIndex;
use crate::local::LocalView;
use crate::memo::{InputAccumulatedValues, IterationStamp, MemoView, ShallowUpdate};
use crate::revision::{Durability, Revision};
use crate::runtime::{BlockOutcome, Running, Runtime, RuntimeView, Stamp};

verus! {

/// Durabilities are told apart by their position, the positions grow with the durability, and all
/// durabilities but the last one have a revision of their own.
pub proof fn law_durabilities_are_ordered(d: Durability, e: Durability)
    ensures
        Durability::LEN == 3,
        Durability::Low.position() < Durability::Medium.position(),
        Durability::Medium.position() < Durability::High.position(),
        Durability::High.position() < Durability::NeverChange.position(),
        d.position() < 3 <==> !(d is NeverChange),
        d.position() == e.position() ==> d == e,
        Durability::LOW is Low,
        Durability::MEDIUM is Medium,
        Durability::HIGH is High,
        Durability::NEVER_CHANGE is NeverChange,
{
}

/// Revisions are counted upwards, from one.
pub proof fn law_revisions_count_upwards(r: Revision)
    ensures
        Revision::spec_start().generation == 1,
        r.has_next() <==> r.generation < usize::MAX,
        r.has_next() ==> r.spec_next().generation == r.generation + 1,
{
}

/// Advancing the revision moves the current revision on by one, forgets that anything was
/// cancelled, and leaves everything else as it was: above all, when values of every other
/// durability last changed.
pub proof fn law_new_revision_advances_current_only<T>(view: RuntimeView<T>, i: int)
    requires
        view.wf(),
        view.revisions[0].generation < usize::MAX,
        0 < i < 3,
    ensures
        ({
            let after = view.new_revision();
            &&& after.revisions.len() == 3
            &&& after.revisions[0].generation == view.revisions[0].generation + 1
            &&& after.revisions[i] == view.revisions[i]
            &&& after.cancellation_count == 0
            &&& !after.revision_cancelled
            &&& after.cycle_groups == view.cycle_groups
            &&& after.dependency_graph == view.dependency_graph
            &&& after.table == view.table
        }),
{
}

/// Advancing the revision leaves the revision in which values last changed as it was, for every
/// durability but the lowest.
pub proof fn law_new_revision_keeps_last_changes<T>(view: RuntimeView<T>, d: Durability)
    requires
        view.wf(),
        !(d is Low),
    ensures
        view.new_revision().last_changed_revision(d) == view.last_changed_revision(d),
{
}

/// A write is recorded for every durability up to its own, at the current revision, and nothing
/// else changes.
pub proof fn law_write_is_recorded<T>(view: RuntimeView<T>, durability: Durability)
    requires
        view.wf(),
        !(durability is NeverChange),
    ensures
        ({
            let (before, after) = (view.revisions, view.report_tracked_write(durability).revisions);
            &&& after.len() == 3
            &&& after[0] == before[0]
            &&& after[1] == if durability is Low {
                before[1]
            } else {
                before[0]
            }
            &&& after[2] == if durability is High {
                before[0]
            } else {
                before[2]
            }
        }),
        view.report_tracked_write(durability).revision_cancelled == view.revision_cancelled,
        view.report_tracked_write(durability).cancellation_count == view.cancellation_count,
        view.report_tracked_write(durability).cycle_groups == view.cycle_groups,
        view.report_tracked_write(durability).dependency_graph == view.dependency_graph,
        view.report_tracked_write(durability).table == view.table,
{
}

/// A write is seen by whoever asks when values of its durability last changed, in the revision it
/// was made in and after the next revisions, until the next write.
pub proof fn law_write_is_remembered<T>(view: RuntimeView<T>, durability: Durability, d: Durability)
    requires
        view.wf(),
        !(durability is NeverChange),
        !(d is Low),
        d.position() <= durability.position(),
    ensures
        view.report_tracked_write(durability).new_revision().last_changed_revision(d)
            == view.revisions[0],
        view.report_tracked_write(
            durability,
        ).new_revision().new_revision().last_changed_revision(d) == view.revisions[0],
{
}

/// The current revision is the one in which values of the lowest durability last changed; values
/// that never change did so in the first one.
pub proof fn law_last_changes<T>(view: RuntimeView<T>)
    requires
        view.wf(),
    ensures
        view.current_revision() == view.revisions[0],
        view.last_changed_revision(Durability::Low) == view.revisions[0],
        view.last_changed_revision(Durability::Medium) == view.revisions[1],
        view.last_changed_revision(Durability::High) == view.revisions[2],
        view.last_changed_revision(Durability::NeverChange).generation == 1,
{
}

/// Bumping the cancellation count adds one, as long as it can, and changes nothing else.
pub proof fn law_bump_adds_one<T>(view: RuntimeView<T>)
    ensures
        view.cancellation_count < 255 ==> view.bump_cancellation_count().cancellation_count
            == view.cancellation_count + 1,
        view.cancellation_count == 255 ==> view.bump_cancellation_count().cancellation_count == 255,
        view.bump_cancellation_count().revision_cancelled == view.revision_cancelled,
        view.bump_cancellation_count().revisions == view.revisions,
        view.bump_cancellation_count().cycle_groups == view.cycle_groups,
        view.bump_cancellation_count().dependency_graph == view.dependency_graph,
        view.bump_cancellation_count().table == view.table,
{
}

/// A query is not started exactly where the thread was asked to stop and that is not put off, or
/// where a write is pending. The request of the thread comes first.
pub proof fn law_what_keeps_a_query_from_starting(local: LocalView, revision_cancelled: bool)
    ensures
        local.cancellation(revision_cancelled) == Some(Cancelled::Local) <==> (
        local.cancellation_requested && !local.cancellation_deferred),
        local.cancellation(revision_cancelled) == Some(Cancelled::PendingWrite) <==> (
        revision_cancelled && (local.cancellation_requested ==> local.cancellation_deferred)),
        local.cancellation(revision_cancelled) is None <==> (!revision_cancelled && (
        local.cancellation_requested ==> local.cancellation_deferred)),
{
}

/// A thread that gives a claim up passes a panic on exactly where it unwinds without having been
/// cancelled and without backing out. Where it does not unwind, the query was completed.
pub proof fn law_what_waiters_are_told(local: LocalView, unwinding: bool)
    ensures
        local.release_result(unwinding) == WaitResult::Completed <==> !unwinding,
        local.release_result(unwinding) == WaitResult::Panicked <==> (unwinding
            && !local.cancellation_requested && !local.backing_out),
        local.release_result(unwinding) == WaitResult::Cancelled <==> (unwinding && (
        local.cancellation_requested || local.backing_out)),
{
}

/// A thread starts with an empty query stack, in no group, and undisturbed.
pub proof fn law_threads_start_undisturbed()
    ensures
        LocalView::empty().query_stack.len() == 0,
        LocalView::empty().current_cycle_group is None,
        !LocalView::empty().cancellation_requested,
        !LocalView::empty().cancellation_deferred,
        !LocalView::empty().backing_out,
{
}

/// What a woken thread goes on with is settled by what it was woken with, whoever it waited for:
/// only a panic of the other thread unwinds it.
pub proof fn law_woken_threads_go_on(
    running: Running,
    result: WaitResult,
    outcome: Result<BlockOutcome, Cancelled>,
)
    requires
        call_ensures(Running::block_on, (running, result), outcome),
    ensures
        outcome is Err <==> result is Panicked,
        outcome matches Err(cancelled) ==> cancelled == Cancelled::PropagatedPanic,
        outcome == Ok::<BlockOutcome, Cancelled>(BlockOutcome::Completed) <==> result is Completed,
        outcome == Ok::<BlockOutcome, Cancelled>(BlockOutcome::Cancelled) <==> result is Cancelled,
        outcome == Ok::<BlockOutcome, Cancelled>(BlockOutcome::BackOut) <==> result is BackOut,
{
}

/// Catching lets a value through, stops every cancellation with its own reason, and passes every
/// panic on with its own payload.
pub proof fn law_catch_stops_cancellations_only<T, P>(
    value: T,
    cancelled: Cancelled,
    payload: P,
    of_value: Caught<T, P>,
    of_cancelled: Caught<T, P>,
    of_payload: Caught<T, P>,
)
    requires
        call_ensures(Cancelled::catch::<T, P>, (Ok(value),), of_value),
        call_ensures(
            Cancelled::catch::<T, P>,
            (Err(Payload::Cancelled(cancelled)),),
            of_cancelled,
        ),
        call_ensures(Cancelled::catch::<T, P>, (Err(Payload::Panic(payload)),), of_payload),
    ensures
        of_value matches Caught::Returned(Ok(returned)) && returned == value,
        of_cancelled matches Caught::Returned(Err(caught)) && caught == cancelled,
        of_payload matches Caught::Resume(resumed) && resumed == payload,
{
}

/// The number of the revision in which something of the durability of `memo` last changed.
pub open spec fn last_change_under<V>(memo: MemoView<V>, revisions: Seq<Revision>) -> int {
    match memo.durability {
        Durability::Low => revisions[0].generation as int,
        Durability::Medium => revisions[1].generation as int,
        Durability::High => revisions[2].generation as int,
        Durability::NeverChange => 1,
    }
}

/// A memo is known to be valid exactly where it was found to be valid in the current revision, or
/// not before something as durable last changed. Nothing else of the memo, or of the runtime,
/// counts.
pub proof fn law_memo_is_valid_until_a_change<T, V>(memo: MemoView<V>, runtime: RuntimeView<T>)
    requires
        runtime.wf(),
    ensures
        memo.shallow_verify(runtime) == ShallowUpdate::Verified <==> memo.verified_at
            == runtime.revisions[0],
        memo.shallow_verify(runtime) == ShallowUpdate::No <==> (memo.verified_at
            != runtime.revisions[0] && last_change_under(memo, runtime.revisions)
            > memo.verified_at.generation),
{
}

/// A memo that was valid is no longer known to be valid after a write in the next revision exactly
/// where it is no more durable than what was written, or of the lowest durability.
pub proof fn law_memo_outlives_less_durable_writes<T, V>(
    memo: MemoView<V>,
    runtime: RuntimeView<T>,
    durability: Durability,
)
    requires
        runtime.wf(),
        runtime.declining(),
        runtime.revisions[0].generation < usize::MAX,
        memo.verified_at == runtime.revisions[0],
        !(durability is NeverChange),
    ensures
        memo.shallow_verify(runtime.new_revision().report_tracked_write(durability))
            == ShallowUpdate::No <==> (memo.durability.position() <= durability.position()
            || memo.durability is Low),
{
}

/// The reader of a provisional value depends on all of its cycle heads, that of a final one on
/// none.
pub proof fn law_readers_depend_on_heads_of_provisional_values<V>(memo: MemoView<V>)
    ensures
        memo.may_be_provisional ==> memo.heads() == memo.cycle_heads,
        !memo.may_be_provisional ==> memo.heads().len() == 0,
{
}

/// The memo that a cycle iteration starts with holds the value that it is given, for the revision
/// and the iteration that it is given. It is provisional, with the query as its only head, and
/// depends on nothing else.
pub proof fn law_initial_memo<V>(
    value: V,
    verified_at: Revision,
    key: DatabaseKeyIndex,
    iteration: IterationStamp,
)
    ensures
        ({
            let memo = MemoView::fixpoint_initial(value, verified_at, key, iteration);
            &&& memo.value == Some(value)
            &&& memo.verified_at == verified_at
            &&& memo.may_be_provisional
            &&& memo.iteration == iteration
            &&& memo.cycle_heads.len() == 1
            &&& memo.cycle_heads[0] == key
            &&& memo.changed_at.generation == 1
            &&& memo.durability is NeverChange
            &&& !memo.accumulated
            &&& memo.accumulated_inputs == InputAccumulatedValues::Empty
        }),
{
}

/// The first iteration has the number zero.
pub proof fn law_iterations_start_at_zero(cancellation_count: u8)
    ensures
        IterationStamp::spec_initial(cancellation_count).iteration == 0,
        IterationStamp::spec_initial(cancellation_count).cancellation_count == cancellation_count,
{
}

/// The reason that a cancellation is shown with depends on its kind only.
pub proof fn law_reasons_follow_the_kind(key: DatabaseKeyIndex)
    ensures
        (Cancelled::CycleCanonicalize { canonical: key }).spec_why()
            == "canonical cycle re-evaluation"@,
        Cancelled::Local.spec_why() == "local cancellation request"@,
        Cancelled::PendingWrite.spec_why() == "pending write"@,
        Cancelled::PropagatedPanic.spec_why() == "propagated panic"@,
        Cancelled::CycleLoser.spec_why() == "losing a cross-thread cycle race"@,
{
}

/// A cancellation is shown as the same prefix followed by its reason.
pub proof fn law_messages_are_prefix_and_reason(cancelled: &Cancelled, message: String)
    requires
        call_ensures(Cancelled::message, (cancelled,), message),
    ensures
        message@ == "cancelled because of "@ + cancelled.spec_why(),
{
}

/// A stamp holds the revision and the durability that it is made of.
pub proof fn law_stamps_hold_what_they_are_made_of(
    revision: Revision,
    durability: Durability,
    stamp: Stamp,
)
    requires
        call_ensures(crate::runtime::stamp, (revision, durability), stamp),
    ensures
        stamp.changed_at == revision,
        stamp.durability == durability,
{
}

/// What a runtime answers is what it holds.
pub proof fn law_runtime_answers<T>(
    runtime: &Runtime<T>,
    current: Revision,
    d: Durability,
    changed: Revision,
    cancelled: bool,
    count: u8,
)
    requires
        call_ensures(Runtime::<T>::current_revision, (runtime,), current),
        call_ensures(Runtime::<T>::last_changed_revision, (runtime, d), changed),
        call_ensures(Runtime::<T>::load_cancellation_flag, (runtime,), cancelled),
        call_ensures(Runtime::<T>::cancellation_count, (runtime,), count),
        runtime@.wf(),
    ensures
        current == runtime@.revisions[0],
        d is Low ==> changed == runtime@.revisions[0],
        d is Medium ==> changed == runtime@.revisions[1],
        d is High ==> changed == runtime@.revisions[2],
        d is NeverChange ==> changed.generation == 1,
        cancelled == runtime@.revision_cancelled,
        count == runtime@.cancellation_count,
{
}

} // verus!
