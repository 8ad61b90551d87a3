use salsa_runtime::cancelled::{Cancelled, Payload};
use salsa_runtime::dependency_graph::WaitResult;
use salsa_runtime::fetch::{
    cycle_loser_unwind, Action, ClaimResult, CycleRecoveryStrategy, Event, Fetch, IngredientImpl,
    Phase, Step, TrackedRead, WaitForResult,
};
use salsa_runtime::key::{DatabaseKeyIndex, Id, IngredientIndex, ThreadId};
use salsa_runtime::local::ZalsaLocal;
use salsa_runtime::memo::{
    CycleHeads, InputAccumulatedValues, IterationStamp, Memo, MemoHeader, MemoTable,
    QueryRevisions, ShallowUpdate,
};
use salsa_runtime::revision::{Durability, Revision};
use salsa_runtime::runtime::{BlockResult, Running, Runtime};

type Shared = Runtime<MemoTable<u32>>;
type Next = Action<String>;

const ME: ThreadId = ThreadId { number: 1 };
const OTHER: ThreadId = ThreadId { number: 2 };

fn query() -> IngredientImpl {
    IngredientImpl {
        index: IngredientIndex::new(4),
        cycle_strategy: CycleRecoveryStrategy::Fixpoint,
    }
}

fn id(n: u64) -> Id {
    Id::from_bits(n)
}

fn key(n: u64) -> DatabaseKeyIndex {
    query().database_key_index(id(n))
}

fn memo(value: Option<u32>, verified_at: Revision) -> Memo<u32> {
    Memo {
        value,
        header: MemoHeader {
            verified_at,
            may_be_provisional: false,
            revisions: QueryRevisions {
                changed_at: Revision::start(),
                durability: Durability::LOW,
                iteration: IterationStamp::initial(0),
                cycle_heads: CycleHeads::from_heads(vec![]),
                accumulated: false,
                accumulated_inputs: InputAccumulatedValues::Empty,
            },
        },
    }
}

fn provisional(value: u32, verified_at: Revision, heads: Vec<DatabaseKeyIndex>) -> Memo<u32> {
    let mut memo = memo(Some(value), verified_at);
    memo.header.may_be_provisional = true;
    memo.header.revisions.cycle_heads = CycleHeads::from_heads(heads);
    memo
}

fn start(runtime: &mut Shared, local: &ZalsaLocal, n: u64) -> (Fetch, Next) {
    query().fetch(runtime, local, ME, id(n))
}

fn claim(
    runtime: &mut Shared,
    local: &mut ZalsaLocal,
    n: u64,
    claim: ClaimResult,
) -> (Fetch, Next) {
    let (mut fetch, action) = start(runtime, local, n);
    assert_eq!(action, Action::Claim);
    let action = fetch.step(runtime, local, Event::Claim(claim));
    (fetch, action)
}

fn value(runtime: &Shared, n: u64) -> Option<u32> {
    runtime.table().get(key(n)).and_then(|memo| memo.value)
}

#[test]
fn hot_values_are_returned_without_a_claim() {
    let mut runtime = Shared::default();
    let local = ZalsaLocal::default();
    runtime.table_mut().insert_memo(key(1), memo(Some(11), Revision::start()));
    let (fetch, action) = start(&mut runtime, &local, 1);
    assert_eq!(action, Action::Return);
    assert_eq!(fetch.phase, Phase::Finished);
    assert_eq!(*fetch.value(&runtime), 11);
    assert_eq!(
        fetch.tracked_read(&runtime),
        TrackedRead {
            key: key(1),
            durability: Durability::LOW,
            changed_at: Revision::start(),
            cycle_heads: vec![],
            has_accumulated: false,
            accumulated_inputs: InputAccumulatedValues::Empty,
        }
    );
}

#[test]
fn durable_values_are_hot_in_later_revisions() {
    let mut runtime = Shared::default();
    let local = ZalsaLocal::default();
    let mut durable = memo(Some(5), Revision::start());
    durable.header.revisions.durability = Durability::HIGH;
    assert_eq!(durable.shallow_verify(&runtime), ShallowUpdate::Verified);
    let second = runtime.new_revision();
    assert_eq!(durable.shallow_verify(&runtime), ShallowUpdate::HigherDurability);
    runtime.table_mut().insert_memo(key(1), durable);
    assert_eq!(start(&mut runtime, &local, 1).1, Action::Return);
    assert_eq!(runtime.table().get(key(1)).unwrap().header.verified_at, second);

    // Once something as durable changes, the value has to be verified.
    runtime.new_revision();
    runtime.report_tracked_write(Durability::HIGH);
    let stale = runtime.table().get(key(1)).unwrap();
    assert_eq!(stale.shallow_verify(&runtime), ShallowUpdate::No);
    assert_eq!(start(&mut runtime, &local, 1).1, Action::Claim);
}

#[test]
fn absent_evicted_and_provisional_values_are_cold() {
    let mut runtime = Shared::default();
    assert!(!query().fetch_hot(&mut runtime, id(1)));
    runtime.table_mut().insert_memo(key(1), memo(None, Revision::start()));
    assert!(!query().fetch_hot(&mut runtime, id(1)));
    runtime
        .table_mut()
        .insert_memo(key(1), provisional(3, Revision::start(), vec![key(1)]));
    assert!(!query().fetch_hot(&mut runtime, id(1)));
}

#[test]
fn cancelled_threads_start_nothing() {
    let mut runtime = Shared::default();
    let mut local = ZalsaLocal::default();
    runtime.set_cancellation_flag();
    assert_eq!(start(&mut runtime, &local, 1).1, Action::Throw(Cancelled::PendingWrite));
    local.request_cancellation(true);
    assert_eq!(start(&mut runtime, &local, 1).1, Action::Throw(Cancelled::Local));
    runtime.reset_cancellation_flag();
    assert!(!local.defer_cancellation(true));
    assert_eq!(start(&mut runtime, &local, 1).1, Action::Claim);
}

#[test]
fn claimed_queries_are_verified_or_executed() {
    let mut runtime = Shared::default();
    let mut local = ZalsaLocal::default();
    let (mut fetch, action) = claim(&mut runtime, &mut local, 1, ClaimResult::Claimed);
    assert_eq!(action, Action::Execute);
    // The evaluation made no memo: look again.
    let action: Next = fetch.step(&mut runtime, &mut local, Event::Executed(false));
    assert_eq!(action, Action::Claim);
    fetch.step(&mut runtime, &mut local, Event::<u32, String>::Claim(ClaimResult::Claimed));
    runtime.table_mut().insert_memo(key(1), memo(Some(7), Revision::start()));
    let action: Next = fetch.step(&mut runtime, &mut local, Event::Executed(true));
    assert_eq!(action, Action::Return);
    assert_eq!(*fetch.value(&runtime), 7);

    runtime.new_revision();
    let (fetch, action) = claim(&mut runtime, &mut local, 1, ClaimResult::Claimed);
    assert_eq!(action, Action::VerifyMemo);
    let mut valid = fetch;
    let action: Next = valid.step(&mut runtime, &mut local, Event::Verified(true));
    assert_eq!(action, Action::Return);
    let mut invalid = fetch;
    let action: Next = invalid.step(&mut runtime, &mut local, Event::Verified(false));
    assert_eq!(action, Action::Execute);
}

#[test]
fn running_queries_are_waited_for() {
    let mut runtime = Shared::default();
    let running = match runtime.block(ME, key(1), OTHER) {
        BlockResult::Running(running) => running,
        _ => panic!("nothing waits"),
    };
    for (result, expected) in [
        (WaitResult::Completed, Action::Claim),
        (WaitResult::Cancelled, Action::Claim),
        (WaitResult::Panicked, Action::Throw(Cancelled::PropagatedPanic)),
        (WaitResult::BackOut, Action::Yield),
    ] {
        let mut local = ZalsaLocal::default();
        let (mut fetch, action) =
            claim(&mut runtime, &mut local, 1, ClaimResult::Running(running));
        assert_eq!(action, Action::BlockOn(running));
        let action: Next = fetch.step(&mut runtime, &mut local, Event::Waited(result));
        assert_eq!(action, expected);
        assert_eq!(local.release_result(true), WaitResult::Panicked);
    }
}

#[test]
fn nested_losers_unwind_and_let_waiters_retry() {
    let mut runtime = Shared::default();
    let mut local = ZalsaLocal::default();
    local.push_query(key(9));
    let running = Running { database_key: key(1), other_id: OTHER, thread_id: ME };
    let (mut fetch, _) = claim(&mut runtime, &mut local, 1, ClaimResult::Running(running));
    assert!(!fetch.top_level);
    let action: Next = fetch.step(&mut runtime, &mut local, Event::Waited(WaitResult::BackOut));
    assert_eq!(action, Action::Throw(Cancelled::CycleLoser));
    assert_eq!(local.release_result(true), WaitResult::Cancelled);
    assert_eq!(local.release_result(false), WaitResult::Completed);
    assert_eq!(local.query_stack(), &vec![key(9)]);
    assert_eq!(local.pop_query(), Some(key(9)));
    assert_eq!(local.pop_query(), None);
}

#[test]
fn losing_marks_the_thread() {
    let mut local = ZalsaLocal::default();
    assert_eq!(local.release_result(true), WaitResult::Panicked);
    assert_eq!(cycle_loser_unwind(&mut local), Cancelled::CycleLoser);
    assert_eq!(local.release_result(true), WaitResult::Cancelled);
    local.end_cycle_backout();
    assert_eq!(local.release_result(true), WaitResult::Panicked);
}

#[test]
fn provisional_state_of_other_threads_is_not_touched() {
    let mut runtime = Shared::default();
    let mut local = ZalsaLocal::default();
    runtime.cycle_groups_mut().register(key(8), OTHER);
    runtime.cycle_groups_mut().add_member(key(8), key(1), vec![key(8)]);
    runtime
        .table_mut()
        .insert_memo(key(1), provisional(3, Revision::start(), vec![key(8)]));
    let (parked, action) = claim(&mut runtime, &mut local, 1, ClaimResult::Claimed);
    assert_eq!(action, Action::ReleaseAndProbe { root: key(8) });

    let running = Running { database_key: key(8), other_id: OTHER, thread_id: ME };
    for (probe, expected) in [
        (WaitForResult::Running(running), Action::BlockOn(running)),
        (WaitForResult::Available, Action::Yield),
        (WaitForResult::Cycle, Action::Yield),
    ] {
        let mut fetch = parked;
        let action: Next = fetch.step(&mut runtime, &mut local, Event::Probed(probe));
        assert_eq!(action, expected);
    }
    let mut nested = parked;
    nested.top_level = false;
    let action: Next = nested.step(&mut runtime, &mut local, Event::Probed(WaitForResult::Cycle));
    assert_eq!(action, Action::Throw(Cancelled::CycleLoser));
}

#[test]
fn leftovers_of_a_panic_are_verified() {
    let mut runtime = Shared::default();
    let mut local = ZalsaLocal::default();
    runtime
        .table_mut()
        .insert_memo(key(1), provisional(3, Revision::start(), vec![key(8)]));
    let (_, action) = claim(&mut runtime, &mut local, 1, ClaimResult::Claimed);
    assert_eq!(action, Action::VerifyMemo);
}

#[test]
fn cross_thread_cycles_have_a_winner_and_a_loser() {
    let mut runtime = Shared::default();
    let mut local = ZalsaLocal::default();
    // The other thread waits for a query of this one.
    match runtime.block(OTHER, key(5), ME) {
        BlockResult::Running(running) => running.register(&mut runtime),
        _ => panic!("nothing waits"),
    }
    let cycle = ClaimResult::Cycle { same_thread: false, owner: OTHER };

    // Without a group this thread backs out, and retries from the top level.
    let (mut fetch, action) = claim(&mut runtime, &mut local, 1, cycle);
    assert_eq!(action, Action::Yield);
    assert_eq!(fetch.phase, Phase::Yielding);
    assert!(!runtime.is_running(OTHER));
    let action: Next = fetch.step(&mut runtime, &mut local, Event::Yielded);
    assert_eq!(action, Action::Claim);

    // Evaluating a group, it makes the other side back out.
    runtime.cycle_groups_mut().register(key(3), ME);
    local.set_current_cycle_group(Some(key(3)));
    let step = query().fetch_cold(&mut runtime, &mut local, ME, id(1), cycle);
    assert_eq!(step, Step::Yield);
    assert_eq!(runtime.take_wait_result(OTHER), Some(WaitResult::BackOut));
    assert!(runtime.is_running(OTHER));
}

#[test]
fn queries_not_made_for_cycles_panic() {
    let mut runtime = Shared::default();
    let mut local = ZalsaLocal::default();
    let strict = IngredientImpl { cycle_strategy: CycleRecoveryStrategy::Panic, ..query() };
    let cycle = ClaimResult::Cycle { same_thread: true, owner: ME };
    let step = strict.fetch_cold(&mut runtime, &mut local, ME, id(1), cycle);
    assert_eq!(step, Step::Panic);
    assert_eq!(local.current_cycle_group(), None);
    assert!(runtime.cycle_groups().group_of(key(1)).is_none());

    let (mut fetch, _): (Fetch, Next) = strict.fetch(&mut runtime, &local, ME, id(1));
    let action: Next = fetch.step(&mut runtime, &mut local, Event::Claim(cycle));
    assert_eq!(action, Action::PanicOnCycle);
    let payload = Payload::Panic("cycle".to_string());
    let action = fetch.step(&mut runtime, &mut local, Event::Unwound(payload));
    assert_eq!(action, Action::Resume("cycle".to_string()));
}

#[test]
fn first_cycle_forms_a_group_with_an_initial_value() {
    let mut runtime = Shared::default();
    let mut local = ZalsaLocal::default();
    runtime.bump_cancellation_count();
    local.push_query(key(1));
    let cycle = ClaimResult::Cycle { same_thread: true, owner: ME };
    let (mut fetch, action) = claim(&mut runtime, &mut local, 1, cycle);
    assert_eq!(action, Action::ComputeInitial);
    let iteration = IterationStamp { iteration: 0, cancellation_count: 1 };
    assert_eq!(fetch.phase, Phase::Initial { iteration });
    assert_eq!(local.current_cycle_group(), Some(key(1)));
    assert_eq!(runtime.cycle_groups().group_of(key(1)).unwrap().owner, ME);
    assert_eq!(runtime.cycle_groups().members_of(key(1)), vec![key(1)]);

    let action: Next = fetch.step(&mut runtime, &mut local, Event::Initial(0));
    assert_eq!(action, Action::Return);
    assert_eq!(*fetch.value(&runtime), 0);
    assert_eq!(
        fetch.tracked_read(&runtime),
        TrackedRead {
            key: key(1),
            durability: Durability::NEVER_CHANGE,
            changed_at: Revision::start(),
            cycle_heads: vec![key(1)],
            has_accumulated: false,
            accumulated_inputs: InputAccumulatedValues::Empty,
        }
    );

    // Met again, the query gives the same provisional value.
    let (again, action) = claim(&mut runtime, &mut local, 1, cycle);
    assert_eq!(action, Action::Return);
    assert_eq!(*again.value(&runtime), 0);
}

#[test]
fn nested_cycles_join_the_group() {
    let mut runtime = Shared::default();
    let mut local = ZalsaLocal::default();
    query().fetch_cold_cycle(&mut runtime, &mut local, ME, id(1));
    query().fetch_cold_cycle(&mut runtime, &mut local, ME, id(2));
    assert_eq!(local.current_cycle_group(), Some(key(1)));
    assert_eq!(runtime.cycle_groups().group_of(key(2)).unwrap().root, key(1));
    assert_eq!(runtime.cycle_groups().component_of(key(1), key(2)), vec![key(2)]);
}

#[test]
fn a_covered_key_forms_no_group() {
    let mut runtime = Shared::default();
    let mut local = ZalsaLocal::default();
    runtime.cycle_groups_mut().register(key(1), OTHER);
    let step = query().fetch_cold_cycle(&mut runtime, &mut local, ME, id(1));
    assert_eq!(step, Step::Initial { iteration: IterationStamp::initial(0) });
    assert_eq!(local.current_cycle_group(), None);
    assert_eq!(runtime.cycle_groups().group_of(key(1)).unwrap().owner, OTHER);
}

#[test]
fn reuse_keeps_only_the_own_head() {
    let mut runtime = Shared::default();
    let mut local = ZalsaLocal::default();
    let heads = vec![key(2), key(1), key(3)];
    runtime.table_mut().insert_memo(key(1), provisional(6, Revision::start(), heads));
    let step = query().fetch_cold_cycle(&mut runtime, &mut local, ME, id(1));
    assert_eq!(step, Step::Return);
    let memo = runtime.table().get(key(1)).unwrap();
    assert_eq!(memo.value, Some(6));
    assert_eq!(memo.cycle_heads(), vec![key(1)]);
}

#[test]
fn only_current_provisional_values_count() {
    let iteration = IterationStamp { iteration: 4, cancellation_count: 0 };
    let mut not_a_head = provisional(6, Revision::start(), vec![key(2)]);
    not_a_head.header.revisions.iteration = iteration;
    let mut local = ZalsaLocal::default();
    let mut runtime = Shared::default();
    runtime.table_mut().insert_memo(key(1), not_a_head);
    // The iteration goes on, with a new initial value.
    let step = query().fetch_cold_cycle(&mut runtime, &mut local, ME, id(1));
    assert_eq!(step, Step::Initial { iteration });
    // After a cancellation it starts anew.
    runtime.bump_cancellation_count();
    let step = query().fetch_cold_cycle(&mut runtime, &mut local, ME, id(1));
    assert_eq!(step, Step::Initial { iteration: IterationStamp::initial(1) });
    // And so it does in a new revision.
    runtime.new_revision();
    let step = query().fetch_cold_cycle(&mut runtime, &mut local, ME, id(1));
    assert_eq!(step, Step::Initial { iteration: IterationStamp::initial(0) });
}

#[test]
fn unwinding_discards_the_group() {
    let mut runtime = Shared::default();
    let mut local = ZalsaLocal::default();
    let (mut fetch, action) = claim(&mut runtime, &mut local, 1, ClaimResult::Claimed);
    assert_eq!(action, Action::Execute);
    // The evaluation met a cycle, and made provisional memos.
    query().fetch_cold_cycle(&mut runtime, &mut local, ME, id(1));
    runtime.cycle_groups_mut().add_member(key(1), key(2), vec![key(1)]);
    for n in 1..4 {
        let memo = provisional(n as u32, Revision::start(), vec![key(1)]);
        runtime.table_mut().insert_memo(key(n), memo);
    }
    let payload = Payload::Panic("boom".to_string());
    let action = fetch.step(&mut runtime, &mut local, Event::Unwound(payload));
    assert_eq!(action, Action::Resume("boom".to_string()));
    assert_eq!(value(&runtime, 1), None);
    assert_eq!(value(&runtime, 2), None);
    assert_eq!(value(&runtime, 3), Some(3));
    assert_eq!(local.current_cycle_group(), None);
    assert_eq!(runtime.cycle_groups().root_owned_by(ME), None);
    assert!(runtime.cycle_groups().group_of(key(2)).is_none());
}

#[test]
fn other_cancellations_leave_the_top_level() {
    let mut runtime = Shared::default();
    let mut local = ZalsaLocal::default();
    for cancelled in [Cancelled::Local, Cancelled::PendingWrite, Cancelled::PropagatedPanic] {
        let (mut fetch, _) = claim(&mut runtime, &mut local, 1, ClaimResult::Claimed);
        let unwound = Event::Unwound(Payload::Cancelled(cancelled));
        let action: Next = fetch.step(&mut runtime, &mut local, unwound);
        assert_eq!(action, Action::Throw(cancelled));
    }
}

#[test]
fn losers_retry_from_the_top_level() {
    let mut runtime = Shared::default();
    let mut local = ZalsaLocal::default();
    let (mut fetch, _) = claim(&mut runtime, &mut local, 1, ClaimResult::Claimed);
    local.begin_cycle_backout();
    let unwound = Event::Unwound(Payload::Cancelled(Cancelled::CycleLoser));
    let action: Next = fetch.step(&mut runtime, &mut local, unwound);
    assert_eq!(action, Action::Yield);
    assert_eq!(local.release_result(true), WaitResult::Panicked);
    let action: Next = fetch.step(&mut runtime, &mut local, Event::Yielded);
    assert_eq!(action, Action::Claim);
}

#[test]
fn canonical_entry_is_evaluated_before_the_retry() {
    let mut runtime = Shared::default();
    let mut local = ZalsaLocal::default();
    local.request_cancellation(true);
    local.defer_cancellation(true);
    let (mut fetch, _) = claim(&mut runtime, &mut local, 1, ClaimResult::Claimed);
    local.defer_cancellation(false);
    let canonical = key(0);
    let unwound = Event::Unwound(Payload::Cancelled(Cancelled::CycleCanonicalize { canonical }));
    let action: Next = fetch.step(&mut runtime, &mut local, unwound);
    assert_eq!(action, Action::FetchDetached { canonical });
    assert_eq!(local.cancellation(false), None);
    runtime.table_mut().insert_memo(key(1), memo(Some(2), Revision::start()));
    let action: Next = fetch.step(&mut runtime, &mut local, Event::Detached);
    assert_eq!(action, Action::Return);
    assert_eq!(local.cancellation(false), Some(Cancelled::Local));
}

#[test]
fn unwinding_out_of_the_canonical_entry_ends_the_deferral() {
    let mut runtime = Shared::default();
    let mut local = ZalsaLocal::default();
    let (mut fetch, _) = claim(&mut runtime, &mut local, 1, ClaimResult::Claimed);
    let canonical = key(0);
    let unwound = Event::Unwound(Payload::Cancelled(Cancelled::CycleCanonicalize { canonical }));
    let action: Next = fetch.step(&mut runtime, &mut local, unwound);
    assert_eq!(action, Action::FetchDetached { canonical });
    let unwound = Event::Unwound(Payload::Cancelled(Cancelled::Local));
    let action: Next = fetch.step(&mut runtime, &mut local, unwound);
    assert_eq!(action, Action::Throw(Cancelled::Local));
    assert!(!local.defer_cancellation(false));
}

#[test]
fn a_group_can_be_evaluated_beside_a_later_one() {
    let mut runtime = Shared::default();
    let mut local = ZalsaLocal::default();
    // The registry knows the thread for the group that it registered last.
    runtime.cycle_groups_mut().register(key(7), ME);
    runtime.cycle_groups_mut().register(key(8), ME);
    local.set_current_cycle_group(Some(key(7)));
    let step = query().fetch_cold_cycle(&mut runtime, &mut local, ME, id(1));
    assert_eq!(step, Step::Initial { iteration: IterationStamp::initial(0) });
    assert_eq!(runtime.cycle_groups().group_of(key(1)).unwrap().root, key(7));
    let (mut fetch, _) = claim(&mut runtime, &mut local, 2, ClaimResult::Claimed);
    let unwound = Event::Unwound(Payload::Cancelled(Cancelled::Local));
    let action: Next = fetch.step(&mut runtime, &mut local, unwound);
    assert_eq!(action, Action::Throw(Cancelled::Local));
    assert!(runtime.cycle_groups().group_of(key(1)).is_none());
    assert_eq!(runtime.cycle_groups().root_owned_by(ME), Some(key(8)));
}

#[test]
fn reads_tell_what_was_accumulated() {
    let local = ZalsaLocal::default();
    for (accumulated, inputs) in [
        (true, InputAccumulatedValues::Empty),
        (false, InputAccumulatedValues::Any),
        (true, InputAccumulatedValues::Any),
    ] {
        let mut runtime = Shared::default();
        let mut memo = memo(Some(1), Revision::start());
        memo.header.revisions.accumulated = accumulated;
        memo.header.revisions.accumulated_inputs = inputs;
        runtime.table_mut().insert_memo(key(1), memo);
        let (fetch, action) = start(&mut runtime, &local, 1);
        assert_eq!(action, Action::Return);
        let read = fetch.tracked_read(&runtime);
        assert_eq!(read.has_accumulated, accumulated);
        assert_eq!(read.accumulated_inputs, inputs);
    }
}
