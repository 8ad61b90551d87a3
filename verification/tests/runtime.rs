use salsa_runtime::dependency_graph::{SyncOwner, WaitResult};
use salsa_runtime::key::{DatabaseKeyIndex, Id, IngredientIndex, ThreadId};
use salsa_runtime::revision::{Durability, Revision};
use salsa_runtime::runtime::{
    stamp, BlockOnTransferredOwner, BlockOutcome, BlockResult, BlockTransferredResult, Running,
    Runtime, Stamp, WillBlockOn,
};
use salsa_runtime::cancelled::Cancelled;

fn key(n: u64) -> DatabaseKeyIndex {
    DatabaseKeyIndex::new(IngredientIndex::new(7), Id::from_bits(n))
}

fn thread(n: u64) -> ThreadId {
    ThreadId { number: n }
}

fn block(runtime: &mut Runtime<()>, from: u64, on: u64, to: u64) {
    match runtime.block(thread(from), key(on), thread(to)) {
        BlockResult::Running(running) => {
            assert!(runtime.is_running(thread(from)));
            running.register(runtime);
        }
        BlockResult::Cycle { .. } => panic!("unexpected cycle"),
    }
}

#[test]
fn cancellation_count_overflow_requires_revision_bump() {
    let mut runtime = Runtime::<()>::default();

    for _ in 0..u8::MAX {
        assert!(!runtime.bump_cancellation_count());
    }

    assert!(runtime.bump_cancellation_count());
    runtime.new_revision();

    assert_eq!(runtime.current_revision(), Revision::start().next());
    assert_eq!(runtime.cancellation_count(), 0);
}

#[test]
fn bumping_counts_upwards() {
    let mut runtime = Runtime::<()>::default();
    assert_eq!(runtime.cancellation_count(), 0);
    assert!(!runtime.bump_cancellation_count());
    assert!(!runtime.bump_cancellation_count());
    assert_eq!(runtime.cancellation_count(), 2);
    assert_eq!(runtime.current_revision(), Revision { generation: 1 });
}

#[test]
fn exhausted_count_stays() {
    let mut runtime = Runtime::<()>::default();
    for _ in 0..300 {
        runtime.bump_cancellation_count();
    }
    assert_eq!(runtime.cancellation_count(), 255);
}

#[test]
fn new_revision_clears_cancellation() {
    let mut runtime = Runtime::<()>::default();
    assert!(!runtime.load_cancellation_flag());
    runtime.set_cancellation_flag();
    assert!(runtime.load_cancellation_flag());
    assert_eq!(runtime.new_revision(), Revision { generation: 2 });
    assert!(!runtime.load_cancellation_flag());
    runtime.set_cancellation_flag();
    runtime.reset_cancellation_flag();
    assert!(!runtime.load_cancellation_flag());
}

#[test]
fn writes_change_less_durable_values() {
    let mut runtime = Runtime::<()>::default();
    let second = runtime.new_revision();
    runtime.report_tracked_write(Durability::MEDIUM);
    assert_eq!(runtime.last_changed_revision(Durability::LOW), second);
    assert_eq!(runtime.last_changed_revision(Durability::MEDIUM), second);
    assert_eq!(runtime.last_changed_revision(Durability::HIGH), Revision::start());
    assert_eq!(runtime.last_changed_revision(Durability::NEVER_CHANGE), Revision::start());

    let third = runtime.new_revision();
    runtime.report_tracked_write(Durability::LOW);
    assert_eq!(runtime.last_changed_revision(Durability::LOW), third);
    assert_eq!(runtime.last_changed_revision(Durability::MEDIUM), second);

    runtime.report_tracked_write(Durability::HIGH);
    assert_eq!(runtime.revisions(), [third, third, third]);
}

#[test]
fn stamps_hold_what_they_are_made_of() {
    assert_eq!(
        stamp(Revision { generation: 4 }, Durability::HIGH),
        Stamp { durability: Durability::HIGH, changed_at: Revision { generation: 4 } }
    );
}

#[test]
fn table_can_be_changed() {
    let mut runtime = Runtime::<Vec<u8>>::default();
    runtime.table_mut().push(9);
    assert_eq!(runtime.table(), &vec![9]);
}

#[test]
fn only_revisions_are_restored() {
    let mut restored = Runtime::with_revisions(
        [Revision { generation: 5 }, Revision { generation: 3 }, Revision { generation: 2 }],
        (),
    );
    restored.set_cancellation_flag();
    let mut runtime = Runtime::<()>::default();
    runtime.bump_cancellation_count();
    runtime.deserialize_from(&mut restored);
    assert_eq!(runtime.current_revision(), Revision { generation: 5 });
    assert_eq!(runtime.last_changed_revision(Durability::HIGH), Revision { generation: 2 });
    assert_eq!(runtime.cancellation_count(), 1);
    assert!(!runtime.load_cancellation_flag());
    assert!(restored.load_cancellation_flag());
}

#[test]
fn blocking_on_oneself_is_a_cycle() {
    let runtime = Runtime::<()>::default();
    assert_eq!(
        runtime.block(thread(1), key(1), thread(1)),
        BlockResult::Cycle { same_thread: true, owner: thread(1) }
    );
}

#[test]
fn blocking_across_threads_is_a_cycle() {
    let mut runtime = Runtime::<()>::default();
    block(&mut runtime, 1, 10, 2);
    block(&mut runtime, 2, 20, 3);
    assert_eq!(
        runtime.block(thread(3), key(30), thread(1)),
        BlockResult::Cycle { same_thread: false, owner: thread(1) }
    );
    assert_eq!(
        runtime.block(thread(3), key(30), thread(4)),
        BlockResult::Running(Running {
            database_key: key(30),
            other_id: thread(4),
            thread_id: thread(3),
        })
    );
}

#[test]
fn blocked_threads_get_the_result() {
    let mut runtime = Runtime::<()>::default();
    block(&mut runtime, 1, 10, 2);
    block(&mut runtime, 3, 11, 2);
    assert!(!runtime.is_running(thread(1)));
    assert_eq!(runtime.take_wait_result(thread(1)), None);

    runtime.unblock_queries_blocked_on(key(10), WaitResult::Cancelled);
    assert_eq!(runtime.take_wait_result(thread(1)), Some(WaitResult::Cancelled));
    assert_eq!(runtime.take_wait_result(thread(1)), None);
    assert!(runtime.is_running(thread(1)));
    assert!(!runtime.is_running(thread(3)));
    assert_eq!(runtime.take_wait_result(thread(3)), None);
}

#[test]
fn wait_results_become_outcomes() {
    let running = Running { database_key: key(1), other_id: thread(2), thread_id: thread(1) };
    assert_eq!(running.block_on(WaitResult::Completed), Ok(BlockOutcome::Completed));
    assert_eq!(running.block_on(WaitResult::Cancelled), Ok(BlockOutcome::Cancelled));
    assert_eq!(running.block_on(WaitResult::BackOut), Ok(BlockOutcome::BackOut));
    assert_eq!(running.block_on(WaitResult::Panicked), Err(Cancelled::PropagatedPanic));
    assert_eq!(
        running.event(),
        WillBlockOn { other_thread_id: thread(2), database_key: key(1) }
    );
}

#[test]
fn transferred_queries_belong_to_the_last_owner() {
    let mut runtime = Runtime::<()>::default();
    assert_eq!(
        runtime.block_transferred(key(1), thread(1)),
        BlockTransferredResult::Released
    );

    // Thread 1 hands the lock of query 1 to query 2, which thread 2 evaluates.
    assert!(runtime.transfer_lock(key(1), thread(1), key(2), SyncOwner::Thread(thread(2))));
    assert_eq!(
        runtime.block_transferred(key(1), thread(2)),
        BlockTransferredResult::ImTheOwner
    );
    assert_eq!(
        runtime.block_transferred(key(1), thread(3)),
        BlockTransferredResult::OwnedBy(Box::new(BlockOnTransferredOwner {
            database_key: key(1),
            other_id: thread(2),
            thread_id: thread(3),
        }))
    );

    // Query 2 is handed on to query 3, which thread 3 evaluates.
    assert!(runtime.transfer_lock(key(2), thread(2), key(3), SyncOwner::Thread(thread(3))));
    assert_eq!(
        runtime.block_transferred(key(1), thread(3)),
        BlockTransferredResult::ImTheOwner
    );

    runtime.undo_transfer_lock(key(1));
    assert_eq!(
        runtime.block_transferred(key(1), thread(3)),
        BlockTransferredResult::Released
    );
    assert_eq!(
        runtime.block_transferred(key(2), thread(3)),
        BlockTransferredResult::ImTheOwner
    );
}

#[test]
fn owner_that_waits_for_me_is_me() {
    let mut runtime = Runtime::<()>::default();
    runtime.transfer_lock(key(1), thread(1), key(2), SyncOwner::Thread(thread(2)));
    block(&mut runtime, 2, 5, 3);
    assert_eq!(
        runtime.block_transferred(key(1), thread(3)),
        BlockTransferredResult::ImTheOwner
    );
}

#[test]
fn transfer_within_a_thread_moves_nothing() {
    let mut runtime = Runtime::<()>::default();
    block(&mut runtime, 3, 1, 1);
    assert!(!runtime.transfer_lock(key(1), thread(1), key(2), SyncOwner::Thread(thread(1))));
    assert!(!runtime.is_running(thread(3)));
}

#[test]
fn transfer_repoints_waiters_and_wakes_those_ahead() {
    let mut runtime = Runtime::<()>::default();
    // Thread 2 waits for query 1 of thread 1, and so does thread 3.
    block(&mut runtime, 2, 1, 1);
    block(&mut runtime, 3, 1, 1);
    // The lock of query 1 goes to query 2, which thread 2 evaluates.
    assert!(runtime.transfer_lock(key(1), thread(1), key(2), SyncOwner::Thread(thread(2))));
    assert_eq!(runtime.take_wait_result(thread(2)), Some(WaitResult::Completed));
    assert_eq!(runtime.take_wait_result(thread(3)), None);
    // Thread 3 waits for thread 2 now.
    assert_eq!(
        runtime.block(thread(2), key(9), thread(3)),
        BlockResult::Cycle { same_thread: false, owner: thread(3) }
    );
    assert!(matches!(
        runtime.block(thread(1), key(9), thread(3)),
        BlockResult::Running(_)
    ));
}

#[test]
fn transfer_to_an_owned_query_turns_the_chain() {
    let mut runtime = Runtime::<()>::default();
    // 2 is owned by 1; then 1 is transferred to 2.
    runtime.transfer_lock(key(2), thread(1), key(1), SyncOwner::Thread(thread(1)));
    runtime.transfer_lock(key(1), thread(1), key(2), SyncOwner::Thread(thread(2)));
    assert_eq!(
        runtime.block_transferred(key(1), thread(2)),
        BlockTransferredResult::ImTheOwner
    );
    assert_eq!(
        runtime.block_transferred(key(2), thread(2)),
        BlockTransferredResult::Released
    );
}

#[test]
fn transfer_to_a_transferred_query_follows_its_owner() {
    let mut runtime = Runtime::<()>::default();
    runtime.transfer_lock(key(2), thread(2), key(3), SyncOwner::Thread(thread(3)));
    assert!(runtime.transfer_lock(key(1), thread(1), key(2), SyncOwner::Transferred));
    assert_eq!(
        runtime.block_transferred(key(1), thread(3)),
        BlockTransferredResult::ImTheOwner
    );
}

#[test]
fn completing_an_owner_wakes_the_waiters_of_owned_queries() {
    let mut runtime = Runtime::<()>::default();
    runtime.transfer_lock(key(1), thread(1), key(2), SyncOwner::Thread(thread(2)));
    runtime.transfer_lock(key(4), thread(1), key(1), SyncOwner::Transferred);
    block(&mut runtime, 5, 1, 2);
    block(&mut runtime, 6, 4, 2);
    block(&mut runtime, 7, 2, 2);
    runtime.unblock_transferred_queries_owned_by(key(2), WaitResult::Panicked);
    assert_eq!(runtime.take_wait_result(thread(5)), Some(WaitResult::Panicked));
    assert_eq!(runtime.take_wait_result(thread(6)), Some(WaitResult::Panicked));
    assert_eq!(runtime.take_wait_result(thread(7)), None);
    assert!(!runtime.is_running(thread(7)));
    assert_eq!(
        runtime.block_transferred(key(1), thread(9)),
        BlockTransferredResult::Released
    );
    assert_eq!(
        runtime.block_transferred(key(4), thread(9)),
        BlockTransferredResult::Released
    );
}

#[test]
fn transferred_owner_can_be_waited_for() {
    let mut runtime = Runtime::<()>::default();
    runtime.transfer_lock(key(1), thread(1), key(2), SyncOwner::Thread(thread(2)));
    match runtime.block_transferred(key(1), thread(3)) {
        BlockTransferredResult::OwnedBy(owner) => {
            assert_eq!(
                owner.block(&runtime),
                BlockResult::Running(Running {
                    database_key: key(1),
                    other_id: thread(2),
                    thread_id: thread(3),
                })
            );
        }
        _ => panic!("the lock is owned by thread 2"),
    }
    let stale = BlockOnTransferredOwner {
        database_key: key(1),
        other_id: thread(3),
        thread_id: thread(3),
    };
    assert_eq!(
        stale.block(&runtime),
        BlockResult::Cycle { same_thread: true, owner: thread(3) }
    );
    block(&mut runtime, 2, 8, 3);
    let closing = BlockOnTransferredOwner {
        database_key: key(1),
        other_id: thread(2),
        thread_id: thread(3),
    };
    assert_eq!(
        closing.block(&runtime),
        BlockResult::Cycle { same_thread: false, owner: thread(2) }
    );
}

#[test]
fn group_owner_with_the_smallest_root_wins() {
    // Threads 1 -> 2 -> 3 wait for one another; 3 would close the cycle.
    let mut runtime = Runtime::<()>::default();
    block(&mut runtime, 1, 10, 2);
    block(&mut runtime, 2, 20, 3);
    // A thread without a group loses.
    assert_eq!(runtime.cross_cycle_decision(thread(3), thread(1), None), None);
    // A group owner beats threads without a group: it wakes who waits for it.
    runtime.cycle_groups_mut().register(key(50), thread(3));
    assert_eq!(
        runtime.cross_cycle_decision(thread(3), thread(1), Some(key(50))),
        Some(key(20))
    );
    // Between two group owners the smaller root wins.
    runtime.cycle_groups_mut().register(key(60), thread(1));
    assert_eq!(
        runtime.cross_cycle_decision(thread(3), thread(1), Some(key(50))),
        Some(key(20))
    );
    runtime.cycle_groups_mut().complete(key(60));
    runtime.cycle_groups_mut().register(key(40), thread(1));
    assert_eq!(
        runtime.cross_cycle_decision(thread(3), thread(1), Some(key(50))),
        None
    );
    // Where the owner does not wait for the thread, there is no cycle to win.
    assert_eq!(
        runtime.cross_cycle_decision(thread(9), thread(1), Some(key(1))),
        None
    );
}

#[test]
fn winner_does_not_depend_on_who_closes_the_cycle() {
    let mut from_two = Runtime::<()>::default();
    block(&mut from_two, 1, 10, 2);
    let mut from_one = Runtime::<()>::default();
    block(&mut from_one, 2, 20, 1);
    for runtime in [&mut from_one, &mut from_two] {
        runtime.cycle_groups_mut().register(key(3), thread(1));
        runtime.cycle_groups_mut().register(key(4), thread(2));
    }
    // Thread 1 owns the smaller root, and wins on either side.
    assert_eq!(
        from_one.cross_cycle_decision(thread(1), thread(2), Some(key(3))),
        Some(key(20))
    );
    assert_eq!(
        from_two.cross_cycle_decision(thread(2), thread(1), Some(key(4))),
        None
    );
}

#[test]
fn turning_a_transferred_chain_keeps_its_owner() {
    let mut runtime = Runtime::<()>::default();
    // 3 is owned by 2, 2 by 1, and 1 by 9, which thread 9 evaluates.
    runtime.transfer_lock(key(1), thread(1), key(9), SyncOwner::Thread(thread(9)));
    runtime.transfer_lock(key(2), thread(1), key(1), SyncOwner::Transferred);
    runtime.transfer_lock(key(3), thread(1), key(2), SyncOwner::Transferred);
    runtime.transfer_lock(key(1), thread(9), key(3), SyncOwner::Transferred);
    for n in 1..4 {
        assert_eq!(
            runtime.block_transferred(key(n), thread(9)),
            BlockTransferredResult::ImTheOwner
        );
    }
    // The chain goes 1 -> 3 -> 2 -> 9 now: without the transfer of 2 it ends there.
    runtime.undo_transfer_lock(key(2));
    assert_eq!(
        runtime.block_transferred(key(2), thread(9)),
        BlockTransferredResult::Released
    );
    assert_eq!(
        runtime.block_transferred(key(1), thread(9)),
        BlockTransferredResult::ImTheOwner
    );
}

#[test]
fn the_graph_shows_who_waits() {
    let mut runtime = Runtime::<()>::default();
    let idle = format!("{:?}", runtime.dependency_graph());
    block(&mut runtime, 1, 10, 2);
    assert!(runtime.dependency_graph().depends_on(thread(1), thread(2)));
    assert!(!runtime.dependency_graph().depends_on(thread(2), thread(1)));
    assert_ne!(format!("{:?}", runtime.dependency_graph()), idle);
}
