use eisen::scheduler::worker_count_for;
use eisen::scheduler::ExecutionOrder;
use eisen::scheduler::Priority;
use eisen::scheduler::Scheduler;

#[test]
fn greedy_drain_prefers_higher_lanes() {
    // Sustained low-priority load, then one very-high submission: the greedy
    // drain picks the very-high order first. In the running pool only this
    // post-completion drain is priority-ordered; the first dispatch after a
    // worker wakes from idle follows whichever lane's signal lands first, so
    // end-to-end preference is probabilistic, not a hard bound.
    let mut s = Scheduler::new();
    for i in 0..10u64 {
        s.exec_prioritised(i, Priority::Low);
    }
    s.exec_prioritised(100, Priority::VeryHigh);
    assert_eq!(
        s.next_order(),
        Some((ExecutionOrder::ExecuteClosure(100), Priority::VeryHigh))
    );
    assert_eq!(
        s.next_order(),
        Some((ExecutionOrder::ExecuteClosure(0), Priority::Low))
    );
}

#[test]
fn lanes_are_fifo() {
    let mut s = Scheduler::new();
    s.exec(1);
    s.exec(2);
    s.exec(3);
    assert_eq!(
        s.next_order(),
        Some((ExecutionOrder::ExecuteClosure(1), Priority::Normal))
    );
    assert_eq!(
        s.next_order(),
        Some((ExecutionOrder::ExecuteClosure(2), Priority::Normal))
    );
    assert_eq!(
        s.next_order(),
        Some((ExecutionOrder::ExecuteClosure(3), Priority::Normal))
    );
    assert_eq!(s.next_order(), None);
}

#[test]
fn all_four_lanes_drain_in_priority_order() {
    let mut s = Scheduler::new();
    s.exec_prioritised(4, Priority::Low);
    s.exec_prioritised(3, Priority::Normal);
    s.exec_prioritised(2, Priority::High);
    s.exec_prioritised(1, Priority::VeryHigh);
    let mut seen = Vec::new();
    while let Some((order, _)) = s.next_order() {
        seen.push(order);
    }
    assert_eq!(
        seen,
        vec![
            ExecutionOrder::ExecuteClosure(1),
            ExecutionOrder::ExecuteClosure(2),
            ExecutionOrder::ExecuteClosure(3),
            ExecutionOrder::ExecuteClosure(4),
        ]
    );
}

#[test]
fn tasks_resubmit_to_their_origin_lane() {
    let mut s = Scheduler::new();
    s.spawn_prioritised(9, Priority::High);
    let (order, lane) = s.next_order().unwrap();
    assert_eq!(order, ExecutionOrder::ExecuteTask(9));
    assert_eq!(lane, Priority::High);
    // the task suspended; its wake callback resends it to its origin lane
    s.resubmit(9, lane);
    assert_eq!(
        s.next_order(),
        Some((ExecutionOrder::ExecuteTask(9), Priority::High))
    );
}

#[test]
fn workers_exit_only_when_stopped_and_drained() {
    let mut s = Scheduler::new();
    s.spawn(1);
    s.spawn(2);
    assert!(!s.worker_should_exit());
    s.request_stop();
    // stop requested, but two submitted tasks have not completed
    assert!(!s.worker_should_exit());
    s.complete_task();
    assert!(!s.worker_should_exit());
    s.complete_task();
    assert!(s.worker_should_exit());
    // stop is idempotent
    s.request_stop();
    assert!(s.worker_should_exit());
}

#[test]
fn closures_are_not_counted_open() {
    let mut s = Scheduler::new();
    s.exec(1);
    s.request_stop();
    assert!(s.worker_should_exit());
}

#[test]
fn submissions_to_a_dead_scheduler_are_dropped() {
    let mut s = Scheduler::new();
    assert!(s.spawn(1));
    s.request_stop();
    // during the drain, wakes and submissions still land
    assert!(s.resubmit(1, Priority::Normal));
    assert!(s.next_order().is_some());
    assert!(s.next_order().is_some());
    s.complete_task();
    assert!(s.worker_should_exit());
    s.mark_dead();
    // a dead scheduler drops everything and keeps its state
    assert!(!s.spawn(2));
    assert!(!s.exec(3));
    assert!(!s.resubmit(1, Priority::Low));
    assert_eq!(s.next_order(), None);
    assert!(s.worker_should_exit());
}

#[test]
fn pool_size_is_cores_minus_one_with_a_floor() {
    assert_eq!(worker_count_for(1), 1);
    assert_eq!(worker_count_for(2), 1);
    assert_eq!(worker_count_for(8), 7);
}
