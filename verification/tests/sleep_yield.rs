use eisen::block_on::BlockingBridge;
use eisen::sleep::sleep_for;
use eisen::sleep::sleep_until;
use eisen::sleep::SleepQueue;
use eisen::sleep::SleepingTask;
use eisen::sleep::SLEEP_SELF_SPIN_TIME_NANOS;
use eisen::yielding::yield_now;

#[test]
fn insert_keeps_descending_wake_order() {
    let mut q = SleepQueue::new();
    sleep_until(&mut q, 1, 50);
    sleep_until(&mut q, 2, 10);
    sleep_until(&mut q, 3, 90);
    sleep_until(&mut q, 4, 30);
    let times: Vec<u64> = q.sleepers.iter().map(|s| s.wake_up_time).collect();
    assert_eq!(times, vec![90, 50, 30, 10]);
}

#[test]
fn pop_due_wakes_soonest_first_and_only_within_window() {
    let mut q = SleepQueue::new();
    let now: u64 = 1_000_000;
    sleep_until(&mut q, 1, now - 500);
    sleep_until(&mut q, 2, now + SLEEP_SELF_SPIN_TIME_NANOS - 1);
    sleep_until(&mut q, 3, now + SLEEP_SELF_SPIN_TIME_NANOS);
    let woken = q.pop_due(now);
    // exactly the sleepers strictly inside the spin window, soonest first; a
    // sleeper whose wake time sits at or beyond the window's edge is never
    // woken early
    assert_eq!(
        woken,
        vec![
            SleepingTask { waker: 1, wake_up_time: now - 500 },
            SleepingTask { waker: 2, wake_up_time: now + SLEEP_SELF_SPIN_TIME_NANOS - 1 },
        ]
    );
    assert_eq!(q.sleepers.len(), 1);
    assert_eq!(q.sleepers[0].waker, 3);
    // once the clock has moved past the edge, the remaining sleeper is due
    let woken2 = q.pop_due(now + 1);
    assert_eq!(woken2.len(), 1);
    assert_eq!(woken2[0].waker, 3);
    assert!(q.sleepers.is_empty());
}

#[test]
fn sleep_for_never_wakes_before_its_duration() {
    let mut q = SleepQueue::new();
    let now: u64 = 7_000;
    let wake = sleep_for(&mut q, 9, now, 250_000);
    assert_eq!(wake, now + 250_000);
    // up to the window's edge, nothing is due
    assert!(q.pop_due(now).is_empty());
    assert!(q.pop_due(now + 100_000).is_empty());
    assert!(q.pop_due(wake - SLEEP_SELF_SPIN_TIME_NANOS).is_empty());
    // due once strictly within the spin window of the wake time
    let woken = q.pop_due(wake - SLEEP_SELF_SPIN_TIME_NANOS + 1);
    assert_eq!(woken.len(), 1);
    assert_eq!(woken[0].waker, 9);
}

#[test]
fn sleepers_with_equal_wake_times_are_all_woken() {
    let mut q = SleepQueue::new();
    sleep_until(&mut q, 1, 500);
    sleep_until(&mut q, 2, 500);
    sleep_until(&mut q, 3, 900_000);
    let woken = q.pop_due(500);
    let mut ids: Vec<u64> = woken.iter().map(|s| s.waker).collect();
    ids.sort();
    assert_eq!(ids, vec![1, 2]);
    assert_eq!(q.sleepers.len(), 1);
}

#[test]
fn yield_is_pending_exactly_once() {
    let mut y = yield_now();
    let (ready, rearm) = y.poll();
    assert!(!ready);
    assert!(rearm);
    let (ready2, rearm2) = y.poll();
    assert!(ready2);
    assert!(!rearm2);
    let (ready3, _) = y.poll();
    assert!(ready3);
}

#[test]
fn bridge_slot_is_seeded_and_collapses_wakes() {
    let mut b = BlockingBridge::new();
    assert!(b.token);
    b.recv_token();
    assert!(!b.token);
    b.send_token();
    b.send_token();
    assert!(b.token);
    b.recv_token();
    assert!(!b.token);
}
