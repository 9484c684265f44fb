//! The sleep scheduler's time-sorted wake list.
//!
//! A dedicated low-priority task owns a list of pending sleepers, sorted by
//! wake-up time in descending order: the soonest wake sits at the tail. Each
//! cycle it drains newly registered sleepers into the list (partition-point
//! insertion keeps the order), pops and wakes every sleeper whose wake time
//! is within a small spin window of now, and cooperatively yields. A sleeping
//! task woken inside the window busy-spins locally up to its exact wake time,
//! trading a short burn of CPU for timing precision that coarse channel
//! wake-ups cannot give.
//!
//! Times are nanosecond readings of a monotonic clock, handed in by the
//! caller; a sleeper's wake callback is named by an opaque ticket.

use vstd::prelude::*;

verus! {

use vstd::multiset::Multiset;

/// How close to its wake time a sleeper is woken and left to spin locally,
/// in nanoseconds.
pub const SLEEP_SELF_SPIN_TIME_NANOS: u64 = 100_000;

/// One registered sleeper: the wake callback's ticket and the time it asked
/// to be woken at.
#[derive(Clone, Copy, PartialEq, Eq, Structural, Debug)]
pub struct SleepingTask {
    pub waker: u64,
    pub wake_up_time: u64,
}

/// The pending sleepers, sorted by wake-up time in descending order: the
/// soonest wake is at the tail.
pub struct SleepQueue {
    pub sleepers: Vec<SleepingTask>,
}

impl SleepQueue {
    /// Sorted by wake time, descending (ties in either order).
    pub open spec fn wf(self) -> bool {
        forall|k1: int, k2: int|
            0 <= k1 < k2 < self.sleepers@.len() ==> (#[trigger] self.sleepers@[k1]).wake_up_time
                >= (#[trigger] self.sleepers@[k2]).wake_up_time
    }

    /// The multiset of registered sleepers, order set aside.
    pub open spec fn spec_sleepers(self) -> Multiset<SleepingTask> {
        self.sleepers@.to_multiset()
    }

    pub fn new() -> (q: SleepQueue)
        ensures
            q.wf(),
            q.sleepers@.len() == 0,
    {
        SleepQueue { sleepers: Vec::new() }
    }

    /// Register a sleeper, keeping the list sorted: it is placed at the
    /// partition point, after every sleeper that wakes no earlier and before
    /// every sleeper that wakes strictly earlier.
    pub fn insert(&mut self, sleeper: SleepingTask)
        requires
            old(self).wf(),
        ensures
            final(self).wf(),
            final(self).sleepers@.len() == old(self).sleepers@.len() + 1,
            final(self).spec_sleepers() == old(self).spec_sleepers().insert(sleeper),
    {
        let ghost s0 = self.sleepers@;
        let mut lo: usize = 0;
        let mut hi: usize = self.sleepers.len();
        while lo < hi
            invariant
                self.sleepers@ == s0,
                old(self).wf(),
                0 <= lo <= hi <= s0.len(),
                forall|k: int|
                    0 <= k < lo ==> (#[trigger] s0[k]).wake_up_time > sleeper.wake_up_time,
                forall|k: int|
                    hi <= k < s0.len() ==> (#[trigger] s0[k]).wake_up_time <= sleeper.wake_up_time,
            decreases hi - lo,
        {
            let mid = lo + (hi - lo) / 2;
            if self.sleepers[mid].wake_up_time > sleeper.wake_up_time {
                lo = mid + 1;
            } else {
                hi = mid;
            }
        }
        self.sleepers.insert(lo, sleeper);
        proof {
            let inserted = s0.insert(lo as int, sleeper);
            assert forall|k1: int, k2: int|
                0 <= k1 < k2 < inserted.len() implies (#[trigger] inserted[k1]).wake_up_time >= (
            #[trigger] inserted[k2]).wake_up_time by {
                assert(old(self).wf());
                if k1 < lo as int && k2 > lo as int {
                    assert(inserted[k1] == s0[k1]);
                    assert(inserted[k2] == s0[k2 - 1]);
                    assert(s0[k1].wake_up_time > sleeper.wake_up_time);
                    assert(s0[k2 - 1].wake_up_time <= sleeper.wake_up_time);
                }
            }
            s0.to_multiset_ensures();
            inserted.to_multiset_ensures();
            assert(inserted.remove(lo as int) =~= s0);
            assert(inserted[lo as int] == sleeper);
            assert(inserted.to_multiset().remove(sleeper) =~= s0.to_multiset());
            assert(inserted.contains(sleeper));
            assert(inserted.to_multiset().count(sleeper) > 0);
            assert(inserted.to_multiset() =~= s0.to_multiset().insert(sleeper));
        }
    }

    /// Pop and hand back every sleeper due within the spin window of `now`:
    /// sleepers are taken from the tail (soonest first) while their wake time
    /// lies strictly inside `now` plus the window — the same strict boundary
    /// `sleep_poll_spins` uses, so a popped sleeper's own next poll spins.
    /// No sleeper whose wake time lies at or beyond the window's edge is
    /// woken, and none that is due stays behind.
    pub fn pop_due(&mut self, now: u64) -> (woken: Vec<SleepingTask>)
        requires
            old(self).wf(),
        ensures
            final(self).wf(),
            forall|k: int|
                0 <= k < woken@.len() ==> (#[trigger] woken@[k]).wake_up_time < now as int
                    + SLEEP_SELF_SPIN_TIME_NANOS,
            forall|k: int|
                0 <= k < final(self).sleepers@.len() ==> (
                #[trigger] final(self).sleepers@[k]).wake_up_time >= now as int
                    + SLEEP_SELF_SPIN_TIME_NANOS,
            final(self).sleepers@ + woken@.reverse() == old(self).sleepers@,
    {
        let mut woken: Vec<SleepingTask> = Vec::new();
        loop
            invariant
                old(self).wf(),
                self.wf(),
                forall|k: int|
                    0 <= k < woken@.len() ==> (#[trigger] woken@[k]).wake_up_time < now as int
                        + SLEEP_SELF_SPIN_TIME_NANOS,
                self.sleepers@ + woken@.reverse() == old(self).sleepers@,
            ensures
                self.sleepers@.len() == 0 || self.sleepers@.last().wake_up_time >= now as int
                    + SLEEP_SELF_SPIN_TIME_NANOS,
            decreases self.sleepers@.len(),
        {
            if self.sleepers.len() == 0 {
                break ;
            }
            let tail = self.sleepers[self.sleepers.len() - 1];
            let due = tail.wake_up_time <= now || tail.wake_up_time - now
                < SLEEP_SELF_SPIN_TIME_NANOS;
            if !due {
                break ;
            }
            let ghost pre_sleepers = self.sleepers@;
            let ghost pre_woken = woken@;
            let sleeper = self.sleepers.pop().unwrap();
            woken.push(sleeper);
            proof {
                assert(pre_woken.push(sleeper).reverse() =~= seq![sleeper]
                    + pre_woken.reverse());
                assert(pre_sleepers.drop_last() + (seq![sleeper] + pre_woken.reverse())
                    =~= pre_sleepers + pre_woken.reverse());
            }
        }
        proof {
            assert forall|k: int| 0 <= k < self.sleepers@.len() implies (
            #[trigger] self.sleepers@[k]).wake_up_time >= now as int + SLEEP_SELF_SPIN_TIME_NANOS by {
                let last = self.sleepers@.len() - 1;
                assert(self.sleepers@[k].wake_up_time >= self.sleepers@[last].wake_up_time);
            }
        }
        woken
    }
}

/// The sleeping task's own per-poll decision: a poll that has registered
/// before and now finds itself within the spin window of its wake time
/// busy-spins locally up to the exact time and completes; any other poll
/// (re)registers with the sleep scheduler and suspends.
pub fn sleep_poll_spins(called_once: bool, now: u64, wake_up_time: u64) -> (spin: bool)
    ensures
        spin == (called_once && now as int + SLEEP_SELF_SPIN_TIME_NANOS > wake_up_time as int),
{
    called_once && (wake_up_time <= now || wake_up_time - now < SLEEP_SELF_SPIN_TIME_NANOS)
}

/// Register a sleeper that wakes no earlier than the given instant.
pub fn sleep_until(queue: &mut SleepQueue, waker: u64, wake_up_time: u64)
    requires
        old(queue).wf(),
    ensures
        final(queue).wf(),
        final(queue).spec_sleepers() == old(queue).spec_sleepers().insert(
            SleepingTask { waker, wake_up_time },
        ),
{
    queue.insert(SleepingTask { waker, wake_up_time });
}

/// Register a sleeper that wakes no earlier than `min_duration` from `now`.
pub fn sleep_for(queue: &mut SleepQueue, waker: u64, now: u64, min_duration: u64) -> (wake_up_time:
    u64)
    requires
        old(queue).wf(),
        now + min_duration <= u64::MAX,
    ensures
        final(queue).wf(),
        wake_up_time == now + min_duration,
        final(queue).spec_sleepers() == old(queue).spec_sleepers().insert(
            SleepingTask { waker, wake_up_time },
        ),
{
    let wake_up_time = now + min_duration;
    sleep_until(queue, waker, wake_up_time);
    wake_up_time
}

} // verus!
