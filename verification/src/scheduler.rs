//! The priority scheduler's decision core.
//!
//! Work is queued in four fixed priority lanes, FIFO within a lane. Workers
//! outside this crate block on the lanes' channels; which lane's signal wakes
//! an idle worker first is up to the operating system, so the first dispatch
//! after idling is not strictly priority-ordered. After each completed order,
//! though, a worker drains greedily: `next_order` hands out the head of the
//! highest-priority non-empty lane. That greedy choice, the lane bookkeeping
//! of submission and completion, and the shutdown condition are the logic
//! verified here; threads and channels merely carry the decisions out.
//!
//! Submitted work is named by an opaque order: a task id that self-resubmits
//! through its wake callback, or a one-shot closure id.

use vstd::prelude::*;

verus! {

/// One of the four fixed priority lanes.
#[derive(Clone, Copy, PartialEq, Eq, Structural, Debug)]
pub enum Priority {
    VeryHigh,
    High,
    Normal,
    Low,
}

/// A control signal for blocked workers: wake up and re-check the queues and
/// the end flag.
pub enum RuntimeInfo {
    WakeUp,
}

/// One unit of queued work, named by id: a suspended task (which will be
/// resubmitted by its own wake callback each time it suspends) or a one-shot
/// closure.
#[derive(Clone, Copy, PartialEq, Eq, Structural, Debug)]
pub enum ExecutionOrder {
    ExecuteTask(u64),
    ExecuteClosure(u64),
}

/// The scheduler's shared state: four FIFO lanes, the count of submitted but
/// not yet completed tasks, the end-of-life flag (shutdown requested; workers
/// drain and exit), and the dead flag (the pool is gone; nothing can be
/// queued any more).
pub struct Scheduler {
    pub lane_very_high: Vec<ExecutionOrder>,
    pub lane_high: Vec<ExecutionOrder>,
    pub lane_normal: Vec<ExecutionOrder>,
    pub lane_low: Vec<ExecutionOrder>,
    pub open_tasks: u64,
    pub end_flag: bool,
    pub dead: bool,
}

impl Scheduler {
    /// The queue of one lane.
    pub open spec fn lane(self, p: Priority) -> Seq<ExecutionOrder> {
        match p {
            Priority::VeryHigh => self.lane_very_high@,
            Priority::High => self.lane_high@,
            Priority::Normal => self.lane_normal@,
            Priority::Low => self.lane_low@,
        }
    }

    pub open spec fn all_lanes_empty(self) -> bool {
        &&& self.lane_very_high@.len() == 0
        &&& self.lane_high@.len() == 0
        &&& self.lane_normal@.len() == 0
        &&& self.lane_low@.len() == 0
    }

    /// The highest-priority lane that holds work.
    pub open spec fn spec_best_lane(self) -> Priority {
        if self.lane_very_high@.len() > 0 {
            Priority::VeryHigh
        } else if self.lane_high@.len() > 0 {
            Priority::High
        } else if self.lane_normal@.len() > 0 {
            Priority::Normal
        } else {
            Priority::Low
        }
    }

    pub fn new() -> (s: Scheduler)
        ensures
            s.all_lanes_empty(),
            s.open_tasks == 0,
            !s.end_flag,
            !s.dead,
    {
        Scheduler {
            lane_very_high: Vec::new(),
            lane_high: Vec::new(),
            lane_normal: Vec::new(),
            lane_low: Vec::new(),
            open_tasks: 0,
            end_flag: false,
            dead: false,
        }
    }

    /// Queue an order at the tail of its lane (FIFO within the lane); the
    /// other lanes, the open count and the flags are untouched. Work handed
    /// to an already-dead scheduler is dropped, not queued — the caller
    /// surfaces a warning and nothing else changes.
    pub fn submit(&mut self, order: ExecutionOrder, priority: Priority) -> (accepted: bool)
        ensures
            accepted == !old(self).dead,
            old(self).dead ==> *final(self) == *old(self),
            !old(self).dead ==> {
                &&& final(self).lane(priority) == old(self).lane(priority).push(order)
                &&& (forall|p: Priority| p != priority ==> final(self).lane(p) == old(self).lane(
                    p,
                ))
                &&& final(self).open_tasks == old(self).open_tasks
                &&& final(self).end_flag == old(self).end_flag
                &&& final(self).dead == old(self).dead
            },
    {
        if self.dead {
            return false;
        }
        match priority {
            Priority::VeryHigh => self.lane_very_high.push(order),
            Priority::High => self.lane_high.push(order),
            Priority::Normal => self.lane_normal.push(order),
            Priority::Low => self.lane_low.push(order),
        }
        true
    }

    /// Submit a new task to its origin lane and count it open. Mirrored by
    /// `complete_task` when a worker's poll reports completion. A task handed
    /// to a dead scheduler is dropped and not counted.
    pub fn spawn_prioritised(&mut self, task: u64, priority: Priority) -> (accepted: bool)
        requires
            !old(self).dead ==> old(self).open_tasks < u64::MAX,
        ensures
            accepted == !old(self).dead,
            old(self).dead ==> *final(self) == *old(self),
            !old(self).dead ==> {
                &&& final(self).lane(priority) == old(self).lane(priority).push(
                    ExecutionOrder::ExecuteTask(task),
                )
                &&& (forall|p: Priority| p != priority ==> final(self).lane(p) == old(self).lane(
                    p,
                ))
                &&& final(self).open_tasks == old(self).open_tasks + 1
                &&& final(self).end_flag == old(self).end_flag
                &&& final(self).dead == old(self).dead
            },
    {
        if self.dead {
            return false;
        }
        self.open_tasks = self.open_tasks + 1;
        self.submit(ExecutionOrder::ExecuteTask(task), priority)
    }

    /// Submit a new task at normal priority.
    pub fn spawn(&mut self, task: u64) -> (accepted: bool)
        requires
            !old(self).dead ==> old(self).open_tasks < u64::MAX,
        ensures
            accepted == !old(self).dead,
            old(self).dead ==> *final(self) == *old(self),
            !old(self).dead ==> {
                &&& final(self).lane(Priority::Normal) == old(self).lane(Priority::Normal).push(
                    ExecutionOrder::ExecuteTask(task),
                )
                &&& (forall|p: Priority|
                    p != Priority::Normal ==> final(self).lane(p) == old(self).lane(p))
                &&& final(self).open_tasks == old(self).open_tasks + 1
                &&& final(self).end_flag == old(self).end_flag
                &&& final(self).dead == old(self).dead
            },
    {
        self.spawn_prioritised(task, Priority::Normal)
    }

    /// Queue a one-shot closure on the chosen lane; closures are not counted
    /// open. Dropped when the scheduler is dead.
    pub fn exec_prioritised(&mut self, closure: u64, priority: Priority) -> (accepted: bool)
        ensures
            accepted == !old(self).dead,
            old(self).dead ==> *final(self) == *old(self),
            !old(self).dead ==> {
                &&& final(self).lane(priority) == old(self).lane(priority).push(
                    ExecutionOrder::ExecuteClosure(closure),
                )
                &&& (forall|p: Priority| p != priority ==> final(self).lane(p) == old(self).lane(
                    p,
                ))
                &&& final(self).open_tasks == old(self).open_tasks
                &&& final(self).end_flag == old(self).end_flag
                &&& final(self).dead == old(self).dead
            },
    {
        self.submit(ExecutionOrder::ExecuteClosure(closure), priority)
    }

    /// Queue a one-shot closure at normal priority.
    pub fn exec(&mut self, closure: u64) -> (accepted: bool)
        ensures
            accepted == !old(self).dead,
            old(self).dead ==> *final(self) == *old(self),
            !old(self).dead ==> {
                &&& final(self).lane(Priority::Normal) == old(self).lane(Priority::Normal).push(
                    ExecutionOrder::ExecuteClosure(closure),
                )
                &&& (forall|p: Priority|
                    p != Priority::Normal ==> final(self).lane(p) == old(self).lane(p))
                &&& final(self).open_tasks == old(self).open_tasks
                &&& final(self).end_flag == old(self).end_flag
                &&& final(self).dead == old(self).dead
            },
    {
        self.exec_prioritised(closure, Priority::Normal)
    }

    /// A task's wake callback fired: resend the task to its origin lane. The
    /// task was already counted open when first spawned, so the count stays.
    /// During the drain after a stop request wakes still land — only a dead
    /// scheduler drops them (with a warning at the caller), since the task
    /// can never run again.
    pub fn resubmit(&mut self, task: u64, origin: Priority) -> (accepted: bool)
        ensures
            accepted == !old(self).dead,
            old(self).dead ==> *final(self) == *old(self),
            !old(self).dead ==> {
                &&& final(self).lane(origin) == old(self).lane(origin).push(
                    ExecutionOrder::ExecuteTask(task),
                )
                &&& (forall|p: Priority| p != origin ==> final(self).lane(p) == old(self).lane(p))
                &&& final(self).open_tasks == old(self).open_tasks
                &&& final(self).end_flag == old(self).end_flag
                &&& final(self).dead == old(self).dead
            },
    {
        self.submit(ExecutionOrder::ExecuteTask(task), origin)
    }

    /// The greedy drain a worker performs after finishing an order: take the
    /// head of the highest-priority non-empty lane, or nothing when every
    /// lane is empty. This is where priority preference is enforced; the
    /// first dispatch after blocking idle is instead decided by whichever
    /// lane's signal arrives first.
    pub fn next_order(&mut self) -> (r: Option<(ExecutionOrder, Priority)>)
        ensures
            final(self).open_tasks == old(self).open_tasks,
            final(self).end_flag == old(self).end_flag,
            final(self).dead == old(self).dead,
            old(self).all_lanes_empty() ==> r is None && *final(self) == *old(self),
            !old(self).all_lanes_empty() ==> {
                let p = old(self).spec_best_lane();
                &&& r == Some((old(self).lane(p)[0], p))
                &&& final(self).lane(p) == old(self).lane(p).drop_first()
                &&& forall|q: Priority| q != p ==> final(self).lane(q) == old(self).lane(q)
            },
    {
        if self.lane_very_high.len() > 0 {
            let order = self.lane_very_high.remove(0);
            proof {
                assert(final(self).lane(Priority::VeryHigh) =~= old(self).lane(
                    Priority::VeryHigh,
                ).drop_first());
            }
            Some((order, Priority::VeryHigh))
        } else if self.lane_high.len() > 0 {
            let order = self.lane_high.remove(0);
            proof {
                assert(final(self).lane(Priority::High) =~= old(self).lane(
                    Priority::High,
                ).drop_first());
            }
            Some((order, Priority::High))
        } else if self.lane_normal.len() > 0 {
            let order = self.lane_normal.remove(0);
            proof {
                assert(final(self).lane(Priority::Normal) =~= old(self).lane(
                    Priority::Normal,
                ).drop_first());
            }
            Some((order, Priority::Normal))
        } else if self.lane_low.len() > 0 {
            let order = self.lane_low.remove(0);
            proof {
                assert(final(self).lane(Priority::Low) =~= old(self).lane(
                    Priority::Low,
                ).drop_first());
            }
            Some((order, Priority::Low))
        } else {
            None
        }
    }

    /// A worker's poll of a task reported completion: the task leaves the
    /// open count and is dropped.
    pub fn complete_task(&mut self)
        requires
            old(self).open_tasks > 0,
        ensures
            final(self).open_tasks == old(self).open_tasks - 1,
            final(self).end_flag == old(self).end_flag,
            final(self).dead == old(self).dead,
            forall|p: Priority| final(self).lane(p) == old(self).lane(p),
    {
        self.open_tasks = self.open_tasks - 1;
    }

    /// Request shutdown. Idempotent: the flag only ever rises. Queued and
    /// open work still drains; only `mark_dead`, once the drain is over, ends
    /// the scheduler's life.
    pub fn request_stop(&mut self)
        ensures
            final(self).end_flag,
            final(self).open_tasks == old(self).open_tasks,
            final(self).dead == old(self).dead,
            forall|p: Priority| final(self).lane(p) == old(self).lane(p),
    {
        self.end_flag = true;
    }

    /// The pool is gone: shutdown was requested, the workers drained their
    /// work and were joined. From here on every submission — a new task or
    /// closure, or a wake of a leftover task handle — is dropped with a
    /// warning rather than queued.
    pub fn mark_dead(&mut self)
        requires
            old(self).end_flag,
        ensures
            final(self).dead,
            final(self).end_flag == old(self).end_flag,
            final(self).open_tasks == old(self).open_tasks,
            forall|p: Priority| final(self).lane(p) == old(self).lane(p),
    {
        self.dead = true;
    }

    /// A worker may exit its main loop only when shutdown was requested and
    /// no submitted-but-uncompleted task remains: stopping earlier could
    /// strand a suspended task that would later be woken into a dead pool.
    pub fn worker_should_exit(&self) -> (r: bool)
        ensures
            r == (self.end_flag && self.open_tasks == 0),
    {
        self.end_flag && self.open_tasks == 0
    }
}

/// How many worker threads serve the pool: all physical cores but one, and
/// at least one.
pub fn worker_count_for(physical_cores: usize) -> (r: usize)
    ensures
        r == if physical_cores >= 2 {
            (physical_cores - 1) as int
        } else {
            1int
        },
        r >= 1,
{
    if physical_cores >= 2 {
        physical_cores - 1
    } else {
        1
    }
}

} // verus!
