//! Fork-join completion barrier.
//!
//! A waiter owns a live-token count and a stored wake callback. Issuing or
//! cloning a dependency token raises the count; dropping a token lowers it,
//! and the drop that brings the count to zero hands back the stored callback
//! so the suspended computation can be resumed. Polling reports ready exactly
//! when no token is alive, and always overwrites the stored callback: the
//! barrier may be polled from more than one context over its lifetime, and
//! only the most recent poller is woken.
//!
//! Outside this crate the count lives in an atomic and the callback is a real
//! waker; this module is the barrier's logic, with the callback named by an
//! opaque ticket.

use vstd::prelude::*;

verus! {

/// A clonable token standing for one outstanding unit of work. The waiter
/// tracks how many are alive; the token itself carries no state.
pub struct AtomicDependency {
    token: (),
}

/// The barrier: a live-token count plus the wake callback stored by the most
/// recent poll, named by an opaque ticket.
pub struct AtomicWaiter {
    pub count: u64,
    pub waker: Option<u64>,
}

/// One token event in a waiter's life.
pub enum WaiterEvent {
    MakeDependency,
    CloneDependency,
    DropDependency,
}

/// Net live tokens after a sequence of events, counting from zero.
pub open spec fn net_tokens(events: Seq<WaiterEvent>) -> int
    decreases events.len(),
{
    if events.len() == 0 {
        0
    } else {
        net_tokens(events.drop_last()) + match events.last() {
            WaiterEvent::DropDependency => -1int,
            _ => 1int,
        }
    }
}

/// How many tokens the events issued (initial issues and clones together).
pub open spec fn tokens_issued(events: Seq<WaiterEvent>) -> int
    decreases events.len(),
{
    if events.len() == 0 {
        0
    } else {
        tokens_issued(events.drop_last()) + match events.last() {
            WaiterEvent::DropDependency => 0int,
            _ => 1int,
        }
    }
}

/// How many tokens the events dropped.
pub open spec fn tokens_dropped(events: Seq<WaiterEvent>) -> int
    decreases events.len(),
{
    if events.len() == 0 {
        0
    } else {
        tokens_dropped(events.drop_last()) + match events.last() {
            WaiterEvent::DropDependency => 1int,
            _ => 0int,
        }
    }
}

/// No prefix of the events drops a token that is not alive, and the count
/// stays representable.
pub open spec fn events_admissible(events: Seq<WaiterEvent>) -> bool {
    forall|n: int| 0 <= n <= events.len() ==> 0 <= #[trigger] net_tokens(events.take(n)) <= u64::MAX
}

impl AtomicWaiter {
    /// The barrier reports completion: no token is alive.
    pub open spec fn spec_ready(self) -> bool {
        self.count == 0
    }

    /// A fresh barrier: no dependencies, no stored callback.
    pub fn new() -> (w: AtomicWaiter)
        ensures
            w.count == 0,
            w.waker is None,
            w.spec_ready(),
    {
        AtomicWaiter { count: 0, waker: None }
    }

    /// Issue a new dependency token, raising the live count.
    pub fn make_dependency(&mut self) -> (d: AtomicDependency)
        requires
            old(self).count < u64::MAX,
        ensures
            final(self).count == old(self).count + 1,
            final(self).waker == old(self).waker,
    {
        self.count = self.count + 1;
        AtomicDependency { token: () }
    }

    /// Clone an existing token: the live count rises exactly as for a fresh
    /// one.
    pub fn clone_dependency(&mut self, _dep: &AtomicDependency) -> (d: AtomicDependency)
        requires
            old(self).count < u64::MAX,
        ensures
            final(self).count == old(self).count + 1,
            final(self).waker == old(self).waker,
    {
        self.count = self.count + 1;
        AtomicDependency { token: () }
    }

    /// Drop a token. The live count falls by one; exactly when this was the
    /// last live token, the stored wake callback is handed back to be
    /// invoked. Which of the live tokens is dropped makes no difference.
    /// The precondition is met by construction in any faithful use: the
    /// consumed token is the caller's evidence that the count is positive,
    /// since every token was issued or cloned alongside an increment.
    pub fn drop_dependency(&mut self, dep: AtomicDependency) -> (wake: Option<u64>)
        requires
            old(self).count > 0,
        ensures
            final(self).count == old(self).count - 1,
            final(self).waker == old(self).waker,
            wake == if old(self).count == 1 {
                old(self).waker
            } else {
                None::<u64>
            },
            (wake is Some) <==> (final(self).spec_ready() && old(self).waker is Some),
    {
        let AtomicDependency { token: () } = dep;
        self.count = self.count - 1;
        if self.count == 0 {
            self.waker
        } else {
            None
        }
    }

    /// Poll the barrier with a wake callback. The callback is stored
    /// unconditionally, replacing any earlier one, so the latest poller is
    /// the one woken; the result is ready exactly when no token is alive.
    pub fn poll(&mut self, waker: u64) -> (ready: bool)
        ensures
            final(self).count == old(self).count,
            final(self).waker == Some(waker),
            ready == old(self).spec_ready(),
    {
        self.waker = Some(waker);
        self.count == 0
    }

    /// The waiter state after a sequence of token events.
    pub open spec fn apply_events(self, events: Seq<WaiterEvent>) -> AtomicWaiter
        decreases events.len(),
    {
        if events.len() == 0 {
            self
        } else {
            let w = self.apply_events(events.drop_last());
            match events.last() {
                WaiterEvent::DropDependency => AtomicWaiter {
                    count: (w.count - 1) as u64,
                    waker: w.waker,
                },
                _ => AtomicWaiter { count: (w.count + 1) as u64, waker: w.waker },
            }
        }
    }
}

/// Fork-join barrier law: starting from a fresh waiter, run any admissible
/// sequence of issue, clone and drop events. The barrier is ready afterwards
/// exactly when every token issued or cloned has been dropped — so it never
/// resolves while a token is alive, and the drop that resolves it is the
/// last one, whatever order the tokens fall in.
pub proof fn lemma_fork_join_barrier(w: AtomicWaiter, events: Seq<WaiterEvent>)
    requires
        w.count == 0,
        events_admissible(events),
    ensures
        w.apply_events(events).count == net_tokens(events),
        net_tokens(events) == tokens_issued(events) - tokens_dropped(events),
        w.apply_events(events).spec_ready() <==> tokens_issued(events) == tokens_dropped(events),
    decreases events.len(),
{
    if events.len() == 0 {
    } else {
        let prefix = events.drop_last();
        assert(events_admissible(prefix)) by {
            assert forall|n: int| 0 <= n <= prefix.len() implies 0 <= #[trigger] net_tokens(
                prefix.take(n),
            ) <= u64::MAX by {
                assert(prefix.take(n) =~= events.take(n));
                assert(0 <= net_tokens(events.take(n)) <= u64::MAX);
            }
        }
        lemma_fork_join_barrier(w, prefix);
        assert(events.take(events.len() as int) =~= events);
        assert(events.take(events.len() - 1) =~= prefix);
        assert(0 <= net_tokens(events) <= u64::MAX);
        assert(0 <= net_tokens(prefix) <= u64::MAX);
    }
}

} // verus!
