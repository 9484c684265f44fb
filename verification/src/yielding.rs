//! Single-shot cooperative suspension.
//!
//! The first poll of a yield reports pending while immediately re-arming its
//! own wake, so the yielding task is rescheduled promptly rather than
//! starved; the second poll reports done. It is used to give other queued
//! work a turn, for instance between sweep cycles of the sleep scheduler.

use vstd::prelude::*;

verus! {

/// The suspension point's state: has the single yield happened yet?
pub struct YieldFuture {
    pub yielded_once: bool,
}

impl YieldFuture {
    /// One poll step. The first poll flips the flag, reports pending and asks
    /// for an immediate re-wake; every later poll reports done and wakes
    /// nothing.
    pub fn poll(&mut self) -> (r: (bool, bool))
        ensures
            r.0 == old(self).yielded_once,
            r.1 == !old(self).yielded_once,
            final(self).yielded_once,
    {
        if self.yielded_once {
            (true, false)
        } else {
            self.yielded_once = true;
            (false, true)
        }
    }
}

/// A fresh single-shot suspension point: pending exactly once.
pub fn yield_now() -> (r: YieldFuture)
    ensures
        !r.yielded_once,
{
    YieldFuture { yielded_once: false }
}

} // verus!
