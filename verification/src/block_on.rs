//! The blocking bridge's token slot.
//!
//! `block_on` drives one computation to completion on the calling operating
//! system thread without spinning: a single-slot wake channel is pre-seeded
//! with one token; the thread blocks receiving a token, polls the
//! computation, and loops until the poll reports done. The computation's wake
//! callback pushes a token back into the slot; pushing into a full slot is
//! dropped, so redundant wake-ups collapse into one.
//!
//! This module is the slot's logic; the real channel and the poll loop live
//! with the thread outside this crate.

use vstd::prelude::*;

verus! {

/// The single-slot wake channel of one blocking bridge.
pub struct BlockingBridge {
    pub token: bool,
}

impl BlockingBridge {
    /// A fresh bridge: the slot is pre-seeded with one token, so the very
    /// first receive goes through and the computation is polled at least
    /// once.
    pub fn new() -> (b: BlockingBridge)
        ensures
            b.token,
    {
        BlockingBridge { token: true }
    }

    /// The wake callback: put a token into the slot. A token already there
    /// is left alone — waking an already-woken bridge is a no-op, never a
    /// queue of stale wake-ups.
    pub fn send_token(&mut self)
        ensures
            final(self).token,
    {
        self.token = true;
    }

    /// The blocking receive, as one step: it completes only when a token is
    /// there, and takes it. A thread that calls this with an empty slot stays
    /// blocked until some wake callback sends a token.
    pub fn recv_token(&mut self)
        requires
            old(self).token,
        ensures
            !final(self).token,
    {
        self.token = false;
    }
}

} // verus!
