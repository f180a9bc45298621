//! Close intent of the signaling pump.
//!
//! Once the peer transport connects, the signaling channel is wound down
//! gracefully: the pump waits out a grace period so trailing ICE candidates
//! can still arrive, then sends the relay a close notice and hangs up.  An
//! immediate close (an external stop) must not be delayed by a pending
//! graceful close, so the intent is a single enum whose immediate variant
//! always wins, not two independent flags.

use vstd::prelude::*;

verus! {

/// How long a graceful close waits before hanging up, in nanoseconds.
pub const CLOSE_GRACE_NANOS: u128 = 10_000_000_000;

/// Timestamps fit in 64 bits, as everywhere in this crate.
pub const PUMP_TIME_BOUND: u128 = 0x1_0000_0000_0000_0000;

/// The pump's close intent.
#[derive(Clone, Copy, PartialEq, Eq, Structural, Debug)]
pub enum CloseIntent {
    /// Keep pumping.
    NoClose,
    /// Close once the grace deadline has passed.
    Graceful { deadline_nanos: u128 },
    /// Close at the first opportunity.
    Immediate,
}

/// A graceful request starts the grace clock unless a close is already
/// pending; it never weakens an immediate close.
pub open spec fn spec_request_graceful(c: CloseIntent, now: int) -> CloseIntent {
    match c {
        CloseIntent::NoClose => CloseIntent::Graceful {
            deadline_nanos: (now + CLOSE_GRACE_NANOS) as u128,
        },
        CloseIntent::Graceful { deadline_nanos } => CloseIntent::Graceful { deadline_nanos },
        CloseIntent::Immediate => CloseIntent::Immediate,
    }
}

/// An immediate request always wins.
pub open spec fn spec_request_immediate(c: CloseIntent) -> CloseIntent {
    CloseIntent::Immediate
}

/// Whether the pump must close the socket now.
pub open spec fn spec_should_close(c: CloseIntent, now: int) -> bool {
    match c {
        CloseIntent::NoClose => false,
        CloseIntent::Graceful { deadline_nanos } => now >= deadline_nanos,
        CloseIntent::Immediate => true,
    }
}

/// Close-intent state carried by the signaling pump.
pub struct ClosePolicy {
    pub intent: CloseIntent,
}

impl ClosePolicy {
    pub fn new() -> (r: Self)
        ensures
            r.intent == CloseIntent::NoClose,
    {
        ClosePolicy { intent: CloseIntent::NoClose }
    }

    /// The peer transport connected: wind the signaling channel down after
    /// the grace period.
    pub fn request_graceful(&mut self, now: u128)
        requires
            now < PUMP_TIME_BOUND,
        ensures
            final(self).intent == spec_request_graceful(old(self).intent, now as int),
    {
        match self.intent {
            CloseIntent::NoClose => {
                self.intent = CloseIntent::Graceful { deadline_nanos: now + CLOSE_GRACE_NANOS };
            },
            CloseIntent::Graceful { .. } => {
            },
            CloseIntent::Immediate => {
            },
        }
    }

    /// An external stop: close as soon as the pump looks, grace or no grace.
    pub fn request_immediate(&mut self)
        ensures
            final(self).intent == CloseIntent::Immediate,
    {
        self.intent = CloseIntent::Immediate;
    }

    /// Whether the pump must close the socket on this pass.
    pub fn should_close(&self, now: u128) -> (r: bool)
        ensures
            r == spec_should_close(self.intent, now as int),
    {
        match self.intent {
            CloseIntent::NoClose => false,
            CloseIntent::Graceful { deadline_nanos } => now >= deadline_nanos,
            CloseIntent::Immediate => true,
        }
    }
}

/// Close-intent precedence: when an immediate close follows a graceful one,
/// the socket closes at once — at any time, even well inside the grace
/// window — never after the grace delay.
pub proof fn lemma_immediate_overrides_graceful(c: CloseIntent, t_graceful: int, t_check: int)
    ensures
        spec_should_close(
            spec_request_immediate(spec_request_graceful(c, t_graceful)),
            t_check,
        ),
{
}

/// A graceful close alone really waits: starting from a quiet pump it closes
/// exactly once the grace period has elapsed.
pub proof fn lemma_graceful_waits_out_grace(t_graceful: int, t_check: int)
    requires
        0 <= t_graceful < PUMP_TIME_BOUND,
    ensures
        spec_should_close(
            spec_request_graceful(CloseIntent::NoClose, t_graceful),
            t_check,
        ) <==> t_check >= t_graceful + CLOSE_GRACE_NANOS,
{
}

} // verus!
