//! Reconnect supervision.
//!
//! The supervisor keeps a connection alive indefinitely, recreating the
//! signaling channel and the connection session after any terminal outcome
//! until told to stop.  Before each attempt it sleeps a backoff that grows
//! half a second per failed attempt up to five seconds; a successful relay
//! connection resets the count.

use vstd::prelude::*;

verus! {

/// Backoff growth per failed attempt, in milliseconds.
pub const BACKOFF_STEP_MILLIS: u64 = 500;

/// Backoff ceiling, in milliseconds.
pub const BACKOFF_MAX_MILLIS: u64 = 5000;

/// The sleep before a given attempt: half a second per previous attempt,
/// capped at five seconds.
pub open spec fn spec_backoff_millis(attempt: int) -> int {
    if attempt * BACKOFF_STEP_MILLIS <= BACKOFF_MAX_MILLIS {
        attempt * BACKOFF_STEP_MILLIS
    } else {
        BACKOFF_MAX_MILLIS as int
    }
}

/// What the shell does next on the supervisor's behalf.
#[derive(PartialEq, Eq, Debug)]
pub enum SupervisorAction {
    /// Sleep this long, then open a fresh relay connection.
    SleepThenConnect { millis: u64 },
    /// Stop reconnecting and shut down.
    Exit,
}

/// Reconnect state: how many attempts have failed in a row, and whether an
/// external stop has been seen.
pub struct Supervisor {
    pub attempt: u64,
    pub stopping: bool,
}

impl Supervisor {
    pub fn new() -> (r: Self)
        ensures
            r.attempt == 0,
            !r.stopping,
    {
        Supervisor { attempt: 0, stopping: false }
    }

    /// Decide the next step: exit when stopping, otherwise sleep the backoff
    /// for this attempt and count it.
    pub fn next_attempt(&mut self) -> (a: SupervisorAction)
        requires
            old(self).attempt < 0xffff_ffff_ffff_ffff,
        ensures
            final(self).stopping == old(self).stopping,
            old(self).stopping ==> a == SupervisorAction::Exit && *final(self) == *old(self),
            !old(self).stopping ==> a == (SupervisorAction::SleepThenConnect {
                millis: spec_backoff_millis(old(self).attempt as int) as u64,
            }) && final(self).attempt == old(self).attempt + 1,
    {
        if self.stopping {
            SupervisorAction::Exit
        } else {
            let millis: u64 = if self.attempt >= 10 {
                BACKOFF_MAX_MILLIS
            } else {
                self.attempt * BACKOFF_STEP_MILLIS
            };
            self.attempt = self.attempt + 1;
            SupervisorAction::SleepThenConnect { millis }
        }
    }

    /// The relay accepted the connection: the backoff starts over.
    pub fn on_relay_connected(&mut self)
        ensures
            final(self).attempt == 0,
            final(self).stopping == old(self).stopping,
    {
        self.attempt = 0;
    }

    /// A session ended: a stop outcome ends the loop, a disconnect retries.
    pub fn on_session_ended(&mut self, stopped: bool)
        ensures
            final(self).stopping == (old(self).stopping || stopped),
            final(self).attempt == old(self).attempt,
    {
        if stopped {
            self.stopping = true;
        }
    }

    /// An external stop request ends the loop at the next decision.
    pub fn on_stop_requested(&mut self)
        ensures
            final(self).stopping,
            final(self).attempt == old(self).attempt,
    {
        self.stopping = true;
    }
}

/// The backoff of the first attempts: nothing, then half a second, then a
/// whole one, growing to the ceiling and never beyond it.
pub proof fn lemma_backoff_schedule()
    ensures
        spec_backoff_millis(0) == 0,
        spec_backoff_millis(1) == 500,
        spec_backoff_millis(2) == 1000,
        forall|a: int| 0 <= a ==> spec_backoff_millis(a) <= BACKOFF_MAX_MILLIS,
        forall|a: int| 10 <= a ==> spec_backoff_millis(a) == BACKOFF_MAX_MILLIS,
{
    assert forall|a: int| 0 <= a implies spec_backoff_millis(a) <= BACKOFF_MAX_MILLIS by {
        if a * BACKOFF_STEP_MILLIS <= BACKOFF_MAX_MILLIS {
        }
    }
    assert forall|a: int| 10 <= a implies spec_backoff_millis(a) == BACKOFF_MAX_MILLIS by {
        vstd::arithmetic::mul::lemma_mul_inequality(10, a, BACKOFF_STEP_MILLIS as int);
    }
}

} // verus!
