//! The supervisor's reconnect backoff: the delay starts at one second,
//! doubles on every failure, is capped at thirty seconds, and resets to one
//! second after a session that ended without error.
use vstd::prelude::*;

use crate::bytes::clone_bytes;
use crate::records::LogRecord;

verus! {

pub const BACKOFF_START_S: u64 = 1;

pub const BACKOFF_CAP_S: u64 = 30;

pub struct Backoff {
    /// The delay, in seconds, that the next failure will be answered with.
    pub delay_s: u64,
}

pub open spec fn backoff_wf(b: Backoff) -> bool {
    1 <= b.delay_s <= BACKOFF_CAP_S
}

/// The delay after the current one: doubled, capped at thirty seconds.
pub open spec fn next_delay(d: u64) -> u64 {
    if 2 * d <= BACKOFF_CAP_S {
        (2 * d) as u64
    } else {
        BACKOFF_CAP_S
    }
}

impl Backoff {
    pub fn new() -> (r: Self)
        ensures
            r.delay_s == BACKOFF_START_S,
            backoff_wf(r),
    {
        Backoff { delay_s: BACKOFF_START_S }
    }

    /// A session ended without error: the delay resets to one second.
    pub fn on_clean_end(&mut self)
        ensures
            final(self).delay_s == BACKOFF_START_S,
            backoff_wf(*final(self)),
    {
        self.delay_s = BACKOFF_START_S;
    }

    /// A session ended with `error`: returns the seconds to sleep now and
    /// the reconnect record to emit, then doubles the delay up to the cap.
    pub fn on_error(&mut self, error: &Vec<u8>) -> (r: (u64, LogRecord))
        requires
            backoff_wf(*old(self)),
        ensures
            r.0 == old(self).delay_s,
            r.1 matches LogRecord::Reconnect { error: e, backoff_s } && e@ == error@ && backoff_s
                == old(self).delay_s,
            final(self).delay_s == next_delay(old(self).delay_s),
            backoff_wf(*final(self)),
    {
        let sleep_s = self.delay_s;
        let rec = LogRecord::Reconnect { error: clone_bytes(error), backoff_s: sleep_s };
        self.delay_s = if self.delay_s <= BACKOFF_CAP_S / 2 {
            2 * self.delay_s
        } else {
            BACKOFF_CAP_S
        };
        (sleep_s, rec)
    }
}

/// Two raised to the `i`-th power.
pub open spec fn pow2(i: nat) -> nat
    decreases i,
{
    if i == 0 {
        1
    } else {
        2 * pow2((i - 1) as nat)
    }
}

/// The delay in force after `i` consecutive failures from a fresh backoff.
pub open spec fn delay_after(i: nat) -> u64
    decreases i,
{
    if i == 0 {
        BACKOFF_START_S
    } else {
        next_delay(delay_after((i - 1) as nat))
    }
}

/// The backoff law: after a streak of failures from a fresh start, the
/// `i`-th failure sleeps `min(2^i, 30)` seconds.
pub proof fn lemma_backoff_sequence(i: nat)
    ensures
        delay_after(i) == if pow2(i) <= BACKOFF_CAP_S {
            pow2(i) as u64
        } else {
            BACKOFF_CAP_S
        },
    decreases i,
{
    if i > 0 {
        lemma_backoff_sequence((i - 1) as nat);
    }
}

} // verus!
