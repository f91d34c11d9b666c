//! What a monitoring loop does when its event stream breaks: subscribe again
//! after a growing pause, and give up after a set number of failures in a
//! row.

use vstd::arithmetic::power2::{lemma_pow2_strictly_increases, lemma_pow2_unfold, pow2};
use vstd::prelude::*;

verus! {

/// What a loop is to do after its stream has failed.
#[derive(Clone, Copy, Debug, PartialEq, Eq, Structural)]
pub enum Recovery {
    /// Wait this long, then subscribe again.
    RetryAfter { delay_ms: u64 },
    /// End the loop and report the failure.
    GiveUp,
}

/// The pause before the retry that follows `failures` failures in a row: the
/// base pause doubled once per failure, capped at `max_ms`.
pub open spec fn pause_after(base_ms: u64, max_ms: u64, failures: nat) -> u64 {
    if base_ms * pow2(failures) >= max_ms {
        max_ms
    } else {
        (base_ms * pow2(failures)) as u64
    }
}

/// What follows a failure when `failures` failures have gone before it.
pub open spec fn recovery_after(
    failures: u32,
    max_retries: u32,
    base_ms: u64,
    max_ms: u64,
) -> Recovery {
    if failures >= max_retries {
        Recovery::GiveUp
    } else {
        Recovery::RetryAfter { delay_ms: pause_after(base_ms, max_ms, failures as nat) }
    }
}

/// Counts the failures of one loop's stream and says how to recover.
#[derive(Clone, Copy, Debug)]
pub struct LoopSupervisor {
    failures: u32,
    max_retries: u32,
    base_delay_ms: u64,
    max_delay_ms: u64,
}

impl LoopSupervisor {
    /// Failures in a row so far.
    pub closed spec fn failures(&self) -> u32 {
        self.failures
    }

    /// After how many failures in a row the loop gives up.
    pub closed spec fn max_retries(&self) -> u32 {
        self.max_retries
    }

    /// The pause before the first retry.
    pub closed spec fn base_delay_ms(&self) -> u64 {
        self.base_delay_ms
    }

    /// The longest pause.
    pub closed spec fn max_delay_ms(&self) -> u64 {
        self.max_delay_ms
    }

    /// A supervisor that has seen no failure.
    pub fn new(max_retries: u32, base_delay_ms: u64, max_delay_ms: u64) -> (r: LoopSupervisor)
        ensures
            r.failures() == 0,
            r.max_retries() == max_retries,
            r.base_delay_ms() == base_delay_ms,
            r.max_delay_ms() == max_delay_ms,
    {
        LoopSupervisor { failures: 0, max_retries, base_delay_ms, max_delay_ms }
    }

    /// The stream delivered an event: earlier failures no longer count.
    pub fn on_success(&mut self)
        ensures
            final(self).failures() == 0,
            final(self).max_retries() == old(self).max_retries(),
            final(self).base_delay_ms() == old(self).base_delay_ms(),
            final(self).max_delay_ms() == old(self).max_delay_ms(),
    {
        self.failures = 0;
    }

    /// The stream failed. Says how long to wait before subscribing again, or
    /// to give up where `max_retries` failures in a row have gone before.
    pub fn on_failure(&mut self) -> (r: Recovery)
        ensures
            r == recovery_after(
                old(self).failures(),
                old(self).max_retries(),
                old(self).base_delay_ms(),
                old(self).max_delay_ms(),
            ),
            final(self).failures() == if r == Recovery::GiveUp {
                old(self).failures()
            } else {
                (old(self).failures() + 1) as u32
            },
            final(self).max_retries() == old(self).max_retries(),
            final(self).base_delay_ms() == old(self).base_delay_ms(),
            final(self).max_delay_ms() == old(self).max_delay_ms(),
    {
        if self.failures >= self.max_retries {
            return Recovery::GiveUp;
        }
        let delay_ms = pause(self.base_delay_ms, self.max_delay_ms, self.failures);
        self.failures = self.failures + 1;
        Recovery::RetryAfter { delay_ms }
    }
}

/// The pause before the retry that follows `failures` failures in a row.
pub fn pause(base_ms: u64, max_ms: u64, failures: u32) -> (r: u64)
    ensures
        r == pause_after(base_ms, max_ms, failures as nat),
{
    let mut delay: u64 = if base_ms >= max_ms {
        max_ms
    } else {
        base_ms
    };
    let mut i: u32 = 0;
    proof {
        lemma_pow2_unfold(1);
        vstd::arithmetic::power2::lemma2_to64();
    }
    while i < failures && delay < max_ms
        invariant
            i <= failures,
            delay == pause_after(base_ms, max_ms, i as nat),
        decreases failures - i,
    {
        proof {
            lemma_pow2_unfold((i + 1) as nat);
            assert(base_ms * pow2((i + 1) as nat) == 2 * (base_ms * pow2(i as nat))) by (nonlinear_arith)
                requires
                    pow2((i + 1) as nat) == 2 * pow2(i as nat),
            ;
        }
        delay = if delay >= max_ms - delay {
            max_ms
        } else {
            delay + delay
        };
        i += 1;
    }
    proof {
        if i < failures {
            lemma_pow2_strictly_increases(i as nat, failures as nat);
            assert(base_ms * pow2(i as nat) <= base_ms * pow2(failures as nat)) by (nonlinear_arith)
                requires
                    pow2(i as nat) <= pow2(failures as nat),
            ;
        }
    }
    delay
}

} // verus!
