use vstd::prelude::*;

verus! {

/// Consecutive failed connections after which a feed gives up.
pub const MAX_RETRIES: u32 = 20;

/// Longest pause between two connection attempts, in seconds.
pub const MAX_BACKOFF_SECS: u64 = 60;

/// The pause, in seconds, before the next attempt after `failures`
/// consecutive failed connections: 1 second, doubled after each failure,
/// never above `MAX_BACKOFF_SECS`.
pub open spec fn backoff_after(failures: nat) -> nat
    decreases failures,
{
    if failures == 0 {
        1
    } else {
        let doubled = 2 * backoff_after((failures - 1) as nat);
        if doubled < 60 {
            doubled
        } else {
            60
        }
    }
}

/// What a feed does after a connection attempt ended.
#[derive(Debug, Clone, Copy, PartialEq, Eq, Structural)]
pub enum ReconnectStep {
    /// The stream ended normally: stop with success.
    Finish,
    /// Too many consecutive failures: stop with an error.
    GiveUp,
    /// Wait this many seconds, then connect again.
    RetryAfter(u64),
}

/// Reconnection state of a websocket feed.
pub struct ReconnectPolicy {
    backoff_secs: u64,
    retries: u32,
}

impl ReconnectPolicy {
    /// Failed attempts so far.
    pub closed spec fn failures(&self) -> nat {
        self.retries as nat
    }

    /// Pause before the next attempt, in seconds.
    pub closed spec fn backoff(&self) -> nat {
        self.backoff_secs as nat
    }

    /// The pause matches the number of failures, and the feed has not given
    /// up yet.
    pub closed spec fn wf(&self) -> bool {
        &&& self.backoff_secs == backoff_after(self.retries as nat)
        &&& self.retries <= MAX_RETRIES
    }

    pub fn new() -> (p: Self)
        ensures
            p.wf(),
            p.failures() == 0,
            p.backoff() == 1,
    {
        ReconnectPolicy { backoff_secs: 1, retries: 0 }
    }

    /// Decides what follows a connection attempt that ended normally
    /// (`ended_ok`) or with an error.
    pub fn on_attempt_end(&mut self, ended_ok: bool) -> (step: ReconnectStep)
        requires
            old(self).wf(),
        ensures
            ended_ok ==> step == ReconnectStep::Finish && *final(self) == *old(self),
            !ended_ok ==> final(self).failures() == old(self).failures() + 1,
            !ended_ok && old(self).failures() + 1 > MAX_RETRIES ==> step == ReconnectStep::GiveUp,
            !ended_ok && old(self).failures() + 1 <= MAX_RETRIES ==> step == ReconnectStep::RetryAfter(
                old(self).backoff() as u64,
            ) && final(self).wf() && final(self).backoff() == backoff_after(final(self).failures()),
    {
        if ended_ok {
            return ReconnectStep::Finish;
        }
        self.retries = self.retries + 1;
        if self.retries > MAX_RETRIES {
            return ReconnectStep::GiveUp;
        }
        let pause = self.backoff_secs;
        proof {
            lemma_backoff_bounds(old(self).retries as nat);
        }
        let doubled = self.backoff_secs * 2;
        self.backoff_secs = if doubled < MAX_BACKOFF_SECS {
            doubled
        } else {
            MAX_BACKOFF_SECS
        };
        ReconnectStep::RetryAfter(pause)
    }
}

/// The pause is between 1 and 60 seconds.
pub proof fn lemma_backoff_bounds(failures: nat)
    ensures
        1 <= backoff_after(failures) <= 60,
    decreases failures,
{
    if failures > 0 {
        lemma_backoff_bounds((failures - 1) as nat);
    }
}

/// The pause after `failures` failures is `min(2^failures, 60)` seconds.
pub proof fn law_backoff_doubles_until_cap(failures: nat)
    ensures
        backoff_after(failures) == if vstd::arithmetic::power2::pow2(failures) < 60 {
            vstd::arithmetic::power2::pow2(failures)
        } else {
            60
        },
    decreases failures,
{
    if failures == 0 {
        vstd::arithmetic::power2::lemma2_to64();
    } else {
        law_backoff_doubles_until_cap((failures - 1) as nat);
        vstd::arithmetic::power2::lemma_pow2_unfold(failures);
    }
}

} // verus!
