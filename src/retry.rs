//! Bounded-retry acquisition: the rule that turns a non-blocking lock
//! attempt into one that waits at most a given time.
use vstd::prelude::*;

verus! {

/// How long an acquisition may take, and how long to pause between attempts.
#[derive(Debug, Clone, Copy, PartialEq, Eq, Structural)]
pub struct RetryPolicy {
    pub timeout_ms: u64,
    pub poll_ms: u64,
}

/// What to do after one lock attempt.
#[derive(Debug, Clone, Copy, PartialEq, Eq, Structural)]
pub enum RetryDecision {
    /// The attempt got the lock.
    Granted,
    /// The lock was busy and time is left: pause this long, then try again.
    Wait(u64),
    /// The lock was busy and the time is up.
    TimedOut,
}

impl RetryPolicy {
    /// The decision after an attempt that did (`acquired`) or did not get
    /// the lock, `elapsed_ms` after the acquisition began.
    pub open spec fn decision(self, acquired: bool, elapsed_ms: u64) -> RetryDecision {
        if acquired {
            RetryDecision::Granted
        } else if elapsed_ms >= self.timeout_ms {
            RetryDecision::TimedOut
        } else {
            RetryDecision::Wait(self.poll_ms)
        }
    }

    /// A policy that waits at most `timeout_ms` and polls every `poll_ms`.
    pub fn new(timeout_ms: u64, poll_ms: u64) -> (p: RetryPolicy)
        ensures
            p.timeout_ms == timeout_ms,
            p.poll_ms == poll_ms,
    {
        RetryPolicy { timeout_ms, poll_ms }
    }

    /// Decides what follows one lock attempt.
    pub fn decide(&self, acquired: bool, elapsed_ms: u64) -> (d: RetryDecision)
        ensures
            d == self.decision(acquired, elapsed_ms),
    {
        if acquired {
            RetryDecision::Granted
        } else if elapsed_ms >= self.timeout_ms {
            RetryDecision::TimedOut
        } else {
            RetryDecision::Wait(self.poll_ms)
        }
    }
}

/// `times` are the moments, measured from the start of an acquisition, of
/// its successive attempts: the first is made at once, each one but the
/// last was told to wait, and each next attempt comes at most one polling
/// interval after the one before.
pub open spec fn retry_trace(p: RetryPolicy, times: Seq<u64>) -> bool {
    &&& times.len() > 0
    &&& times[0] == 0
    &&& forall|i: int|
        0 <= i < times.len() - 1 ==> #[trigger] p.decision(false, times[i]) is Wait
    &&& forall|i: int|
        0 <= i < times.len() - 1 ==> times[i + 1] <= #[trigger] times[i] + p.poll_ms
}

/// Bounded wait: an acquisition returns at most one polling interval after
/// its timeout, whatever the contention; with a zero timeout it makes a
/// single attempt.
pub proof fn lemma_bounded_wait(p: RetryPolicy, times: Seq<u64>)
    requires
        retry_trace(p, times),
    ensures
        times.last() <= p.timeout_ms + p.poll_ms,
        p.timeout_ms == 0 ==> times.len() == 1,
{
    let n = times.len();
    if n > 1 {
        assert(p.decision(false, times[n - 2]) is Wait);
        assert(times[n - 1] <= times[n - 2] + p.poll_ms);
    }
    if p.timeout_ms == 0 && n > 1 {
        assert(p.decision(false, times[0]) is Wait);
    }
}

/// Where each pause lasts at least one polling interval and that interval
/// is positive, an acquisition makes at most `timeout / poll + 2` attempts:
/// it never retries forever.
pub proof fn lemma_attempts_bounded(p: RetryPolicy, times: Seq<u64>)
    requires
        retry_trace(p, times),
        p.poll_ms > 0,
        forall|i: int| 0 <= i < times.len() - 1 ==> times[i] + p.poll_ms <= #[trigger] times[i + 1],
    ensures
        times.len() <= p.timeout_ms / p.poll_ms + 2,
{
    let n = times.len();
    if n > 1 {
        let k = n - 2;
        assert forall|i: int| 0 <= i <= k implies times[i] >= i * p.poll_ms by {
            lemma_grows(p, times, i);
        }
        assert(times[k] >= k * p.poll_ms);
        assert(p.decision(false, times[k]) is Wait);
        assert(times[k] < p.timeout_ms);
        assert(k * p.poll_ms < p.timeout_ms);
        assert(k <= p.timeout_ms / p.poll_ms) by (nonlinear_arith)
            requires
                k * p.poll_ms < p.timeout_ms,
                p.poll_ms > 0,
                k >= 0,
        {
            if k > p.timeout_ms / p.poll_ms {
                assert(k >= p.timeout_ms / p.poll_ms + 1);
                assert(k * p.poll_ms >= (p.timeout_ms / p.poll_ms + 1) * p.poll_ms);
                assert((p.timeout_ms / p.poll_ms + 1) * p.poll_ms > p.timeout_ms);
            }
        }
    }
}

proof fn lemma_grows(p: RetryPolicy, times: Seq<u64>, i: int)
    requires
        times.len() > 0,
        times[0] == 0,
        0 <= i < times.len(),
        forall|j: int| 0 <= j < times.len() - 1 ==> times[j] + p.poll_ms <= #[trigger] times[j + 1],
    ensures
        times[i] >= i * p.poll_ms,
    decreases i,
{
    if i > 0 {
        lemma_grows(p, times, i - 1);
        let j = i - 1;
        assert(times[j] + p.poll_ms <= times[j + 1]);
        assert(i * p.poll_ms == (i - 1) * p.poll_ms + p.poll_ms) by (nonlinear_arith);
    }
}

} // verus!
