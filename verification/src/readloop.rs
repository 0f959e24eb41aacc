//! Decision core of the periodic read loop. The surrounding program reads the
//! scale on a fixed cadence and feeds each outcome in here; the rule below
//! decides whether to publish the value, tolerate the failure and go on, or
//! stop for good. Only *consecutive* failures count: any success resets the
//! counter, and once the count reaches the configured bound the loop is over —
//! the sensor is taken for wedged or disconnected, a fatal condition.

use vstd::prelude::*;

verus! {

/// What one attempt of the loop observed: a successful read with its gram
/// value, or a failed one.
#[derive(Clone, Copy, Debug, PartialEq, Eq, Structural)]
pub enum ReadEvent {
    Success(i64),
    Failure,
}

/// What the loop is to do next: publish the value, try again after a
/// tolerated failure, or stop — the retry limit is exhausted.
#[derive(Clone, Copy, Debug, PartialEq, Eq, Structural)]
pub enum ReadDirective {
    Emit(i64),
    Retry,
    RetryLimitExceeded,
}

/// Consecutive-failure accounting: how many reads in a row have failed, and
/// the bound at which that becomes fatal. A bound of zero means no limit.
#[derive(Clone, Copy, Debug, PartialEq, Eq, Structural)]
pub struct ReadLoop {
    pub failures: u32,
    pub max_retries: u32,
}

/// The loop's decision rule. A success resets the counter and emits its
/// value. The failure that brings the count to `max_retries` is fatal; any
/// earlier one bumps the count (saturating) and directs a retry. With
/// `max_retries == 0` the count never reaches the bound: failures are
/// tolerated forever.
pub open spec fn step_spec(s: ReadLoop, ev: ReadEvent) -> (ReadLoop, ReadDirective) {
    match ev {
        ReadEvent::Success(g) => (
            (ReadLoop { failures: 0, max_retries: s.max_retries }),
            ReadDirective::Emit(g),
        ),
        ReadEvent::Failure => {
            if s.failures + 1 == s.max_retries {
                (s, ReadDirective::RetryLimitExceeded)
            } else {
                (
                    (ReadLoop {
                        failures: if s.failures < u32::MAX {
                            (s.failures + 1) as u32
                        } else {
                            u32::MAX
                        },
                        max_retries: s.max_retries,
                    }),
                    ReadDirective::Retry,
                )
            }
        },
    }
}

/// The state after `k` failures in a row from `s`.
pub open spec fn after_failures(s: ReadLoop, k: nat) -> ReadLoop
    decreases k,
{
    if k == 0 {
        s
    } else {
        step_spec(after_failures(s, (k - 1) as nat), ReadEvent::Failure).0
    }
}

/// Law of the retry limit: starting from a fresh counter, a source that fails
/// every read is retried on each of the first `max_retries - 1` failures —
/// never fewer — and the failure that makes the count reach `max_retries`
/// directs `RetryLimitExceeded` — never more. (A bound of zero never stops
/// the loop, so it is left out here.)
pub proof fn lemma_retry_limit_exact(s0: ReadLoop, k: nat)
    requires
        s0.failures == 0,
        s0.max_retries >= 1,
        k < s0.max_retries,
    ensures
        after_failures(s0, k).failures == k,
        after_failures(s0, k).max_retries == s0.max_retries,
        k + 1 < s0.max_retries ==> step_spec(after_failures(s0, k), ReadEvent::Failure).1
            == ReadDirective::Retry,
        k + 1 == s0.max_retries ==> step_spec(after_failures(s0, k), ReadEvent::Failure).1
            == ReadDirective::RetryLimitExceeded,
    decreases k,
{
    if k > 0 {
        lemma_retry_limit_exact(s0, (k - 1) as nat);
    }
}

impl ReadLoop {
    /// A fresh loop: no failures yet, stopping once `max_retries` reads in a
    /// row have failed (never, if that bound is zero).
    pub fn new(max_retries: u32) -> (r: ReadLoop)
        ensures
            r == (ReadLoop { failures: 0, max_retries }),
    {
        ReadLoop { failures: 0, max_retries }
    }

    /// Feeds one read outcome through the decision rule.
    pub fn step(&mut self, ev: ReadEvent) -> (d: ReadDirective)
        ensures
            (*final(self), d) == step_spec(*old(self), ev),
    {
        match ev {
            ReadEvent::Success(g) => {
                self.failures = 0;
                ReadDirective::Emit(g)
            },
            ReadEvent::Failure => {
                if self.failures < u32::MAX && self.failures + 1 == self.max_retries {
                    ReadDirective::RetryLimitExceeded
                } else {
                    if self.failures < u32::MAX {
                        self.failures = self.failures + 1;
                    }
                    ReadDirective::Retry
                }
            },
        }
    }
}

} // verus!
