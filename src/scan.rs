//! The retry policy of the scan pool: what to do after each attempt of an
//! initial scan.
use crate::backoff::{backoff_for_start_observe, backoff_secs, TRY_START_OBSERVE_MAX_RETRY_TIME};
use crate::error::{is_retryable, should_retry, Error};
use vstd::prelude::*;

verus! {

/// What follows one attempt of an initial scan.
#[derive(Clone, Copy, Debug, PartialEq, Eq, Structural)]
pub enum ScanStep {
    /// The scan succeeded: release the barrier token.
    Finished,
    /// The scan failed in a way that a retry cannot mend (the region is gone,
    /// renamed or superseded): release the token.
    Abandoned,
    /// The scan failed transiently: sleep this many seconds and run it again.
    RetryAfter(u64),
    /// The retries are spent: report a fatal error for the region's key
    /// range, then release the token.
    Fatal,
}

/// The step after an attempt, given the failures before it and whether it
/// succeeded (`None`) or failed retryably or not (`Some(retryable)`).
pub open spec fn scan_step(failures_before: nat, failure: Option<bool>) -> ScanStep {
    match failure {
        None => ScanStep::Finished,
        Some(false) => ScanStep::Abandoned,
        Some(true) => if failures_before + 1 < TRY_START_OBSERVE_MAX_RETRY_TIME {
            ScanStep::RetryAfter(backoff_secs(failures_before) as u64)
        } else {
            ScanStep::Fatal
        },
    }
}

pub open spec fn failure_of(outcome: Result<(), Error>) -> Option<bool> {
    match outcome {
        Ok(_) => None,
        Err(e) => Some(is_retryable(e)),
    }
}

/// The attempts of one scan command so far.
#[derive(Debug)]
pub struct ScanAttempts {
    failures: u8,
    done: bool,
}

impl ScanAttempts {
    pub closed spec fn failures(&self) -> nat {
        self.failures as nat
    }

    /// No step follows: the command finished, was abandoned or was fatal.
    pub closed spec fn is_done(&self) -> bool {
        self.done
    }

    pub closed spec fn wf(&self) -> bool {
        self.failures < TRY_START_OBSERVE_MAX_RETRY_TIME
    }

    pub fn new() -> (r: ScanAttempts)
        ensures
            r.wf(),
            r.failures() == 0,
            !r.is_done(),
    {
        ScanAttempts { failures: 0, done: false }
    }

    /// Whether no step follows.
    pub fn done(&self) -> (r: bool)
        ensures
            r == self.is_done(),
    {
        self.done
    }

    /// Records the outcome of an attempt and says what follows it.
    pub fn on_outcome(&mut self, outcome: &Result<(), Error>) -> (r: ScanStep)
        requires
            old(self).wf(),
            !old(self).is_done(),
        ensures
            final(self).wf(),
            r == scan_step(old(self).failures(), failure_of(*outcome)),
            final(self).is_done() == !(r is RetryAfter),
            r is RetryAfter ==> final(self).failures() == old(self).failures() + 1,
    {
        match outcome {
            Ok(_) => {
                self.done = true;
                ScanStep::Finished
            },
            Err(err) => {
                if !should_retry(err) {
                    self.done = true;
                    ScanStep::Abandoned
                } else if self.failures + 1 < TRY_START_OBSERVE_MAX_RETRY_TIME {
                    let delay = backoff_for_start_observe(self.failures);
                    self.failures = self.failures + 1;
                    ScanStep::RetryAfter(delay)
                } else {
                    self.done = true;
                    ScanStep::Fatal
                }
            },
        }
    }
}

/// The steps that follow `n` retryable failures in a row of a fresh command.
pub open spec fn steps_after_failures(n: nat) -> Seq<ScanStep> {
    Seq::new(n, |i: int| scan_step(i as nat, Some(true)))
}

/// After as many retryable failures in a row as the retry budget allows,
/// every failure but the last is retried after the backoff of its count, the
/// last one is fatal, and nothing follows it.
pub proof fn lemma_scan_exhaustion()
    ensures
        ({
            let steps = steps_after_failures(TRY_START_OBSERVE_MAX_RETRY_TIME as nat);
            &&& forall|i: int|
                0 <= i < TRY_START_OBSERVE_MAX_RETRY_TIME - 1 ==> steps[i] == ScanStep::RetryAfter(
                    backoff_secs(i as nat) as u64,
                )
            &&& steps.last() == ScanStep::Fatal
        }),
{
}

} // verus!
