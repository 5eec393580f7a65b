//! The resilience wrapper as a state machine. Whoever owns the session performs
//! each requested action (check for the re-authentication overlay, recover from
//! it, run the guarded operation, wait) and feeds back what came of it; the
//! machine decides what happens next and when to give up.
use vstd::prelude::*;
use crate::text::{contains_seq, contains_str};

verus! {

/// Seconds to wait after a successful recovery before going on.
pub const RECOVERY_SETTLE_SECS: u64 = 2;

/// Seconds to wait after a failed attempt before the next one.
pub const BACKOFF_SECS: u64 = 2;

/// Seconds to wait after a recovery that did not clear the overlay.
pub const FAILED_RECOVERY_SECS: u64 = 1;

/// Error text that marks an interaction the overlay intercepted.
pub open spec fn is_interference(msg: Seq<char>) -> bool {
    contains_seq(msg, "neos-ReloginDialog"@) || contains_seq(msg, "element click intercepted"@)
        || contains_seq(msg, "ElementClickInterceptedError"@)
}

/// Whether an operation's error text says that the re-authentication overlay
/// intercepted it.
pub fn is_overlay_interference(msg: &str) -> (r: bool)
    ensures
        r == is_interference(msg@),
{
    contains_str(msg, "neos-ReloginDialog") || contains_str(msg, "element click intercepted")
        || contains_str(msg, "ElementClickInterceptedError")
}

/// Why the wrapper gave up.
#[derive(Debug, Clone)]
pub enum RetryFailure {
    /// The overlay was present and recovery ran but did not clear it.
    RecoveryFailed,
    /// The overlay was present and recovery itself failed with this error.
    RecoveryError(String),
    /// The operation's last attempt failed with this error.
    Operation(String),
}

/// Where to go once a wait is over.
#[derive(Debug, Clone, Copy, PartialEq, Eq, Structural)]
pub enum Resume {
    /// Run the operation within the current attempt.
    Run,
    /// Start the next attempt.
    NextAttempt,
}

/// What the machine waits for, which is also what it asks to be done.
#[derive(Debug, Clone)]
pub enum Stage {
    /// Check whether the overlay is present.
    CheckOverlay,
    /// The overlay was seen before running: recover from it.
    RecoverBefore,
    /// Run the operation.
    Run,
    /// The operation was intercepted by the overlay: recover from it.
    RecoverAfter,
    /// Wait this many seconds, then resume.
    Settle { secs: u64, resume: Resume },
    /// The operation succeeded.
    Succeeded,
    /// The wrapper gave up.
    Failed(RetryFailure),
}

/// What came of the action the machine asked for.
#[derive(Debug)]
pub enum RetryEvent {
    /// The overlay check: whether it is present.
    OverlayChecked(bool),
    /// Recovery: `Ok(true)` when it cleared the overlay, `Ok(false)` when the
    /// overlay is still there, `Err` when recovery itself failed.
    Recovered(Result<bool, String>),
    /// The operation: its success, or its error text.
    Ran(Result<(), String>),
    /// The wait is over.
    Waited,
}

/// The resilience wrapper's state for one guarded operation.
#[derive(Debug, Clone)]
pub struct RetryMachine {
    /// Attempts after the first that may still be made, in all.
    pub max_retries: usize,
    /// The current attempt, counted from 0.
    pub attempt: usize,
    pub stage: Stage,
}

impl RetryMachine {
    /// Attempts stay within the budget, and a next attempt is only ever
    /// pending while one remains.
    pub open spec fn wf(self) -> bool {
        &&& self.attempt <= self.max_retries
        &&& (self.stage matches Stage::Settle { resume: Resume::NextAttempt, .. } ==> self.attempt
            < self.max_retries)
        &&& (self.stage is RecoverAfter ==> self.attempt < self.max_retries)
    }

    pub open spec fn is_finished(self) -> bool {
        self.stage is Succeeded || self.stage is Failed
    }

    /// The state after starting the next attempt, or giving up with `why`
    /// when none remains, after a failure.
    pub open spec fn after_failure(self, secs: u64, why: RetryFailure) -> RetryMachine {
        if self.attempt < self.max_retries {
            RetryMachine {
                stage: Stage::Settle { secs, resume: Resume::NextAttempt },
                ..self
            }
        } else {
            RetryMachine { stage: Stage::Failed(why), ..self }
        }
    }

    /// The machine's transitions. An event that does not answer the pending
    /// stage changes nothing.
    pub open spec fn transition(self, ev: RetryEvent) -> RetryMachine {
        match (self.stage, ev) {
            (Stage::CheckOverlay, RetryEvent::OverlayChecked(present)) => if present {
                RetryMachine { stage: Stage::RecoverBefore, ..self }
            } else {
                RetryMachine { stage: Stage::Run, ..self }
            },
            (Stage::RecoverBefore, RetryEvent::Recovered(outcome)) => match outcome {
                Ok(true) => RetryMachine {
                    stage: Stage::Settle { secs: RECOVERY_SETTLE_SECS, resume: Resume::Run },
                    ..self
                },
                Ok(false) => self.after_failure(BACKOFF_SECS, RetryFailure::RecoveryFailed),
                Err(e) => self.after_failure(BACKOFF_SECS, RetryFailure::RecoveryError(e)),
            },
            (Stage::Run, RetryEvent::Ran(outcome)) => match outcome {
                Ok(()) => RetryMachine { stage: Stage::Succeeded, ..self },
                Err(e) => if is_interference(e@) && self.attempt < self.max_retries {
                    RetryMachine { stage: Stage::RecoverAfter, ..self }
                } else {
                    self.after_failure(BACKOFF_SECS, RetryFailure::Operation(e))
                },
            },
            (Stage::RecoverAfter, RetryEvent::Recovered(outcome)) => RetryMachine {
                stage: Stage::Settle {
                    secs: if outcome == Ok::<bool, String>(true) {
                        RECOVERY_SETTLE_SECS
                    } else {
                        FAILED_RECOVERY_SECS
                    },
                    resume: Resume::NextAttempt,
                },
                ..self
            },
            (Stage::Settle { resume, .. }, RetryEvent::Waited) => match resume {
                Resume::Run => RetryMachine { stage: Stage::Run, ..self },
                Resume::NextAttempt => RetryMachine {
                    attempt: (self.attempt + 1) as usize,
                    stage: Stage::CheckOverlay,
                    ..self
                },
            },
            _ => self,
        }
    }

    /// A machine for one operation that may be retried `max_retries` times
    /// after its first attempt. It first asks for the overlay check.
    pub fn new(max_retries: usize) -> (r: RetryMachine)
        ensures
            r.wf(),
            r.max_retries == max_retries,
            r.attempt == 0,
            r.stage is CheckOverlay,
    {
        RetryMachine { max_retries, attempt: 0, stage: Stage::CheckOverlay }
    }

    fn fail_or_retry(&mut self, secs: u64, why: RetryFailure)
        requires
            old(self).wf(),
        ensures
            *final(self) == old(self).after_failure(secs, why),
    {
        if self.attempt < self.max_retries {
            self.stage = Stage::Settle { secs, resume: Resume::NextAttempt };
        } else {
            self.stage = Stage::Failed(why);
        }
    }

    /// Feeds back what came of the pending action.
    pub fn step(&mut self, ev: RetryEvent)
        requires
            old(self).wf(),
        ensures
            *final(self) == old(self).transition(ev),
            final(self).wf(),
            final(self).max_retries == old(self).max_retries,
            final(self).attempt == old(self).attempt || (final(self).attempt == old(self).attempt
                + 1 && old(self).attempt < old(self).max_retries),
    {
        match (&self.stage, ev) {
            (Stage::CheckOverlay, RetryEvent::OverlayChecked(present)) => {
                self.stage = if present {
                    Stage::RecoverBefore
                } else {
                    Stage::Run
                };
            },
            (Stage::RecoverBefore, RetryEvent::Recovered(outcome)) => match outcome {
                Ok(true) => {
                    self.stage = Stage::Settle { secs: RECOVERY_SETTLE_SECS, resume: Resume::Run };
                },
                Ok(false) => self.fail_or_retry(BACKOFF_SECS, RetryFailure::RecoveryFailed),
                Err(e) => self.fail_or_retry(BACKOFF_SECS, RetryFailure::RecoveryError(e)),
            },
            (Stage::Run, RetryEvent::Ran(outcome)) => match outcome {
                Ok(()) => {
                    self.stage = Stage::Succeeded;
                },
                Err(e) => {
                    if is_overlay_interference(e.as_str()) && self.attempt < self.max_retries {
                        self.stage = Stage::RecoverAfter;
                    } else {
                        self.fail_or_retry(BACKOFF_SECS, RetryFailure::Operation(e));
                    }
                },
            },
            (Stage::RecoverAfter, RetryEvent::Recovered(outcome)) => {
                let cleared = match outcome {
                    Ok(b) => b,
                    Err(_) => false,
                };
                let secs = if cleared {
                    RECOVERY_SETTLE_SECS
                } else {
                    FAILED_RECOVERY_SECS
                };
                self.stage = Stage::Settle { secs, resume: Resume::NextAttempt };
            },
            (Stage::Settle { resume, .. }, RetryEvent::Waited) => match resume {
                Resume::Run => {
                    self.stage = Stage::Run;
                },
                Resume::NextAttempt => {
                    self.attempt = self.attempt + 1;
                    self.stage = Stage::CheckOverlay;
                },
            },
            _ => {},
        }
    }
}

} // verus!
