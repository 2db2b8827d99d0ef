use vstd::prelude::*;

use crate::events::{Metric, MetricEvent, Update};
use crate::protocol::{label_of, type_label, ProtocolKind};
use crate::supervisor::SessionError;
use crate::text::Ratio;

verus! {

/// What asking the subprocess for its exit status gave.
#[derive(Clone, Copy, Debug, PartialEq, Eq, Structural)]
pub enum ExitCheck {
    /// It has not exited yet.
    StillRunning,
    /// It exited, with its code; `None` when a signal ended it.
    Exited(Option<i32>),
    /// The status could not be asked for.
    Failed,
}

/// What the coordinating loop of a session does after one poll.
#[derive(Clone, Copy, Debug, PartialEq, Eq, Structural)]
pub enum PollDecision {
    /// Sleep one polling interval and poll again.
    Continue,
    /// The session is over: kill the subprocess when `kill` is set, and report `error`, or
    /// success when there is none.
    End { kill: bool, error: Option<SessionError> },
}

/// One poll, in order: a worker's error, then the exit status, then the stop flag.
pub open spec fn poll_spec(first_error: Option<SessionError>, exit: ExitCheck, stop: bool) -> PollDecision {
    match first_error {
        Some(e) => PollDecision::End { kill: true, error: Some(e) },
        None => match exit {
            ExitCheck::Exited(Some(code)) => if code == 0 {
                PollDecision::End { kill: false, error: None }
            } else {
                PollDecision::End { kill: false, error: Some(SessionError::ProcessExit(code)) }
            },
            ExitCheck::Exited(None) => PollDecision::End {
                kill: false,
                error: Some(SessionError::ProcessExit(-1i32)),
            },
            ExitCheck::Failed => PollDecision::End { kill: false, error: Some(SessionError::Wait) },
            ExitCheck::StillRunning => if stop {
                PollDecision::End { kill: true, error: None }
            } else {
                PollDecision::Continue
            },
        },
    }
}

/// Decides one poll of a running session from the first error a worker reported, the exit
/// status, and the stop flag.
pub fn poll(first_error: Option<SessionError>, exit: ExitCheck, stop: bool) -> (r: PollDecision)
    ensures
        r == poll_spec(first_error, exit, stop),
{
    match first_error {
        Some(e) => PollDecision::End { kill: true, error: Some(e) },
        None => match exit {
            ExitCheck::Exited(Some(code)) => if code == 0 {
                PollDecision::End { kill: false, error: None }
            } else {
                PollDecision::End { kill: false, error: Some(SessionError::ProcessExit(code)) }
            },
            ExitCheck::Exited(None) => PollDecision::End {
                kill: false,
                error: Some(SessionError::ProcessExit(-1)),
            },
            ExitCheck::Failed => PollDecision::End { kill: false, error: Some(SessionError::Wait) },
            ExitCheck::StillRunning => if stop {
                PollDecision::End { kill: true, error: None }
            } else {
                PollDecision::Continue
            },
        },
    }
}

/// The single slot that keeps the first error the workers of a session report.
#[derive(Debug)]
pub struct FirstError {
    pub first: Option<SessionError>,
}

impl FirstError {
    /// An empty slot.
    pub fn new() -> (r: FirstError)
        ensures
            r.first is None,
    {
        FirstError { first: None }
    }

    /// Offers `e`: kept when the slot is empty, dropped otherwise.
    pub fn offer(&mut self, e: SessionError)
        ensures
            final(self).first == match old(self).first {
                Some(f) => Some(f),
                None => Some(e),
            },
    {
        if self.first.is_none() {
            self.first = Some(e);
        }
    }
}

/// The uptime observation of a session that has run `secs` seconds.
pub fn uptime_event(kind: ProtocolKind, secs: u64) -> (r: MetricEvent)
    ensures
        r@ == (Metric::Uptime, seq![type_label(kind)], Update::SetTo(Ratio { num: secs, den: 1 })),
{
    MetricEvent::with1(
        Metric::Uptime,
        label_of(kind).to_string(),
        Update::SetTo(Ratio { num: secs, den: 1 }),
    )
}

} // verus!
