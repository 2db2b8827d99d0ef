use vstd::prelude::*;

use crate::events::{count_metric, emit, events_view, EventView, Metric, MetricEvent, Update};
use crate::protocol::{label_of, type_label, ProtocolKind};
use crate::text::Ratio;

verus! {

/// How long workers and waits sleep between two looks at the stop flag, in milliseconds.
pub const POLL_INTERVAL_MS: u64 = 100;

/// How many polling intervals the wait before a new attempt lasts.
pub const BACKOFF_TICKS: u32 = 100;

/// Why a session ended badly.
#[derive(Clone, Copy, Debug, PartialEq, Eq, Structural)]
pub enum SessionError {
    /// The executable is missing or the system refused to start it.
    Spawn,
    /// An output stream of the subprocess could not be captured.
    Capture,
    /// Reading an output stream failed.
    StreamRead,
    /// The subprocess exited with a non-zero code.
    ProcessExit(i32),
    /// The exit status of the subprocess could not be asked for.
    Wait,
}

/// The states of the supervisor.
#[derive(Clone, Copy, Debug, PartialEq, Eq, Structural)]
pub enum Phase {
    Idle,
    Spawning,
    Running,
    /// Waiting before a new attempt; the count of polling intervals waited so far.
    Backoff(u32),
    Stopped,
}

/// What happened since the last step.
#[derive(Clone, Copy, Debug, PartialEq, Eq, Structural)]
pub enum SupervisorEvent {
    /// Supervision begins.
    Start,
    /// The subprocess started and both output streams were captured.
    Spawned,
    /// The subprocess could not be started.
    SpawnFailed(SessionError),
    /// The session ended: cleanly, or with the first error it met.
    SessionEnded(Option<SessionError>),
    /// One polling interval of the wait passed.
    Tick,
}

/// What the caller does next.
#[derive(Clone, Copy, Debug, PartialEq, Eq, Structural)]
pub enum Action {
    /// Start the subprocess and capture its output streams.
    Spawn,
    /// Run the output pipeline on the session until it ends.
    RunSession,
    /// Sleep for the given milliseconds, then report a tick.
    Sleep(u64),
    /// Return: supervision is over.
    Finish,
}

/// The supervisor's next phase, its action, and its observations.
#[derive(Debug)]
pub struct Step {
    pub phase: Phase,
    pub action: Action,
    pub events: Vec<MetricEvent>,
}

/// The reason label of a failed or completed session.
pub open spec fn reason_label(e: Option<SessionError>) -> Seq<char> {
    match e {
        Some(SessionError::Spawn) => "spawn_failed"@,
        Some(SessionError::Capture) => "capture_failed"@,
        Some(SessionError::StreamRead) => "stream_read_failed"@,
        Some(SessionError::ProcessExit(_)) => "process_exit_failed"@,
        Some(SessionError::Wait) => "wait_failed"@,
        None => "completed"@,
    }
}

/// The action that a phase asks for.
pub open spec fn phase_action(p: Phase) -> Action {
    match p {
        Phase::Idle => Action::Spawn,
        Phase::Spawning => Action::Spawn,
        Phase::Running => Action::RunSession,
        Phase::Backoff(_) => Action::Sleep(POLL_INTERVAL_MS),
        Phase::Stopped => Action::Finish,
    }
}

/// Where an attempt that ended, with an error or cleanly, leads.
pub open spec fn after_attempt(stop: bool) -> Phase {
    if stop {
        Phase::Stopped
    } else {
        Phase::Backoff(0)
    }
}

/// The phase after `event` in `phase`, with the stop flag read as `stop`.
pub open spec fn next_phase(phase: Phase, event: SupervisorEvent, stop: bool) -> Phase {
    match (phase, event) {
        (Phase::Stopped, _) => Phase::Stopped,
        (Phase::Idle, SupervisorEvent::Start) => if stop {
            Phase::Stopped
        } else {
            Phase::Spawning
        },
        (Phase::Spawning, SupervisorEvent::Spawned) => if stop {
            Phase::Stopped
        } else {
            Phase::Running
        },
        (Phase::Spawning, SupervisorEvent::SpawnFailed(_)) => after_attempt(stop),
        (Phase::Running, SupervisorEvent::SessionEnded(_)) => after_attempt(stop),
        (Phase::Backoff(n), SupervisorEvent::Tick) => if stop {
            Phase::Stopped
        } else if n + 1 >= BACKOFF_TICKS {
            Phase::Spawning
        } else {
            Phase::Backoff((n + 1) as u32)
        },
        _ => phase,
    }
}

/// Observations of an attempt that ended: disconnected, one more reset, and the reason.
pub open spec fn ended_events(label: Seq<char>, e: Option<SessionError>) -> Seq<EventView> {
    seq![
        (Metric::ConnectionState, seq![label], Update::SetTo(Ratio { num: 0, den: 1 })),
        (Metric::ConnectionReset, seq![label], Update::Inc),
        (Metric::SessionErrors, seq![label, reason_label(e)], Update::Inc),
    ]
}

/// The optimistic observation of a new attempt.
pub open spec fn connecting_events(label: Seq<char>) -> Seq<EventView> {
    seq![(Metric::ConnectionState, seq![label], Update::SetTo(Ratio { num: 1, den: 1 }))]
}

/// Observations of `event` in `phase`. A session that ends while a stop was asked for without
/// an error only reads as disconnected.
pub open spec fn step_events(label: Seq<char>, phase: Phase, event: SupervisorEvent, stop: bool) -> Seq<
    EventView,
> {
    match (phase, event) {
        (Phase::Stopped, _) => seq![],
        (Phase::Spawning, SupervisorEvent::SpawnFailed(e)) => ended_events(label, Some(e)),
        (Phase::Running, SupervisorEvent::SessionEnded(None)) => if stop {
            seq![(Metric::ConnectionState, seq![label], Update::SetTo(Ratio { num: 0, den: 1 }))]
        } else {
            ended_events(label, None)
        },
        (Phase::Running, SupervisorEvent::SessionEnded(Some(e))) => ended_events(label, Some(e)),
        _ => if next_phase(phase, event, stop) == Phase::Spawning && phase != Phase::Spawning {
            connecting_events(label)
        } else {
            seq![]
        },
    }
}

fn reason_str(e: Option<SessionError>) -> (r: &'static str)
    ensures
        r@ == reason_label(e),
{
    match e {
        Some(SessionError::Spawn) => "spawn_failed",
        Some(SessionError::Capture) => "capture_failed",
        Some(SessionError::StreamRead) => "stream_read_failed",
        Some(SessionError::ProcessExit(_)) => "process_exit_failed",
        Some(SessionError::Wait) => "wait_failed",
        None => "completed",
    }
}

fn connection(kind: ProtocolKind, up: bool) -> (r: MetricEvent)
    ensures
        r@ == (
            Metric::ConnectionState,
            seq![type_label(kind)],
            Update::SetTo(Ratio { num: if up { 1 } else { 0 }, den: 1 }),
        ),
{
    MetricEvent::with1(
        Metric::ConnectionState,
        label_of(kind).to_string(),
        Update::SetTo(Ratio { num: if up { 1 } else { 0 }, den: 1 }),
    )
}

fn ended(kind: ProtocolKind, e: Option<SessionError>) -> (r: Vec<MetricEvent>)
    ensures
        events_view(r@) == ended_events(type_label(kind), e),
{
    let mut out: Vec<MetricEvent> = Vec::new();
    emit(&mut out, connection(kind, false));
    emit(
        &mut out,
        MetricEvent::with1(Metric::ConnectionReset, label_of(kind).to_string(), Update::Inc),
    );
    emit(
        &mut out,
        MetricEvent::with2(
            Metric::SessionErrors,
            label_of(kind).to_string(),
            reason_str(e).to_string(),
            Update::Inc,
        ),
    );
    assert(events_view(out@) =~= ended_events(type_label(kind), e));
    out
}

fn action_of(p: Phase) -> (r: Action)
    ensures
        r == phase_action(p),
{
    match p {
        Phase::Idle => Action::Spawn,
        Phase::Spawning => Action::Spawn,
        Phase::Running => Action::RunSession,
        Phase::Backoff(_) => Action::Sleep(POLL_INTERVAL_MS),
        Phase::Stopped => Action::Finish,
    }
}

/// One decision of the supervisor of a target of kind `kind`: the next phase, the action it
/// asks for, and the observations to record, from the current phase, what happened, and the
/// stop flag.
pub fn step(kind: ProtocolKind, phase: Phase, event: SupervisorEvent, stop: bool) -> (r: Step)
    ensures
        r.phase == next_phase(phase, event, stop),
        r.action == phase_action(next_phase(phase, event, stop)),
        events_view(r.events@) == step_events(type_label(kind), phase, event, stop),
{
    let next = match (phase, event) {
        (Phase::Stopped, _) => Phase::Stopped,
        (Phase::Idle, SupervisorEvent::Start) => if stop {
            Phase::Stopped
        } else {
            Phase::Spawning
        },
        (Phase::Spawning, SupervisorEvent::Spawned) => if stop {
            Phase::Stopped
        } else {
            Phase::Running
        },
        (Phase::Spawning, SupervisorEvent::SpawnFailed(_)) => if stop {
            Phase::Stopped
        } else {
            Phase::Backoff(0)
        },
        (Phase::Running, SupervisorEvent::SessionEnded(_)) => if stop {
            Phase::Stopped
        } else {
            Phase::Backoff(0)
        },
        (Phase::Backoff(n), SupervisorEvent::Tick) => if stop {
            Phase::Stopped
        } else if n >= BACKOFF_TICKS - 1 {
            Phase::Spawning
        } else {
            Phase::Backoff(n + 1)
        },
        _ => phase,
    };
    let events = match (phase, event) {
        (Phase::Stopped, _) => Vec::new(),
        (Phase::Spawning, SupervisorEvent::SpawnFailed(e)) => ended(kind, Some(e)),
        (Phase::Running, SupervisorEvent::SessionEnded(None)) => if stop {
            let mut out: Vec<MetricEvent> = Vec::new();
            emit(&mut out, connection(kind, false));
            out
        } else {
            ended(kind, None)
        },
        (Phase::Running, SupervisorEvent::SessionEnded(Some(e))) => ended(kind, Some(e)),
        _ => if next == Phase::Spawning && phase != Phase::Spawning {
            let mut out: Vec<MetricEvent> = Vec::new();
            emit(&mut out, connection(kind, true));
            out
        } else {
            Vec::new()
        },
    };
    assert(events_view(events@) =~= step_events(type_label(kind), phase, event, stop));
    Step { phase: next, action: action_of(next), events }
}

/// A session that fails while running, by a read error or a non-zero exit, leaves the
/// connection gauge at 0, adds exactly one reset, and leads to the wait before a new attempt,
/// or to the end when a stop was asked for; never straight to a new attempt.
pub proof fn lemma_failed_session(label: Seq<char>, e: SessionError, stop: bool)
    requires
        e is StreamRead || e is ProcessExit,
    ensures
        step_events(label, Phase::Running, SupervisorEvent::SessionEnded(Some(e)), stop).contains(
            (Metric::ConnectionState, seq![label], Update::SetTo(Ratio { num: 0, den: 1 })),
        ),
        count_metric(
            step_events(label, Phase::Running, SupervisorEvent::SessionEnded(Some(e)), stop),
            Metric::ConnectionReset,
        ) == 1,
        next_phase(Phase::Running, SupervisorEvent::SessionEnded(Some(e)), stop) == if stop {
            Phase::Stopped
        } else {
            Phase::Backoff(0)
        },
{
    let evs = step_events(label, Phase::Running, SupervisorEvent::SessionEnded(Some(e)), stop);
    assert(evs[0] == (Metric::ConnectionState, seq![label], Update::SetTo(Ratio { num: 0, den: 1 })));
    assert(evs.drop_last().drop_last().drop_last() =~= Seq::<EventView>::empty());
    assert(evs.drop_last().drop_last() =~= seq![evs[0]]);
    assert(evs.drop_last() =~= seq![evs[0], evs[1]]);
    assert(count_metric(evs.drop_last().drop_last().drop_last(), Metric::ConnectionReset) == 0);
    assert(count_metric(evs.drop_last().drop_last(), Metric::ConnectionReset) == 0);
    assert(count_metric(evs.drop_last(), Metric::ConnectionReset) == 1);
}

/// A new attempt follows a wait only once all of its polling intervals have passed and no stop
/// was asked for.
pub proof fn lemma_spawn_only_after_full_wait(n: u32, stop: bool)
    ensures
        next_phase(Phase::Backoff(n), SupervisorEvent::Tick, stop) == Phase::Spawning ==> !stop
            && n + 1 >= BACKOFF_TICKS,
        next_phase(Phase::Backoff(n), SupervisorEvent::Tick, stop) is Backoff ==> !stop
            && next_phase(Phase::Backoff(n), SupervisorEvent::Tick, stop) == Phase::Backoff(
            (n + 1) as u32,
        ),
{
}

/// A stop asked for during the wait ends it at the next polling interval, which is at most
/// `POLL_INTERVAL_MS` away: every action of a wait is one such sleep.
pub proof fn lemma_stop_ends_wait(n: u32)
    ensures
        phase_action(Phase::Backoff(n)) == Action::Sleep(POLL_INTERVAL_MS),
        POLL_INTERVAL_MS <= 100,
        next_phase(Phase::Backoff(n), SupervisorEvent::Tick, true) == Phase::Stopped,
        phase_action(next_phase(Phase::Backoff(n), SupervisorEvent::Tick, true)) == Action::Finish,
{
}

} // verus!
