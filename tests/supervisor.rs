use ffmpeg_monitor::events::{Metric, Update};
use ffmpeg_monitor::monitor::{FFmpegMonitor, FFprobeMonitor, MonitorError};
use ffmpeg_monitor::protocol::{ClassifyError, ProtocolKind, StreamType};
use ffmpeg_monitor::session::{poll, uptime_event, ExitCheck, FirstError, PollDecision};
use ffmpeg_monitor::supervisor::{step, Action, Phase, SessionError, SupervisorEvent};
use ffmpeg_monitor::text::Ratio;
use std::sync::atomic::Ordering;

#[test]
fn start_spawns_and_reads_connected() {
    let s = step(ProtocolKind::Srt, Phase::Idle, SupervisorEvent::Start, false);
    assert_eq!(s.phase, Phase::Spawning);
    assert_eq!(s.action, Action::Spawn);
    assert_eq!(s.events.len(), 1);
    assert_eq!(s.events[0].metric, Metric::ConnectionState);
    assert_eq!(s.events[0].update, Update::SetTo(Ratio { num: 1, den: 1 }));
    let s = step(ProtocolKind::Srt, Phase::Spawning, SupervisorEvent::Spawned, false);
    assert_eq!(s.phase, Phase::Running);
    assert_eq!(s.action, Action::RunSession);
}

#[test]
fn read_error_leads_to_backoff() {
    let s = step(
        ProtocolKind::Srt,
        Phase::Running,
        SupervisorEvent::SessionEnded(Some(SessionError::StreamRead)),
        false,
    );
    assert_eq!(s.phase, Phase::Backoff(0));
    assert_eq!(s.action, Action::Sleep(100));
    assert_eq!(s.events.len(), 3);
    assert_eq!(s.events[0].metric, Metric::ConnectionState);
    assert_eq!(s.events[0].update, Update::SetTo(Ratio { num: 0, den: 1 }));
    assert_eq!(s.events[1].metric, Metric::ConnectionReset);
    assert_eq!(s.events[1].update, Update::Inc);
    assert_eq!(s.events[2].labels, vec!["srt".to_string(), "stream_read_failed".to_string()]);
    let resets = s.events.iter().filter(|e| e.metric == Metric::ConnectionReset).count();
    assert_eq!(resets, 1);
}

#[test]
fn nonzero_exit_leads_to_backoff_or_stop() {
    let e = SupervisorEvent::SessionEnded(Some(SessionError::ProcessExit(1)));
    assert_eq!(step(ProtocolKind::Hls, Phase::Running, e, false).phase, Phase::Backoff(0));
    let s = step(ProtocolKind::Hls, Phase::Running, e, true);
    assert_eq!(s.phase, Phase::Stopped);
    assert_eq!(s.action, Action::Finish);
    assert_eq!(s.events[1].metric, Metric::ConnectionReset);
}

#[test]
fn spawn_failure_leads_to_backoff() {
    let s = step(
        ProtocolKind::Srt,
        Phase::Spawning,
        SupervisorEvent::SpawnFailed(SessionError::Spawn),
        false,
    );
    assert_eq!(s.phase, Phase::Backoff(0));
    assert_eq!(s.events[2].labels[1], "spawn_failed");
    let s = step(
        ProtocolKind::Srt,
        Phase::Spawning,
        SupervisorEvent::SpawnFailed(SessionError::Capture),
        false,
    );
    assert_eq!(s.events[2].labels[1], "capture_failed");
}

#[test]
fn clean_end_with_stop_finishes() {
    let s = step(ProtocolKind::Srt, Phase::Running, SupervisorEvent::SessionEnded(None), true);
    assert_eq!(s.phase, Phase::Stopped);
    assert_eq!(s.events.len(), 1);
    let s = step(ProtocolKind::Srt, Phase::Running, SupervisorEvent::SessionEnded(None), false);
    assert_eq!(s.phase, Phase::Backoff(0));
    assert_eq!(s.events[2].labels[1], "completed");
}

#[test]
fn stop_during_wait_ends_at_next_tick() {
    let s = step(ProtocolKind::Srt, Phase::Backoff(5), SupervisorEvent::Tick, true);
    assert_eq!(s.phase, Phase::Stopped);
    assert_eq!(s.action, Action::Finish);
    assert!(s.events.is_empty());
}

#[test]
fn wait_lasts_the_full_delay() {
    let mut phase = Phase::Backoff(0);
    let mut slept = 0u64;
    loop {
        let s = step(ProtocolKind::Srt, phase, SupervisorEvent::Tick, false);
        slept += 100;
        phase = s.phase;
        if phase == Phase::Spawning {
            assert_eq!(s.action, Action::Spawn);
            assert_eq!(s.events.len(), 1);
            break;
        }
        assert_eq!(s.action, Action::Sleep(100));
    }
    assert_eq!(slept, 10_000);
}

#[test]
fn stopped_is_terminal() {
    let s = step(ProtocolKind::Srt, Phase::Stopped, SupervisorEvent::Start, false);
    assert_eq!(s.phase, Phase::Stopped);
    assert_eq!(s.action, Action::Finish);
}

#[test]
fn poll_order() {
    let e = Some(SessionError::StreamRead);
    assert_eq!(
        poll(e, ExitCheck::Exited(Some(0)), true),
        PollDecision::End { kill: true, error: e }
    );
    assert_eq!(
        poll(None, ExitCheck::Exited(Some(0)), true),
        PollDecision::End { kill: false, error: None }
    );
    assert_eq!(
        poll(None, ExitCheck::Exited(Some(3)), false),
        PollDecision::End { kill: false, error: Some(SessionError::ProcessExit(3)) }
    );
    assert_eq!(
        poll(None, ExitCheck::Exited(None), false),
        PollDecision::End { kill: false, error: Some(SessionError::ProcessExit(-1)) }
    );
    assert_eq!(
        poll(None, ExitCheck::Failed, false),
        PollDecision::End { kill: false, error: Some(SessionError::Wait) }
    );
    assert_eq!(poll(None, ExitCheck::StillRunning, false), PollDecision::Continue);
    assert_eq!(
        poll(None, ExitCheck::StillRunning, true),
        PollDecision::End { kill: true, error: None }
    );
}

#[test]
fn first_error_wins() {
    let mut slot = FirstError::new();
    assert_eq!(slot.first, None);
    slot.offer(SessionError::StreamRead);
    slot.offer(SessionError::ProcessExit(2));
    assert_eq!(slot.first, Some(SessionError::StreamRead));
}

#[test]
fn uptime_observation() {
    let e = uptime_event(ProtocolKind::Rtmp, 42);
    assert_eq!(e.metric, Metric::Uptime);
    assert_eq!(e.labels, vec!["rtmp".to_string()]);
    assert_eq!(e.update, Update::SetTo(Ratio { num: 42, den: 1 }));
}

#[test]
fn transcode_monitor_setup() {
    let m = FFmpegMonitor::new("srt://h:1".to_string(), "out.ts".to_string(), "ffmpeg".to_string())
        .unwrap();
    assert_eq!(m.stream_type.kind(), ProtocolKind::Srt);
    assert_eq!(m.ffmpeg_args().last().unwrap(), "out.ts");
    assert!(m.is_running());
    let handle = m.get_running_handle();
    handle.store(false, Ordering::SeqCst);
    assert!(!m.is_running());
}

#[test]
fn transcode_monitor_errors() {
    let r = FFmpegMonitor::new("srt://h:1".to_string(), "o.ts".to_string(), "/no/such/ffmpeg".to_string());
    assert_eq!(r.unwrap_err(), MonitorError::MissingExecutable);
    let r = FFmpegMonitor::new("no/such/input".to_string(), "o.ts".to_string(), "ffmpeg".to_string());
    assert_eq!(r.unwrap_err(), MonitorError::Classify(ClassifyError::UnresolvableTarget));
}

#[test]
fn probe_monitor_stop_and_args() {
    let t = StreamType::Rtsp("rtsp://cam/1".to_string());
    let m = FFprobeMonitor::new("ffprobe".to_string(), "rtsp://cam/1".to_string(), t, 2500, 5000000, false);
    assert_eq!(m.ffprobe_args()[4], "-rtsp_transport");
    assert!(m.is_running());
    m.request_stop();
    assert!(!m.is_running());
    assert!(!m.get_running_handle().load(Ordering::SeqCst));
}
