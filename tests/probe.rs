use ffmpeg_monitor::events::{Metric, MetricEvent, Update};
use ffmpeg_monitor::probe::{micros_exec, ProbeParser};
use ffmpeg_monitor::protocol::ProtocolKind;
use ffmpeg_monitor::text::{chars_of, Ratio};

fn labels(e: &MetricEvent) -> Vec<&str> {
    e.labels.iter().map(|s| s.as_str()).collect()
}

fn frame(ts: &str) -> String {
    format!("frame,video,0,1,0,{}", ts)
}

#[test]
fn corrupt_packet_record() {
    let mut p = ProbeParser::new(ProtocolKind::Srt, 0);
    let line = "packet,video,0,100,0.040000,100,0.040000,1,0.040000,1500,123,K_C";
    let ev = p.handle_line(line, 0);
    assert_eq!(ev.len(), 2);
    assert_eq!(ev[0].metric, Metric::Bitrate);
    assert_eq!(labels(&ev[0]), vec!["0", "video"]);
    assert_eq!(ev[0].update, Update::SetTo(Ratio { num: 12000, den: 1000 }));
    assert_eq!(ev[1].metric, Metric::PacketCorrupt);
    assert_eq!(labels(&ev[1]), vec!["0", "video"]);
    assert_eq!(ev[1].update, Update::Inc);
}

#[test]
fn clean_packet_sets_bitrate_only() {
    let mut p = ProbeParser::new(ProtocolKind::Srt, 0);
    let ev = p.handle_line("packet,audio,1,0,0.0,0,0.0,1,0.02,417.5,99,K_", 0);
    assert_eq!(ev.len(), 1);
    assert_eq!(ev[0].update, Update::SetTo(Ratio { num: 33400, den: 10000 }));
    assert_eq!(labels(&ev[0]), vec!["1", "audio"]);
}

#[test]
fn malformed_size_skips_only_bitrate() {
    let mut p = ProbeParser::new(ProtocolKind::Srt, 0);
    let ev = p.handle_line("packet,video,0,1,2,3,4,5,6,N/A,8,_C", 0);
    assert_eq!(ev.len(), 1);
    assert_eq!(ev[0].metric, Metric::PacketCorrupt);
}

#[test]
fn short_and_other_records_are_ignored() {
    let mut p = ProbeParser::new(ProtocolKind::Srt, 0);
    assert!(p.handle_line("packet,video", 0).is_empty());
    assert!(p.handle_line("stream,video,0,1,2,3", 0).is_empty());
    assert!(p.handle_line("packet,video,0,1", 0).is_empty());
    assert!(p.handle_line("", 0).is_empty());
}

#[test]
fn frame_rate_from_three_timestamps() {
    let mut p = ProbeParser::new(ProtocolKind::Srt, 0);
    let a = p.handle_line(&frame("0.000000"), 0);
    assert_eq!(a.len(), 1);
    assert_eq!(a[0].metric, Metric::Frames);
    assert_eq!(labels(&a[0]), vec!["processed", "0", "video"]);
    p.handle_line(&frame("0.500000"), 10);
    let c = p.handle_line(&frame("1.000000"), 1000);
    assert_eq!(c.len(), 2);
    assert_eq!(c[1].metric, Metric::Fps);
    assert_eq!(labels(&c[1]), vec!["srt", "0", "video"]);
    match c[1].update {
        Update::SetTo(Ratio { num, den }) => assert_eq!(num as f64 / den as f64, 2.0),
        _ => panic!("expected a gauge value"),
    }
    assert_eq!(p.last_fps_update, 1000);
}

#[test]
fn frame_rate_waits_for_a_second() {
    let mut p = ProbeParser::new(ProtocolKind::Hls, 500);
    p.handle_line(&frame("0.0"), 600);
    let b = p.handle_line(&frame("0.5"), 1499);
    assert_eq!(b.len(), 1);
    let c = p.handle_line(&frame("1.0"), 1500);
    assert_eq!(c.len(), 2);
}

#[test]
fn zero_span_gives_unbounded_rate() {
    let mut p = ProbeParser::new(ProtocolKind::Srt, 0);
    p.handle_line(&frame("2.0"), 0);
    let b = p.handle_line(&frame("2.0"), 1000);
    assert_eq!(b.len(), 2);
    assert_eq!(b[1].metric, Metric::Fps);
    assert_eq!(b[1].update, Update::SetUnbounded);
}

#[test]
fn negative_span_gives_negative_rate() {
    let mut p = ProbeParser::new(ProtocolKind::Srt, 0);
    p.handle_line(&frame("3.0"), 0);
    let b = p.handle_line(&frame("1.0"), 1000);
    assert_eq!(b.len(), 2);
    assert_eq!(b[1].update, Update::SetNegative(Ratio { num: 1_000_000, den: 2_000_000 }));
}

#[test]
fn single_sample_window_gives_no_rate() {
    let mut p = ProbeParser::new(ProtocolKind::Srt, 0);
    let a = p.handle_line(&frame("3.0"), 5000);
    assert_eq!(a.len(), 1);
}

#[test]
fn windows_are_kept_per_label() {
    let mut p = ProbeParser::new(ProtocolKind::Srt, 0);
    p.handle_line("frame,video,0,1,0,0.0", 0);
    p.handle_line("frame,audio,1,1,0,0.0", 0);
    p.handle_line("frame,video,0,1,0,0.04", 0);
    assert_eq!(p.windows.len(), 2);
    assert_eq!(p.windows[0].times, vec![0, 40000]);
    assert_eq!(p.windows[1].times, vec![0]);
}

#[test]
fn window_keeps_the_newest_hundred() {
    let mut p = ProbeParser::new(ProtocolKind::Srt, 0);
    for i in 0..150 {
        p.handle_line(&frame(&format!("{}.0", i)), 0);
        assert!(p.windows[0].times.len() <= 100);
    }
    assert_eq!(p.windows[0].times.len(), 100);
    assert_eq!(p.windows[0].times[0], 50_000_000);
    assert_eq!(p.windows[0].times[99], 149_000_000);
}

#[test]
fn timestamps_in_microseconds() {
    assert_eq!(micros_exec(&chars_of("1.5")), Some(1_500_000));
    assert_eq!(micros_exec(&chars_of("-0.033367")), Some(-33_367));
    assert_eq!(micros_exec(&chars_of("2")), Some(2_000_000));
    assert_eq!(micros_exec(&chars_of("0.1234567")), Some(123_456));
    assert_eq!(micros_exec(&chars_of("-1.0000009")), Some(-1_000_000));
    assert_eq!(micros_exec(&chars_of("N/A")), None);
    assert_eq!(micros_exec(&chars_of("")), None);
}
