use ffmpeg_monitor::diagnostic::{diagnostic_line, transcode_diagnostic_line};
use ffmpeg_monitor::events::{Metric, MetricEvent, Update};
use ffmpeg_monitor::progress::progress_line;
use ffmpeg_monitor::protocol::ProtocolKind;
use ffmpeg_monitor::text::Ratio;

fn labels(e: &MetricEvent) -> Vec<&str> {
    e.labels.iter().map(|s| s.as_str()).collect()
}

fn category(line: &str) -> String {
    let ev = diagnostic_line(ProtocolKind::Srt, line);
    assert_eq!(ev.len(), 1);
    assert_eq!(ev[0].metric, Metric::CodecErrors);
    assert_eq!(labels(&ev[0])[1], "0");
    ev[0].labels[0].clone()
}

#[test]
fn dropped_packets_are_counted() {
    let ev = diagnostic_line(ProtocolKind::Srt, "14:02:11.123/SRT:RcvQ:w1 RCV-DROPPED 12 packets");
    assert_eq!(ev.len(), 1);
    assert_eq!(ev[0].metric, Metric::DroppedPackets);
    assert_eq!(labels(&ev[0]), vec!["srt"]);
    assert_eq!(ev[0].update, Update::IncBy(Ratio { num: 12, den: 1 }));
}

#[test]
fn corrupt_packet_report() {
    let ev = diagnostic_line(ProtocolKind::Udp, "[mpegts @ 0x1] Packet corrupt (stream = 3, dts = 1234).");
    assert_eq!(ev.len(), 1);
    assert_eq!(ev[0].metric, Metric::PacketCorrupt);
    assert_eq!(labels(&ev[0]), vec!["3", "unknown"]);
}

#[test]
fn codec_error_categories() {
    assert_eq!(category("[h264 @ 0x55] SEI type 5 size 10 truncated"), "sei_error");
    assert_eq!(category("[hevc @ 0x1] PPS id out of range: 0"), "pps_error");
    assert_eq!(category("[h264 @ 0x1] decode_slice_header error"), "slice_header_error");
    assert_eq!(category("[vp9 @ 0x1] no frame!"), "missing_frame");
    assert_eq!(category("[av1 @ 0x1] something else"), "other");
}

#[test]
fn unrelated_lines_give_nothing() {
    assert!(diagnostic_line(ProtocolKind::Srt, "Input #0, mpegts, from 'srt://x':").is_empty());
    assert!(diagnostic_line(ProtocolKind::Srt, "[aac @ 0x1] SEI").is_empty());
    assert!(diagnostic_line(ProtocolKind::Srt, "").is_empty());
}

#[test]
fn transcode_corruption_marker() {
    let ev = transcode_diagnostic_line(ProtocolKind::Srt, "[mpegts] corrupt packet detected");
    assert_eq!(ev.len(), 1);
    assert_eq!(ev[0].metric, Metric::CorruptMarker);
    assert_eq!(labels(&ev[0]), vec!["9"]);
}

#[test]
fn transcode_decoding_errors() {
    let ev = transcode_diagnostic_line(ProtocolKind::Srt, "error while decoding MB 10 4, bytestream -5");
    assert_eq!(ev.len(), 1);
    assert_eq!(ev[0].metric, Metric::DecodingErrors);
    assert_eq!(labels(&ev[0]), vec!["general"]);
    let ev = transcode_diagnostic_line(ProtocolKind::Srt, "concealing 10 DC, 10 AC, 10 MV errors in P frame");
    assert_eq!(ev.len(), 1);
    assert_eq!(labels(&ev[0]), vec!["P"]);
}

#[test]
fn transcode_line_also_counts_shared_patterns() {
    let ev = transcode_diagnostic_line(
        ProtocolKind::Srt,
        "[h264 @ 0x1] concealing 3 DC, 3 AC, 3 MV errors in B frame",
    );
    assert_eq!(ev.len(), 2);
    assert_eq!(ev[0].metric, Metric::CodecErrors);
    assert_eq!(labels(&ev[0]), vec!["other", "0"]);
    assert_eq!(labels(&ev[1]), vec!["B"]);
}

#[test]
fn progress_statistics_line() {
    let ev = progress_line(
        "frame=  100 fps= 25.0 q=28.0 size=    1024kB time=00:00:04.00 bitrate=2097.2kbits/s speed=1.01x",
    );
    assert_eq!(ev.len(), 4);
    assert_eq!(ev[0].metric, Metric::ProgressFps);
    assert_eq!(ev[0].update, Update::SetTo(Ratio { num: 250, den: 10 }));
    assert_eq!(ev[1].metric, Metric::ProgressFrames);
    assert_eq!(labels(&ev[1]), vec!["processed"]);
    assert_eq!(ev[1].update, Update::SetTo(Ratio { num: 100, den: 1 }));
    assert_eq!(ev[2].metric, Metric::ProgressSpeed);
    assert_eq!(ev[2].update, Update::SetTo(Ratio { num: 101, den: 100 }));
    assert_eq!(ev[3].metric, Metric::ProgressBitrate);
    assert_eq!(ev[3].update, Update::SetTo(Ratio { num: 20972, den: 10 }));
}

#[test]
fn progress_key_value_lines() {
    let ev = progress_line("fps=29.97");
    assert_eq!(ev.len(), 1);
    assert_eq!(ev[0].update, Update::SetTo(Ratio { num: 2997, den: 100 }));
    assert!(progress_line("bitrate=N/A").is_empty());
    let ev = progress_line("speed=\u{a0}2x");
    assert_eq!(ev.len(), 1);
    assert_eq!(ev[0].update, Update::SetTo(Ratio { num: 2, den: 1 }));
    assert!(progress_line("speed=N/A").is_empty());
    assert!(progress_line("progress=continue").is_empty());
}
