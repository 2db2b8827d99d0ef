use ffmpeg_monitor::protocol::{decimal_string, ClassifyError, ProtocolKind, StreamType};

fn kind_of(input: &str) -> Result<ProtocolKind, ClassifyError> {
    StreamType::from_input(input).map(|t| t.kind())
}

#[test]
fn test_stream_type_from_input() {
    assert!(matches!(
        StreamType::from_input("srt://localhost:1234").unwrap(),
        StreamType::Srt(_)
    ));
    assert!(matches!(
        StreamType::from_input("http://example.com/stream.m3u8").unwrap(),
        StreamType::Hls(_)
    ));
    assert!(matches!(
        StreamType::from_input("rtmp://server/live/stream").unwrap(),
        StreamType::Rtmp(_)
    ));
}

#[test]
fn test_ffprobe_args() {
    let stream_type = StreamType::Srt("srt://localhost:1234".to_string());
    let args = stream_type.get_ffprobe_args(5000000, 5000000, true);
    assert!(args.contains(&"-report".to_string()));
    assert!(args.contains(&"-show_packets".to_string()));
    assert!(args.contains(&"-show_frames".to_string()));
    assert!(args.contains(&"srt://localhost:1234".to_string()));
}

#[test]
fn classifies_each_url_scheme() {
    assert_eq!(kind_of("srt://host:1234"), Ok(ProtocolKind::Srt));
    assert_eq!(kind_of("rtmp://host/live"), Ok(ProtocolKind::Rtmp));
    assert_eq!(kind_of("rtsp://host/stream"), Ok(ProtocolKind::Rtsp));
    assert_eq!(kind_of("udp://239.0.0.1:5000"), Ok(ProtocolKind::Udp));
    assert_eq!(kind_of("https://x/y.m3u8"), Ok(ProtocolKind::Hls));
    assert_eq!(kind_of("https://x/y.m3u"), Ok(ProtocolKind::Hls));
    assert_eq!(kind_of("https://x/y.ts"), Ok(ProtocolKind::MpegTs));
    assert_eq!(kind_of("http://x/y.mp4"), Ok(ProtocolKind::Hls));
}

#[test]
fn scheme_is_read_case_insensitively() {
    assert_eq!(kind_of("SRT://host:1234"), Ok(ProtocolKind::Srt));
}

#[test]
fn http_kind_follows_the_url_path() {
    assert_eq!(kind_of("https://x/y.ts?token=1"), Ok(ProtocolKind::MpegTs));
    assert_eq!(kind_of("https://x/y.m3u8?v=a.ts"), Ok(ProtocolKind::Hls));
}

#[test]
fn unsupported_scheme_is_refused() {
    assert_eq!(kind_of("ftp://host/file.ts"), Err(ClassifyError::UnsupportedScheme));
}

#[test]
fn remote_desktop_by_port() {
    assert_eq!(kind_of("10.0.0.5:3389"), Ok(ProtocolKind::Rdp));
}

#[test]
fn nonexistent_path_is_unresolvable() {
    assert_eq!(kind_of("no/such/dir/clip"), Err(ClassifyError::UnresolvableTarget));
}

#[test]
fn existing_path_without_extension() {
    assert_eq!(kind_of("/"), Err(ClassifyError::UnknownFileType));
}

#[test]
fn classify_with_findings() {
    let r = StreamType::classify("clip.ts", None, "", true, Some("ts")).unwrap();
    assert_eq!(r.kind(), ProtocolKind::MpegTs);
    assert_eq!(r.locator(), "clip.ts");
    let r = StreamType::classify("list.m3u8", None, "", true, Some("m3u8")).unwrap();
    assert_eq!(r.kind(), ProtocolKind::Hls);
    let r = StreamType::classify("movie.mkv", None, "", true, Some("mkv")).unwrap();
    assert_eq!(r.kind(), ProtocolKind::File);
    assert_eq!(
        StreamType::classify("noext", None, "", true, None).unwrap_err(),
        ClassifyError::UnknownFileType
    );
    assert_eq!(
        StreamType::classify("clip.ts", None, "", false, Some("ts")).unwrap_err(),
        ClassifyError::UnresolvableTarget
    );
    let r = StreamType::classify("rdp://desk", None, "", false, None).unwrap();
    assert_eq!(r.kind(), ProtocolKind::Rdp);
}

#[test]
fn type_labels() {
    assert_eq!(StreamType::Srt(String::new()).get_type_str(), "srt");
    assert_eq!(StreamType::Hls(String::new()).get_type_str(), "hls");
    assert_eq!(StreamType::MpegTs(String::new()).get_type_str(), "mpegts");
    assert_eq!(StreamType::Rtmp(String::new()).get_type_str(), "rtmp");
    assert_eq!(StreamType::Rtsp(String::new()).get_type_str(), "rtsp");
    assert_eq!(StreamType::Udp(String::new()).get_type_str(), "udp");
    assert_eq!(StreamType::Rdp(String::new()).get_type_str(), "rdp");
    assert_eq!(StreamType::File(String::new()).get_type_str(), "file");
}

#[test]
fn probe_args_exact() {
    let t = StreamType::Srt("srt://localhost:1234".to_string());
    assert_eq!(
        t.get_ffprobe_args(2500, 5000000, true),
        vec![
            "-report", "-show_packets", "-show_frames", "-of", "csv", "-probesize", "2500",
            "-analyzeduration", "5000000", "-i", "srt://localhost:1234",
        ]
    );
}

#[test]
fn rtsp_probe_forces_tcp() {
    let t = StreamType::from_input("rtsp://host/stream").unwrap();
    assert_eq!(t.kind(), ProtocolKind::Rtsp);
    let args = t.get_ffprobe_args(2500, 5000000, false);
    let at = args.iter().position(|a| a == "-rtsp_transport").unwrap();
    assert_eq!(args[at + 1], "tcp");
    assert_eq!(args.last().unwrap(), "rtsp://host/stream");
    assert!(!args.contains(&"-report".to_string()));
}

#[test]
fn hls_probe_starts_at_newest_segment() {
    let t = StreamType::Hls("https://x/y.m3u8".to_string());
    let args = t.get_ffprobe_args(1, 2, false);
    assert_eq!(
        args,
        vec![
            "-show_packets", "-show_frames", "-of", "csv", "-live_start_index", "-1",
            "-probesize", "1", "-analyzeduration", "2", "-i", "https://x/y.m3u8",
        ]
    );
}

#[test]
fn transcode_args_by_kind() {
    let t = StreamType::Rdp("rdp://desk".to_string());
    assert_eq!(t.get_ffmpeg_input_args(), vec!["-f", "gdigrab", "-i", "rdp://desk"]);
    let t = StreamType::Hls("https://x/a.m3u8".to_string());
    assert_eq!(t.get_ffmpeg_input_args(), vec!["-live_start_index", "-1", "-i", "https://x/a.m3u8"]);
    let t = StreamType::File("a.mkv".to_string());
    assert_eq!(t.get_ffmpeg_input_args(), vec!["-i", "a.mkv"]);
    let t = StreamType::Udp("udp://h:1".to_string());
    assert_eq!(
        t.get_ffmpeg_args("out.ts"),
        vec![
            "-rw_timeout", "5000000", "-i", "udp://h:1", "-stats", "-stats_period", "1",
            "-progress", "pipe:1", "out.ts",
        ]
    );
}

#[test]
fn argument_building_is_repeatable() {
    let a = StreamType::from_input("rtsp://cam/1").unwrap();
    let b = StreamType::from_input("rtsp://cam/1").unwrap();
    assert_eq!(a.get_ffprobe_args(7, 8, true), b.get_ffprobe_args(7, 8, true));
    assert_eq!(a.get_ffmpeg_args("o.ts"), b.get_ffmpeg_args("o.ts"));
}

#[test]
fn decimal_numerals() {
    assert_eq!(decimal_string(0), "0");
    assert_eq!(decimal_string(7), "7");
    assert_eq!(decimal_string(5000000), "5000000");
    assert_eq!(decimal_string(u64::MAX), "18446744073709551615");
}
