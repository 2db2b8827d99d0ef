use vstd::prelude::*;

use crate::events::{emit, events_view, EventView, Metric, MetricEvent, Update};
use crate::protocol::{decimal_spec, decimal_string, label_of, type_label, ProtocolKind};
use crate::text::{
    chars_of, contains, digit_run_end, find_from, find_from_exec, first_where, has_text,
    keyed_at, keyed_at_exec, keyed_value, keyed_value_exec, last_where,
    occurs_at, occurs_at_exec, run_of_digits, slice_string,
};

verus! {

/// Where a codec name among `h264`, `hevc`, `vp8`, `vp9`, `av1` that starts at `i` ends.
pub open spec fn codec_end(s: Seq<char>, i: int) -> Option<int> {
    if occurs_at(s, "h264"@, i) {
        Some(i + "h264"@.len())
    } else if occurs_at(s, "hevc"@, i) {
        Some(i + "hevc"@.len())
    } else if occurs_at(s, "vp8"@, i) {
        Some(i + "vp8"@.len())
    } else if occurs_at(s, "vp9"@, i) {
        Some(i + "vp9"@.len())
    } else if occurs_at(s, "av1"@, i) {
        Some(i + "av1"@.len())
    } else {
        None
    }
}

/// At `i`: `[`, a codec name, anything up to the first `] `. Where the message after it starts.
pub open spec fn codec_at(s: Seq<char>, i: int) -> Option<int> {
    if occurs_at(s, "["@, i) {
        match codec_end(s, i + 1) {
            Some(k) => match find_from(s, "] "@, k) {
                Some(j) => Some(j + "] "@.len()),
                None => None,
            },
            None => None,
        }
    } else {
        None
    }
}

pub open spec fn codec_here(s: Seq<char>) -> spec_fn(int) -> bool {
    |i: int| codec_at(s, i) is Some
}

/// The message of the leftmost codec report in `s`: the rest of the line.
pub open spec fn codec_message(s: Seq<char>) -> Option<Seq<char>> {
    match first_where(codec_here(s), 0, s.len() as int + 1) {
        Some(i) => match codec_at(s, i) {
            Some(m) => Some(s.subrange(m, s.len() as int)),
            None => None,
        },
        None => None,
    }
}

/// The category of a codec message, by the first marker it holds in priority order.
pub open spec fn codec_category(m: Seq<char>) -> Seq<char> {
    if contains(m, "SEI"@) {
        "sei_error"@
    } else if contains(m, "PPS"@) {
        "pps_error"@
    } else if contains(m, "decode_slice_header"@) {
        "slice_header_error"@
    } else if contains(m, "no frame"@) {
        "missing_frame"@
    } else {
        "other"@
    }
}

/// At `i`: `Packet corrupt (stream = N, dts = M)`.
pub open spec fn corrupt_at(s: Seq<char>, i: int) -> bool {
    match keyed_at(s, "Packet corrupt (stream = "@, false, false, ", dts = "@, i) {
        Some((v, e)) => {
            let d = e + ", dts = "@.len();
            let f = digit_run_end(s, d);
            f > d && occurs_at(s, ")"@, f)
        },
        None => false,
    }
}

pub open spec fn corrupt_here(s: Seq<char>) -> spec_fn(int) -> bool {
    |i: int| corrupt_at(s, i)
}

/// The stream index of the leftmost corrupt-packet report in `s`.
pub open spec fn corrupt_stream(s: Seq<char>) -> Option<Seq<char>> {
    match first_where(corrupt_here(s), 0, s.len() as int + 1) {
        Some(i) => match keyed_at(s, "Packet corrupt (stream = "@, false, false, ", dts = "@, i) {
            Some((v, e)) => Some(s.subrange(v, e)),
            None => None,
        },
        None => None,
    }
}

/// Observations of a diagnostic line in either mode: dropped receive packets, a corrupt
/// packet of a stream, a codec error by category.
pub open spec fn diagnostic_events(label: Seq<char>, s: Seq<char>) -> Seq<EventView> {
    let dropped = match keyed_value(s, "RCV-DROPPED "@, false, false, " packet"@) {
        Some(q) => seq![(Metric::DroppedPackets, seq![label], Update::IncBy(q))],
        None => seq![],
    };
    let corrupt = match corrupt_stream(s) {
        Some(id) => seq![(Metric::PacketCorrupt, seq![id, "unknown"@], Update::Inc)],
        None => seq![],
    };
    let codec = match codec_message(s) {
        Some(m) => seq![(Metric::CodecErrors, seq![codec_category(m), "0"@], Update::Inc)],
        None => seq![],
    };
    dropped + corrupt + codec
}

/// At `j`: `in X frame` with `X` one of `I`, `P`, `B`.
pub open spec fn frame_type_at(s: Seq<char>, j: int) -> bool {
    0 <= j && j + 4 <= s.len() && s[j] == 'i' && s[j + 1] == 'n' && s[j + 2] == ' ' && (s[j + 3]
        == 'I' || s[j + 3] == 'P' || s[j + 3] == 'B') && occurs_at(s, " frame"@, j + 4)
}

pub open spec fn frame_type_here(s: Seq<char>) -> spec_fn(int) -> bool {
    |j: int| frame_type_at(s, j)
}

/// The frame type of a concealment report: the last `in X frame` after the first
/// `concealing`.
pub open spec fn concealed_frame(s: Seq<char>) -> Option<int> {
    match find_from(s, "concealing"@, 0) {
        Some(c) => last_where(frame_type_here(s), c + "concealing"@.len(), s.len() as int + 1),
        None => None,
    }
}

/// Observations of a diagnostic line of a transcode: those of either mode, then the position of
/// a corruption marker, a decoding error, and a decoding error by concealed frame type.
pub open spec fn transcode_diagnostic_events(label: Seq<char>, s: Seq<char>) -> Seq<EventView> {
    let marker = match find_from(s, "corrupt packet"@, 0) {
        Some(p) => seq![(Metric::CorruptMarker, seq![decimal_spec(p as nat)], Update::Inc)],
        None => seq![],
    };
    let general = if contains(s, "error while decoding"@) {
        seq![(Metric::DecodingErrors, seq!["general"@], Update::Inc)]
    } else {
        seq![]
    };
    let frame = match concealed_frame(s) {
        Some(j) => seq![(Metric::DecodingErrors, seq![seq![s[j + 3]]], Update::Inc)],
        None => seq![],
    };
    diagnostic_events(label, s) + marker + general + frame
}

fn codec_end_exec(s: &Vec<char>, i: usize) -> (r: Option<usize>)
    ensures
        match r {
            Some(k) => codec_end(s@, i as int) == Some(k as int) && k <= s@.len(),
            None => codec_end(s@, i as int) is None,
        },
{
    let n = s.len();
    let h264 = chars_of("h264");
    if occurs_at_exec(s, &h264, i) {
        return Some(i + h264.len());
    }
    let hevc = chars_of("hevc");
    if occurs_at_exec(s, &hevc, i) {
        return Some(i + hevc.len());
    }
    let vp8 = chars_of("vp8");
    if occurs_at_exec(s, &vp8, i) {
        return Some(i + vp8.len());
    }
    let vp9 = chars_of("vp9");
    if occurs_at_exec(s, &vp9, i) {
        return Some(i + vp9.len());
    }
    let av1 = chars_of("av1");
    if occurs_at_exec(s, &av1, i) {
        return Some(i + av1.len());
    }
    None
}

fn codec_at_exec(s: &Vec<char>, i: usize) -> (r: Option<usize>)
    ensures
        match r {
            Some(m) => codec_at(s@, i as int) == Some(m as int) && m <= s@.len(),
            None => codec_at(s@, i as int) is None,
        },
{
    let n = s.len();
    proof {
        reveal_strlit("[");
    }
    let open = chars_of("[");
    if !occurs_at_exec(s, &open, i) {
        return None;
    }
    assert(i + open@.len() <= n);
    match codec_end_exec(s, i + 1) {
        Some(k) => {
            let close = chars_of("] ");
            match find_from_exec(s, &close, k) {
                Some(j) => Some(j + close.len()),
                None => None,
            }
        },
        None => None,
    }
}

fn codec_message_exec(line: &str, s: &Vec<char>) -> (r: Option<String>)
    requires
        s@ == line@,
    ensures
        match r {
            Some(m) => codec_message(s@) == Some(m@),
            None => codec_message(s@) is None,
        },
{
    let ghost p = codec_here(s@);
    let mut i: usize = 0;
    while i <= s.len()
        invariant
            s@ == line@,
            p == codec_here(s@),
            i <= s@.len() + 1,
            first_where(p, 0, s@.len() as int + 1) == first_where(p, i as int, s@.len() as int + 1),
        decreases s@.len() + 1 - i,
    {
        match codec_at_exec(s, i) {
            Some(m) => {
                return Some(slice_string(line, m, s.len()));
            },
            None => {},
        }
        if i == s.len() {
            assert(first_where(p, i as int + 1, s@.len() as int + 1) is None);
            return None;
        }
        i = i + 1;
    }
    None
}

fn codec_category_exec(m: &String) -> (r: &'static str)
    ensures
        r@ == codec_category(m@),
{
    let cs = chars_of(m.as_str());
    if has_text(&cs, &chars_of("SEI")) {
        "sei_error"
    } else if has_text(&cs, &chars_of("PPS")) {
        "pps_error"
    } else if has_text(&cs, &chars_of("decode_slice_header")) {
        "slice_header_error"
    } else if has_text(&cs, &chars_of("no frame")) {
        "missing_frame"
    } else {
        "other"
    }
}

fn corrupt_at_exec(s: &Vec<char>, i: usize) -> (r: Option<(usize, usize)>)
    ensures
        match r {
            Some((v, e)) => corrupt_at(s@, i as int) && keyed_at(
                s@,
                "Packet corrupt (stream = "@,
                false,
                false,
                ", dts = "@,
                i as int,
            ) == Some((v as int, e as int)) && v <= e <= s@.len(),
            None => !corrupt_at(s@, i as int),
        },
{
    let n = s.len();
    let key = chars_of("Packet corrupt (stream = ");
    let mid = chars_of(", dts = ");
    match keyed_at_exec(s, &key, false, false, &mid, i) {
        Some((v, e)) => {
            assert(e + mid@.len() <= n);
            let d = e + mid.len();
            let f = run_of_digits(s, d);
            if f > d && occurs_at_exec(s, &chars_of(")"), f) {
                Some((v, e))
            } else {
                None
            }
        },
        None => None,
    }
}

fn corrupt_stream_exec(line: &str, s: &Vec<char>) -> (r: Option<String>)
    requires
        s@ == line@,
    ensures
        match r {
            Some(id) => corrupt_stream(s@) == Some(id@),
            None => corrupt_stream(s@) is None,
        },
{
    let ghost p = corrupt_here(s@);
    let mut i: usize = 0;
    while i <= s.len()
        invariant
            s@ == line@,
            p == corrupt_here(s@),
            i <= s@.len() + 1,
            first_where(p, 0, s@.len() as int + 1) == first_where(p, i as int, s@.len() as int + 1),
        decreases s@.len() + 1 - i,
    {
        match corrupt_at_exec(s, i) {
            Some((v, e)) => {
                return Some(slice_string(line, v, e));
            },
            None => {},
        }
        if i == s.len() {
            assert(first_where(p, i as int + 1, s@.len() as int + 1) is None);
            return None;
        }
        i = i + 1;
    }
    None
}

/// Parses one diagnostic line of either mode for a target of kind `kind`.
pub fn diagnostic_line(kind: ProtocolKind, line: &str) -> (r: Vec<MetricEvent>)
    ensures
        events_view(r@) == diagnostic_events(type_label(kind), line@),
{
    let s = chars_of(line);
    let mut out: Vec<MetricEvent> = Vec::new();
    match keyed_value_exec(&s, &chars_of("RCV-DROPPED "), false, false, &chars_of(" packet")) {
        Some(q) => {
            emit(
                &mut out,
                MetricEvent::with1(
                    Metric::DroppedPackets,
                    label_of(kind).to_string(),
                    Update::IncBy(q),
                ),
            );
        },
        None => {},
    }
    match corrupt_stream_exec(line, &s) {
        Some(id) => {
            emit(
                &mut out,
                MetricEvent::with2(Metric::PacketCorrupt, id, "unknown".to_string(), Update::Inc),
            );
        },
        None => {},
    }
    match codec_message_exec(line, &s) {
        Some(m) => {
            emit(
                &mut out,
                MetricEvent::with2(
                    Metric::CodecErrors,
                    codec_category_exec(&m).to_string(),
                    "0".to_string(),
                    Update::Inc,
                ),
            );
        },
        None => {},
    }
    assert(events_view(out@) =~= diagnostic_events(type_label(kind), line@));
    out
}

fn frame_type_at_exec(s: &Vec<char>, j: usize) -> (r: bool)
    ensures
        r == frame_type_at(s@, j as int),
{
    let n = s.len();
    if j > n || n - j < 4 {
        return false;
    }
    let x = s[j + 3];
    s[j] == 'i' && s[j + 1] == 'n' && s[j + 2] == ' ' && (x == 'I' || x == 'P' || x == 'B')
        && occurs_at_exec(s, &chars_of(" frame"), j + 4)
}

fn concealed_frame_exec(s: &Vec<char>) -> (r: Option<usize>)
    ensures
        match r {
            Some(j) => concealed_frame(s@) == Some(j as int) && j + 4 <= s@.len(),
            None => concealed_frame(s@) is None,
        },
{
    let n = s.len();
    let word = chars_of("concealing");
    match find_from_exec(s, &word, 0) {
        Some(c) => {
            let from = c + word.len();
            let ghost p = frame_type_here(s@);
            assert(concealed_frame(s@) == last_where(p, from as int, n as int + 1));
            assert(!p(n as int));
            let mut end: usize = n;
            while end > from
                invariant
                    from <= end <= n,
                    n == s@.len(),
                    p == frame_type_here(s@),
                    last_where(p, from as int, n as int + 1) == last_where(p, from as int, end as int),
                    concealed_frame(s@) == last_where(p, from as int, n as int + 1),
                decreases end,
            {
                if frame_type_at_exec(s, end - 1) {
                    assert(p(end - 1));
                    assert(last_where(p, from as int, end as int) == Some(end - 1));
                    return Some(end - 1);
                }
                end = end - 1;
            }
            None
        },
        None => None,
    }
}

/// Parses one diagnostic line of a transcode of a target of kind `kind`.
pub fn transcode_diagnostic_line(kind: ProtocolKind, line: &str) -> (r: Vec<MetricEvent>)
    ensures
        events_view(r@) == transcode_diagnostic_events(type_label(kind), line@),
{
    let mut out = diagnostic_line(kind, line);
    let ghost shared = events_view(out@);
    let s = chars_of(line);
    let n = s.len();
    match find_from_exec(&s, &chars_of("corrupt packet"), 0) {
        Some(p) => {
            emit(
                &mut out,
                MetricEvent::with1(Metric::CorruptMarker, decimal_string(p as u64), Update::Inc),
            );
        },
        None => {},
    }
    if has_text(&s, &chars_of("error while decoding")) {
        emit(&mut out, MetricEvent::with1(Metric::DecodingErrors, "general".to_string(), Update::Inc));
    }
    match concealed_frame_exec(&s) {
        Some(j) => {
            let t = slice_string(line, j + 3, j + 4);
            assert(t@ =~= seq![s@[j + 3]]);
            emit(&mut out, MetricEvent::with1(Metric::DecodingErrors, t, Update::Inc));
        },
        None => {},
    }
    assert(events_view(out@) =~= transcode_diagnostic_events(type_label(kind), line@));
    out
}

} // verus!
