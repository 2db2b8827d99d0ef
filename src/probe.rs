use vstd::prelude::*;

use crate::events::{count_metric, emit, emit_all, events_view, EventView, Metric, MetricEvent, Update};
use crate::protocol::{label_of, same_text, type_label, ProtocolKind};
use crate::text::{
    lemma_first_where, lemma_first_where_at, has_text,
    chars_of, contains, field_bounds, fields, lemma_decimal_ratio_den, lemma_field_bounds,
    number_value, number_value_exec, slice_string, split_commas, tail_chars, Ratio,
};

verus! {

/// Most timestamps a window keeps for one label.
pub const WINDOW_CAPACITY: usize = 100;

/// Least wall-clock time, in milliseconds, between two recomputations of frame rates.
pub const FPS_INTERVAL_MS: u64 = 1000;

/// A window as plain values: stream id, media type, timestamps in microseconds, oldest first.
pub type WindowView = (Seq<char>, Seq<char>, Seq<i64>);

/// The recent presentation timestamps of one (stream id, media type) label.
#[derive(Debug)]
pub struct FrameWindow {
    pub stream_id: String,
    pub media_type: String,
    pub times: Vec<i64>,
}

impl View for FrameWindow {
    type V = WindowView;

    open spec fn view(&self) -> WindowView {
        (self.stream_id@, self.media_type@, self.times@)
    }
}

pub open spec fn windows_view(ws: Seq<FrameWindow>) -> Seq<WindowView> {
    ws.map_values(|w: FrameWindow| w@)
}

/// Each window holds between one and `WINDOW_CAPACITY` timestamps, and no two windows share a
/// label.
pub open spec fn windows_wf(ws: Seq<WindowView>) -> bool {
    &&& forall|i: int| 0 <= i < ws.len() ==> 1 <= (#[trigger] ws[i]).2.len() <= WINDOW_CAPACITY
    &&& forall|i: int, j: int|
        0 <= i < j < ws.len() ==> (#[trigger] ws[i]).0 != (#[trigger] ws[j]).0 || ws[i].1
            != ws[j].1
}

/// Where the window of a label stands.
pub open spec fn window_index(ws: Seq<WindowView>, sid: Seq<char>, media: Seq<char>) -> Option<
    int,
> {
    crate::text::first_where(has_label(ws, sid, media), 0, ws.len() as int)
}

/// Position `i` of `ws` holds the window of the label.
pub open spec fn has_label(ws: Seq<WindowView>, sid: Seq<char>, media: Seq<char>) -> spec_fn(
    int,
) -> bool {
    |i: int| ws[i].0 == sid && ws[i].1 == media
}

/// Appends `t`, dropping the oldest timestamp when the window would pass its capacity.
pub open spec fn capped_push(w: Seq<i64>, t: i64) -> Seq<i64> {
    let p = w.push(t);
    if p.len() > WINDOW_CAPACITY {
        p.drop_first()
    } else {
        p
    }
}

/// The windows after a timestamp of a label is recorded.
pub open spec fn record_sample(ws: Seq<WindowView>, sid: Seq<char>, media: Seq<char>, t: i64) -> Seq<
    WindowView,
> {
    match window_index(ws, sid, media) {
        Some(i) => ws.update(i, (sid, media, capped_push(ws[i].2, t))),
        None => ws.push((sid, media, seq![t])),
    }
}

/// The windows after a run of timestamps is recorded, in order.
pub open spec fn record_all(ws: Seq<WindowView>, samples: Seq<(Seq<char>, Seq<char>, i64)>) -> Seq<
    WindowView,
>
    decreases samples.len(),
{
    if samples.len() == 0 {
        ws
    } else {
        let s = samples.last();
        record_sample(record_all(ws, samples.drop_last()), s.0, s.1, s.2)
    }
}

/// The frame rate of a window with at least two samples: (samples - 1) frames over the span
/// from the oldest to the newest timestamp. A zero span gives an unbounded rate, a negative
/// span a negative one.
pub open spec fn fps_update(ts: Seq<i64>) -> Update {
    let frames = ((ts.len() - 1) * 1000000) as u64;
    if ts.last() > ts[0] {
        Update::SetTo(Ratio { num: frames, den: (ts.last() - ts[0]) as u64 })
    } else if ts.last() == ts[0] {
        Update::SetUnbounded
    } else {
        Update::SetNegative(Ratio { num: frames, den: (ts[0] - ts.last()) as u64 })
    }
}

/// The frame-rate observation of a window: one for every window with at least two samples.
pub open spec fn fps_of(label: Seq<char>, w: WindowView) -> Seq<EventView> {
    if w.2.len() >= 2 {
        seq![(Metric::Fps, seq![label, w.0, w.1], fps_update(w.2))]
    } else {
        seq![]
    }
}

/// The frame-rate observations of all windows, in window order.
pub open spec fn fps_events(label: Seq<char>, ws: Seq<WindowView>) -> Seq<EventView>
    decreases ws.len(),
{
    if ws.len() == 0 {
        seq![]
    } else {
        fps_events(label, ws.drop_last()) + fps_of(label, ws.last())
    }
}

/// A timestamp in seconds, `[-]digits[.digits]`, in whole microseconds: decimals past the
/// sixth are cut off.
pub open spec fn micros_value(t: Seq<char>) -> Option<i64> {
    let neg = t.len() > 0 && t[0] == '-';
    let body = if neg {
        t.subrange(1, t.len() as int)
    } else {
        t
    };
    match number_value(body) {
        Some(q) => {
            let m: int = if q.den <= 1000000 {
                (q.num as int) * (1000000int / (q.den as int))
            } else {
                (q.num as int) / ((q.den as int) / 1000000int)
            };
            if m <= i64::MAX {
                Some(
                    (if neg {
                        -m
                    } else {
                        m
                    }) as i64,
                )
            } else {
                None
            }
        },
        None => None,
    }
}

/// A packet size in bytes as kilobits.
pub open spec fn kbit_of_bytes(q: Ratio) -> Option<Ratio> {
    if q.num as int * 8 <= u64::MAX && q.den as int * 1000 <= u64::MAX {
        Some(Ratio { num: (q.num * 8) as u64, den: (q.den * 1000) as u64 })
    } else {
        None
    }
}

/// Observations of a packet record: its size sets the bitrate of its label, and a `C` among its
/// flags counts a corrupt packet.
pub open spec fn packet_events(f: Seq<Seq<char>>) -> Seq<EventView> {
    if f.len() < 12 {
        seq![]
    } else {
        let bitrate = match number_value(f[9]) {
            Some(q) => match kbit_of_bytes(q) {
                Some(k) => seq![(Metric::Bitrate, seq![f[2], f[1]], Update::SetTo(k))],
                None => seq![],
            },
            None => seq![],
        };
        let corrupt = if contains(f[11], seq!['C']) {
            seq![(Metric::PacketCorrupt, seq![f[2], f[1]], Update::Inc)]
        } else {
            seq![]
        };
        bitrate + corrupt
    }
}

/// The outcome of a frame record on the windows `ws` last recomputed at `last`: observations,
/// windows, and the time of the last recomputation.
pub open spec fn frame_outcome(
    label: Seq<char>,
    ws: Seq<WindowView>,
    last: u64,
    f: Seq<Seq<char>>,
    now: u64,
) -> (Seq<EventView>, Seq<WindowView>, u64) {
    if f.len() < 6 {
        (seq![], ws, last)
    } else {
        let counted = seq![(Metric::Frames, seq!["processed"@, f[2], f[1]], Update::Inc)];
        match micros_value(f[5]) {
            Some(t) => {
                let ws2 = record_sample(ws, f[2], f[1], t);
                if now >= last + FPS_INTERVAL_MS {
                    (counted + fps_events(label, ws2), ws2, now)
                } else {
                    (counted, ws2, last)
                }
            },
            None => (counted, ws, last),
        }
    }
}

/// The outcome of one line of probe output.
pub open spec fn probe_line_outcome(
    label: Seq<char>,
    ws: Seq<WindowView>,
    last: u64,
    line: Seq<char>,
    now: u64,
) -> (Seq<EventView>, Seq<WindowView>, u64) {
    let f = fields(line);
    if f.len() < 3 {
        (seq![], ws, last)
    } else if f[0] == "packet"@ {
        (packet_events(f), ws, last)
    } else if f[0] == "frame"@ {
        frame_outcome(label, ws, last, f, now)
    } else {
        (seq![], ws, last)
    }
}


/// `b` holds the positions of the comma-separated fields of `line`.
pub open spec fn splits(line: Seq<char>, b: Seq<(usize, usize)>) -> bool {
    &&& b.len() == field_bounds(line).len()
    &&& forall|k: int|
        0 <= k < b.len() ==> (#[trigger] b[k]).0 as int == field_bounds(line)[k].0 && b[k].1 as int
            == field_bounds(line)[k].1
    &&& forall|k: int| 0 <= k < b.len() ==> (#[trigger] b[k]).0 <= b[k].1 <= line.len()
}

fn field_text(line: &str, b: &Vec<(usize, usize)>, k: usize) -> (r: String)
    requires
        splits(line@, b@),
        k < b@.len(),
    ensures
        r@ == fields(line@)[k as int],
{
    slice_string(line, b[k].0, b[k].1)
}

/// A timestamp in seconds, in microseconds.
pub fn micros_exec(t: &Vec<char>) -> (r: Option<i64>)
    ensures
        r == micros_value(t@),
{
    let neg = t.len() > 0 && t[0] == '-';
    let body = if neg {
        tail_chars(t, 1)
    } else {
        tail_chars(t, 0)
    };
    assert(t@.subrange(0, t@.len() as int) =~= t@);
    match number_value_exec(&body) {
        Some(q) => {
            proof {
                lemma_decimal_ratio_den(body@);
            }
            let m: u128 = if q.den > 1000000 {
                let d: u64 = q.den / 1000000;
                assert(d >= 1u64) by (nonlinear_arith)
                    requires
                        d == q.den / 1000000u64,
                        q.den > 1000000u64,
                ;
                (q.num / d) as u128
            } else {
                let f: u64 = 1000000 / q.den;
                assert(f <= 1000000u64) by (nonlinear_arith)
                    requires
                        f == 1000000u64 / q.den,
                        q.den >= 1u64,
                ;
                assert((q.num as int) * (f as int) <= 0xffff_ffff_ffff_ffffint * 1000000int)
                    by (nonlinear_arith)
                    requires
                        q.num as int <= 0xffff_ffff_ffff_ffffint,
                        f as int <= 1000000int,
                        q.num as int >= 0,
                        f as int >= 0,
                ;
                (q.num as u128) * (f as u128)
            };
            if m > 0x7fff_ffff_ffff_ffff {
                return None;
            }
            let v = m as i64;
            if neg {
                Some(-v)
            } else {
                Some(v)
            }
        },
        None => None,
    }
}

/// The parsing state of probe output: the frame windows of each label, and when frame rates
/// were last recomputed.
#[derive(Debug)]
pub struct ProbeParser {
    pub kind: ProtocolKind,
    pub windows: Vec<FrameWindow>,
    pub last_fps_update: u64,
}

impl ProbeParser {
    pub open spec fn wf(&self) -> bool {
        windows_wf(windows_view(self.windows@))
    }

    pub open spec fn spec_windows(&self) -> Seq<WindowView> {
        windows_view(self.windows@)
    }

    /// A parser for a target of kind `kind`, with no windows, started at `now` milliseconds.
    pub fn new(kind: ProtocolKind, now: u64) -> (r: ProbeParser)
        ensures
            r.wf(),
            r.kind == kind,
            r.spec_windows() == Seq::<WindowView>::empty(),
            r.last_fps_update == now,
    {
        let r = ProbeParser { kind, windows: Vec::new(), last_fps_update: now };
        assert(r.spec_windows() =~= Seq::<WindowView>::empty());
        r
    }

    fn find_window(&self, sid: &String, media: &String) -> (r: Option<usize>)
        ensures
            match r {
                Some(i) => window_index(self.spec_windows(), sid@, media@) == Some(i as int),
                None => window_index(self.spec_windows(), sid@, media@) is None,
            },
    {
        let ghost ws = self.spec_windows();
        let ghost p = has_label(ws, sid@, media@);
        let mut i: usize = 0;
        while i < self.windows.len()
            invariant
                i <= self.windows@.len(),
                ws == self.spec_windows(),
                p == has_label(ws, sid@, media@),
                crate::text::first_where(p, 0, ws.len() as int) == crate::text::first_where(
                    p,
                    i as int,
                    ws.len() as int,
                ),
            decreases self.windows@.len() - i,
        {
            if self.windows[i].stream_id == *sid && self.windows[i].media_type == *media {
                return Some(i);
            }
            i = i + 1;
        }
        None
    }

    /// Records timestamp `t` in the window of the label.
    pub fn record(&mut self, sid: String, media: String, t: i64)
        requires
            old(self).wf(),
        ensures
            final(self).wf(),
            final(self).spec_windows() == record_sample(old(self).spec_windows(), sid@, media@, t),
            final(self).kind == old(self).kind,
            final(self).last_fps_update == old(self).last_fps_update,
    {
        proof {
            lemma_record_sample(self.spec_windows(), sid@, media@, t);
            lemma_first_where(has_label(self.spec_windows(), sid@, media@), 0, self.spec_windows().len() as int);
        }
        let ghost ws = self.spec_windows();
        match self.find_window(&sid, &media) {
            Some(i) => {
                let mut w = self.windows.remove(i);
                w.times.push(t);
                if w.times.len() > WINDOW_CAPACITY {
                    w.times.remove(0);
                }
                assert(w.times@ =~= capped_push(ws[i as int].2, t));
                self.windows.insert(i, w);
                assert(self.spec_windows() =~= record_sample(ws, sid@, media@, t));
            },
            None => {
                let mut times: Vec<i64> = Vec::new();
                times.push(t);
                self.windows.push(FrameWindow { stream_id: sid, media_type: media, times });
                assert(self.spec_windows() =~= record_sample(ws, sid@, media@, t));
            },
        }
    }

    /// Frame-rate observations of every window that has enough samples.
    pub fn fps_all(&self) -> (r: Vec<MetricEvent>)
        requires
            self.wf(),
        ensures
            events_view(r@) == fps_events(type_label(self.kind), self.spec_windows()),
    {
        let ghost ws = self.spec_windows();
        let ghost label = type_label(self.kind);
        let mut out: Vec<MetricEvent> = Vec::new();
        let mut i: usize = 0;
        while i < self.windows.len()
            invariant
                i <= self.windows@.len(),
                ws == self.spec_windows(),
                label == type_label(self.kind),
                windows_wf(ws),
                events_view(out@) == fps_events(label, ws.subrange(0, i as int)),
            decreases self.windows@.len() - i,
        {
            proof {
                assert(ws.subrange(0, i as int + 1).drop_last() =~= ws.subrange(0, i as int));
                assert(ws[i as int] == self.windows@[i as int]@);
            }
            let w = &self.windows[i];
            let n = w.times.len();
            if n >= 2 {
                let num: u64 = ((n - 1) as u64) * 1000000;
                let newest = w.times[n - 1];
                let oldest = w.times[0];
                let update = if newest > oldest {
                    Update::SetTo(Ratio { num, den: (newest as i128 - oldest as i128) as u64 })
                } else if newest == oldest {
                    Update::SetUnbounded
                } else {
                    Update::SetNegative(Ratio { num, den: (oldest as i128 - newest as i128) as u64 })
                };
                let e = MetricEvent::with3(
                    Metric::Fps,
                    label_of(self.kind).to_string(),
                    w.stream_id.clone(),
                    w.media_type.clone(),
                    update,
                );
                emit(&mut out, e);
            }
            i = i + 1;
        }
        assert(ws.subrange(0, ws.len() as int) =~= ws);
        out
    }

    fn packet_line(line: &str, b: &Vec<(usize, usize)>) -> (r: Vec<MetricEvent>)
        requires
            splits(line@, b@),
        ensures
            events_view(r@) == packet_events(fields(line@)),
    {
        let mut out: Vec<MetricEvent> = Vec::new();
        if b.len() < 12 {
            assert(events_view(out@) =~= packet_events(fields(line@)));
            return out;
        }
        let size = chars_of(&field_text(line, b, 9));
        match number_value_exec(&size) {
            Some(q) => {
                if q.num <= u64::MAX / 8 && q.den <= u64::MAX / 1000 {
                    let e = MetricEvent::with2(
                        Metric::Bitrate,
                        field_text(line, b, 2),
                        field_text(line, b, 1),
                        Update::SetTo(Ratio { num: q.num * 8, den: q.den * 1000 }),
                    );
                    emit(&mut out, e);
                }
            },
            None => {},
        }
        let flags = chars_of(&field_text(line, b, 11));
        let mut marker: Vec<char> = Vec::new();
        marker.push('C');
        assert(marker@ =~= seq!['C']);
        if has_text(&flags, &marker) {
            let e = MetricEvent::with2(
                Metric::PacketCorrupt,
                field_text(line, b, 2),
                field_text(line, b, 1),
                Update::Inc,
            );
            emit(&mut out, e);
        }
        assert(events_view(out@) =~= packet_events(fields(line@)));
        out
    }

    fn frame_line(&mut self, line: &str, b: &Vec<(usize, usize)>, now: u64) -> (r: Vec<
        MetricEvent,
    >)
        requires
            old(self).wf(),
            splits(line@, b@),
        ensures
            final(self).wf(),
            final(self).kind == old(self).kind,
            (events_view(r@), final(self).spec_windows(), final(self).last_fps_update)
                == frame_outcome(
                type_label(old(self).kind),
                old(self).spec_windows(),
                old(self).last_fps_update,
                fields(line@),
                now,
            ),
    {
        let mut out: Vec<MetricEvent> = Vec::new();
        if b.len() < 6 {
            assert(events_view(out@) =~= Seq::<EventView>::empty());
            return out;
        }
        proof {
            reveal_strlit("processed");
        }
        let e = MetricEvent::with3(
            Metric::Frames,
            "processed".to_string(),
            field_text(line, b, 2),
            field_text(line, b, 1),
            Update::Inc,
        );
        emit(&mut out, e);
        let ghost counted = events_view(out@);
        let pts = chars_of(&field_text(line, b, 5));
        match micros_exec(&pts) {
            Some(t) => {
                self.record(field_text(line, b, 2), field_text(line, b, 1), t);
                if now >= self.last_fps_update && now - self.last_fps_update >= FPS_INTERVAL_MS {
                    let more = self.fps_all();
                    emit_all(&mut out, more);
                    self.last_fps_update = now;
                }
            },
            None => {},
        }
        assert(counted =~= seq![(Metric::Frames, seq!["processed"@, fields(line@)[2], fields(line@)[1]], Update::Inc)]);
        out
    }

    /// Parses one line of probe output read at `now` milliseconds: packet records set bitrates
    /// and count corrupt packets, frame records count frames, fill the frame windows and, once
    /// `FPS_INTERVAL_MS` has passed since the last time, recompute every frame rate.
    pub fn handle_line(&mut self, line: &str, now: u64) -> (r: Vec<MetricEvent>)
        requires
            old(self).wf(),
        ensures
            final(self).wf(),
            final(self).kind == old(self).kind,
            (events_view(r@), final(self).spec_windows(), final(self).last_fps_update)
                == probe_line_outcome(
                type_label(old(self).kind),
                old(self).spec_windows(),
                old(self).last_fps_update,
                line@,
                now,
            ),
    {
        let cs = chars_of(line);
        let b = split_commas(&cs);
        proof {
            lemma_field_bounds(line@);
        }
        if b.len() < 3 {
            let out: Vec<MetricEvent> = Vec::new();
            assert(events_view(out@) =~= Seq::<EventView>::empty());
            return out;
        }
        let first = field_text(line, &b, 0);
        if same_text(first.as_str(), "packet") {
            ProbeParser::packet_line(line, &b)
        } else if same_text(first.as_str(), "frame") {
            self.frame_line(line, &b, now)
        } else {
            let out: Vec<MetricEvent> = Vec::new();
            assert(events_view(out@) =~= Seq::<EventView>::empty());
            out
        }
    }
}

/// A packet record whose size field is a number sets the bitrate of its (stream id, media type)
/// label to size × 8 / 1000 and leaves the frame windows alone; a `C` among its flags counts
/// exactly one corrupt packet for that label, and no `C` counts none.
pub proof fn lemma_packet_record(
    label: Seq<char>,
    ws: Seq<WindowView>,
    last: u64,
    line: Seq<char>,
    now: u64,
    size: Ratio,
)
    requires
        fields(line).len() >= 12,
        fields(line)[0] == "packet"@,
        number_value(fields(line)[9]) == Some(size),
        size.num as int * 8 <= u64::MAX,
        size.den as int * 1000 <= u64::MAX,
    ensures
        probe_line_outcome(label, ws, last, line, now) == (
            packet_events(fields(line)),
            ws,
            last,
        ),
        packet_events(fields(line))[0] == (
            Metric::Bitrate,
            seq![fields(line)[2], fields(line)[1]],
            Update::SetTo(Ratio { num: (size.num * 8) as u64, den: (size.den * 1000) as u64 }),
        ),
        count_metric(packet_events(fields(line)), Metric::PacketCorrupt) == if contains(
            fields(line)[11],
            seq!['C'],
        ) {
            1nat
        } else {
            0nat
        },
{
    let ev = packet_events(fields(line));
    if contains(fields(line)[11], seq!['C']) {
        assert(ev.drop_last() =~= seq![ev[0]]);
        assert(ev.drop_last().drop_last() =~= Seq::<EventView>::empty());
        assert(count_metric(ev.drop_last().drop_last(), Metric::PacketCorrupt) == 0);
        assert(count_metric(ev.drop_last(), Metric::PacketCorrupt) == 0);
        assert(count_metric(ev, Metric::PacketCorrupt) == 1);
    } else {
        assert(ev.drop_last() =~= Seq::<EventView>::empty());
        assert(count_metric(ev.drop_last(), Metric::PacketCorrupt) == 0);
        assert(count_metric(ev, Metric::PacketCorrupt) == 0);
    }
}

/// Recording a timestamp keeps every window within its capacity and the labels distinct; the
/// label's window becomes its old timestamps followed by the new one, less the oldest beyond
/// capacity.
pub proof fn lemma_record_sample(ws: Seq<WindowView>, sid: Seq<char>, media: Seq<char>, t: i64)
    requires
        windows_wf(ws),
    ensures
        windows_wf(record_sample(ws, sid, media, t)),
        window_index(record_sample(ws, sid, media, t), sid, media) matches Some(i)
            && record_sample(ws, sid, media, t)[i].2 == capped_push(
            match window_index(ws, sid, media) {
                Some(j) => ws[j].2,
                None => Seq::empty(),
            },
            t,
        ),
{
    let p = has_label(ws, sid, media);
    lemma_first_where(p, 0, ws.len() as int);
    let r = record_sample(ws, sid, media, t);
    let q = has_label(r, sid, media);
    match window_index(ws, sid, media) {
        Some(i) => {
            assert forall|j: int| 0 <= j < i implies !#[trigger] q(j) by {
                assert(r[j] == ws[j]);
                assert(!p(j));
            }
            lemma_first_where_at(q, 0, ws.len() as int, i);
            assert forall|a: int, b: int|
                0 <= a < b < r.len() implies (#[trigger] r[a]).0 != (#[trigger] r[b]).0 || r[a].1
                != r[b].1 by {
                if a == i {
                    assert(!p(b));
                } else if b == i {
                    assert(!p(a));
                }
            }
        },
        None => {
            assert(capped_push(Seq::<i64>::empty(), t) =~= seq![t]);
            assert forall|j: int| 0 <= j < ws.len() implies !#[trigger] q(j) by {
                assert(r[j] == ws[j]);
                assert(!p(j));
            }
            lemma_first_where_at(q, 0, r.len() as int, ws.len() as int);
            assert forall|a: int, b: int|
                0 <= a < b < r.len() implies (#[trigger] r[a]).0 != (#[trigger] r[b]).0 || r[a].1
                != r[b].1 by {
                if b == ws.len() {
                    assert(!p(a));
                }
            }
        },
    }
}

/// A label's windows stay within capacity after any number of recorded timestamps.
pub proof fn lemma_windows_stay_bounded(
    ws: Seq<WindowView>,
    samples: Seq<(Seq<char>, Seq<char>, i64)>,
)
    requires
        windows_wf(ws),
    ensures
        windows_wf(record_all(ws, samples)),
        forall|i: int|
            0 <= i < record_all(ws, samples).len() ==> (#[trigger] record_all(ws, samples)[i]).2.len()
                <= WINDOW_CAPACITY,
    decreases samples.len(),
{
    if samples.len() > 0 {
        lemma_windows_stay_bounded(ws, samples.drop_last());
        let s = samples.last();
        lemma_record_sample(record_all(ws, samples.drop_last()), s.0, s.1, s.2);
    }
}

} // verus!
