use vstd::prelude::*;

use crate::text::Ratio;

verus! {

/// The series that observations are written to. The comment on each names its labels, in order.
#[derive(Clone, Copy, Debug, PartialEq, Eq, Structural)]
pub enum Metric {
    /// Frames per second estimated from presentation timestamps: stream type, stream id, media type.
    Fps,
    /// Frames seen in probe records: state, stream id, media type.
    Frames,
    /// Bitrate of the last packet in kbit: stream id, media type.
    Bitrate,
    /// Corrupt packets: stream id, media type.
    PacketCorrupt,
    /// Packets the receiver dropped: stream type.
    DroppedPackets,
    /// Codec errors: error category, stream id.
    CodecErrors,
    /// 1 while a session is believed connected, else 0: stream type.
    ConnectionState,
    /// Sessions that ended and were retried: stream type.
    ConnectionReset,
    /// Why sessions ended: stream type, reason.
    SessionErrors,
    /// Seconds since the current session started: stream type.
    Uptime,
    /// Frames per second reported by a transcode: no labels.
    ProgressFps,
    /// Frames a transcode has written: state.
    ProgressFrames,
    /// Speed of a transcode as a multiple of real time: no labels.
    ProgressSpeed,
    /// Output bitrate of a transcode in kbit/s: no labels.
    ProgressBitrate,
    /// Corruption reported by a transcode: position of the marker in the line.
    CorruptMarker,
    /// Decoding errors of a transcode: `general` or the frame type.
    DecodingErrors,
}

/// How an observation changes its series.
#[derive(Clone, Copy, Debug, PartialEq, Eq, Structural)]
pub enum Update {
    /// Sets a gauge to the value.
    SetTo(Ratio),
    /// Sets a gauge to the value taken negative.
    SetNegative(Ratio),
    /// Sets a gauge to positive infinity.
    SetUnbounded,
    /// Adds one to a counter.
    Inc,
    /// Adds the value to a counter.
    IncBy(Ratio),
}

/// One observation for the metrics sink.
#[derive(Debug)]
pub struct MetricEvent {
    pub metric: Metric,
    pub labels: Vec<String>,
    pub update: Update,
}

/// An observation as plain values: series, label texts, update.
pub type EventView = (Metric, Seq<Seq<char>>, Update);

impl View for MetricEvent {
    type V = EventView;

    open spec fn view(&self) -> EventView {
        (self.metric, self.labels@.map_values(|l: String| l@), self.update)
    }
}

/// The plain values of a list of observations.
pub open spec fn events_view(v: Seq<MetricEvent>) -> Seq<EventView> {
    v.map_values(|e: MetricEvent| e@)
}

/// How many observations of `events` go to `metric`.
pub open spec fn count_metric(events: Seq<EventView>, metric: Metric) -> nat
    decreases events.len(),
{
    if events.len() == 0 {
        0
    } else {
        count_metric(events.drop_last(), metric) + if events.last().0 == metric {
            1nat
        } else {
            0nat
        }
    }
}

impl MetricEvent {
    /// An observation without labels.
    pub fn unlabelled(metric: Metric, update: Update) -> (r: MetricEvent)
        ensures
            r@ == (metric, Seq::<Seq<char>>::empty(), update),
    {
        let r = MetricEvent { metric, labels: Vec::new(), update };
        assert(r@.1 =~= Seq::<Seq<char>>::empty());
        r
    }

    /// An observation with one label.
    pub fn with1(metric: Metric, a: String, update: Update) -> (r: MetricEvent)
        ensures
            r@ == (metric, seq![a@], update),
    {
        let ghost va = a@;
        let mut labels: Vec<String> = Vec::new();
        labels.push(a);
        let r = MetricEvent { metric, labels, update };
        assert(r@.1 =~= seq![va]);
        r
    }

    /// An observation with two labels.
    pub fn with2(metric: Metric, a: String, b: String, update: Update) -> (r: MetricEvent)
        ensures
            r@ == (metric, seq![a@, b@], update),
    {
        let ghost va = a@;
        let ghost vb = b@;
        let mut labels: Vec<String> = Vec::new();
        labels.push(a);
        labels.push(b);
        let r = MetricEvent { metric, labels, update };
        assert(r@.1 =~= seq![va, vb]);
        r
    }

    /// An observation with three labels.
    pub fn with3(metric: Metric, a: String, b: String, c: String, update: Update) -> (r:
        MetricEvent)
        ensures
            r@ == (metric, seq![a@, b@, c@], update),
    {
        let ghost va = a@;
        let ghost vb = b@;
        let ghost vc = c@;
        let mut labels: Vec<String> = Vec::new();
        labels.push(a);
        labels.push(b);
        labels.push(c);
        let r = MetricEvent { metric, labels, update };
        assert(r@.1 =~= seq![va, vb, vc]);
        r
    }
}

/// Appends `e` to `out`.
pub fn emit(out: &mut Vec<MetricEvent>, e: MetricEvent)
    ensures
        events_view(final(out)@) == events_view(old(out)@).push(e@),
{
    let ghost ve = e@;
    out.push(e);
    assert(events_view(final(out)@) =~= events_view(old(out)@).push(ve));
}

/// Appends all of `more` to `out`.
pub fn emit_all(out: &mut Vec<MetricEvent>, more: Vec<MetricEvent>)
    ensures
        events_view(final(out)@) == events_view(old(out)@) + events_view(more@),
{
    let ghost added = more@;
    let mut more = more;
    out.append(&mut more);
    assert(events_view(final(out)@) =~= events_view(old(out)@) + events_view(added));
}

} // verus!
