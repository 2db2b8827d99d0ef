use vstd::prelude::*;

use crate::events::{emit, events_view, EventView, Metric, MetricEvent, Update};
use crate::text::{chars_of, keyed_value, keyed_value_exec, Ratio};

verus! {

/// A gauge observation when a value was read.
pub open spec fn set_if(metric: Metric, labels: Seq<Seq<char>>, q: Option<Ratio>) -> Seq<EventView> {
    match q {
        Some(v) => seq![(metric, labels, Update::SetTo(v))],
        None => seq![],
    }
}

/// Observations of a progress line of a transcode: each of the current frame rate
/// (`fps=`), the frames written (`frame=`), the speed (`speed=...x`) and the bitrate
/// (`bitrate=...kbits/s`) that the line reports.
pub open spec fn progress_events(s: Seq<char>) -> Seq<EventView> {
    set_if(Metric::ProgressFps, seq![], keyed_value(s, "fps="@, true, true, ""@)) + set_if(
        Metric::ProgressFrames,
        seq!["processed"@],
        keyed_value(s, "frame="@, true, false, ""@),
    ) + set_if(Metric::ProgressSpeed, seq![], keyed_value(s, "speed="@, true, true, "x"@))
        + set_if(
        Metric::ProgressBitrate,
        seq![],
        keyed_value(s, "bitrate="@, true, true, "kbits/s"@),
    )
}

/// Parses one progress line of a transcode.
pub fn progress_line(line: &str) -> (r: Vec<MetricEvent>)
    ensures
        events_view(r@) == progress_events(line@),
{
    let s = chars_of(line);
    let none = chars_of("");
    let mut out: Vec<MetricEvent> = Vec::new();
    match keyed_value_exec(&s, &chars_of("fps="), true, true, &none) {
        Some(q) => emit(&mut out, MetricEvent::unlabelled(Metric::ProgressFps, Update::SetTo(q))),
        None => {},
    }
    match keyed_value_exec(&s, &chars_of("frame="), true, false, &none) {
        Some(q) => emit(
            &mut out,
            MetricEvent::with1(Metric::ProgressFrames, "processed".to_string(), Update::SetTo(q)),
        ),
        None => {},
    }
    match keyed_value_exec(&s, &chars_of("speed="), true, true, &chars_of("x")) {
        Some(q) => emit(&mut out, MetricEvent::unlabelled(Metric::ProgressSpeed, Update::SetTo(q))),
        None => {},
    }
    match keyed_value_exec(&s, &chars_of("bitrate="), true, true, &chars_of("kbits/s")) {
        Some(q) => emit(
            &mut out,
            MetricEvent::unlabelled(Metric::ProgressBitrate, Update::SetTo(q)),
        ),
        None => {},
    }
    assert(events_view(out@) =~= progress_events(line@));
    out
}

} // verus!
