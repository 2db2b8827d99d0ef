use vstd::prelude::*;

verus! {

/// The settings of a probe monitor.
#[derive(Debug)]
pub struct Args {
    /// Input stream URL or path to monitor.
    pub input: String,
    /// Port on which metrics are exposed.
    pub metrics_port: u16,
    /// Path of the ffprobe executable.
    pub ffprobe_path: String,
    /// Probe size in bytes.
    pub probe_size: u32,
    /// Analysis duration in microseconds.
    pub analyze_duration: u32,
    /// Whether ffprobe writes a report log.
    pub report: bool,
}

} // verus!
