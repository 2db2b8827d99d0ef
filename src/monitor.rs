use vstd::prelude::*;

use std::sync::atomic::{AtomicBool, Ordering};
use std::sync::Arc;

use crate::protocol::{
    classified_as, path_exists, probe_args, same_text, target_outcome, texts, transcode_args,
    ClassifyError, StreamType,
};

verus! {

/// Why a monitor could not be set up.
#[derive(Clone, Copy, Debug, PartialEq, Eq, Structural)]
pub enum MonitorError {
    /// The input locator could not be classified.
    Classify(ClassifyError),
    /// An executable path other than the bare `ffmpeg` names no existing file.
    MissingExecutable,
}

/// Supervises a transcode of one input into one output file.
#[derive(Debug)]
pub struct FFmpegMonitor {
    pub output: String,
    pub stream_type: StreamType,
    pub ffmpeg_path: String,
    pub running: Arc<AtomicBool>,
}

/// Supervises a probe of one input.
#[derive(Debug)]
pub struct FFprobeMonitor {
    pub ffprobe_path: String,
    pub input: String,
    pub stream_type: StreamType,
    pub probe_size: u32,
    pub analyze_duration: u32,
    pub report: bool,
    pub running: Arc<AtomicBool>,
}

fn share_flag(flag: &Arc<AtomicBool>) -> (r: Arc<AtomicBool>) {
    Arc::clone(flag)
}

impl FFmpegMonitor {
    /// Sets up the supervision of a transcode of `input` into `output` with the executable at
    /// `ffmpeg_path`. The input is classified first; then an executable path other than the
    /// bare `ffmpeg` must name an existing file, which is asked of the filesystem.
    pub fn new(input: String, output: String, ffmpeg_path: String) -> (r: Result<
        FFmpegMonitor,
        MonitorError,
    >)
        ensures
            match r {
                Ok(m) => (exists|e: bool|
                    classified_as(
                        Ok::<StreamType, ClassifyError>(m.stream_type),
                        input@,
                        #[trigger] target_outcome(input@, e),
                    )) && m.output@ == output@ && m.ffmpeg_path@ == ffmpeg_path@,
                Err(MonitorError::Classify(c)) => exists|e: bool|
                    #[trigger] target_outcome(input@, e) == Err::<
                        crate::protocol::ProtocolKind,
                        ClassifyError,
                    >(c),
                Err(MonitorError::MissingExecutable) => ffmpeg_path@ != "ffmpeg"@ && exists|e: bool|
                    #[trigger] target_outcome(input@, e) is Ok,
            },
    {
        let stream_type = match StreamType::from_input(input.as_str()) {
            Ok(t) => t,
            Err(c) => {
                return Err(MonitorError::Classify(c));
            },
        };
        if !same_text(ffmpeg_path.as_str(), "ffmpeg") && !path_exists(ffmpeg_path.as_str()) {
            return Err(MonitorError::MissingExecutable);
        }
        Ok(FFmpegMonitor {
            output,
            stream_type,
            ffmpeg_path,
            running: Arc::new(AtomicBool::new(true)),
        })
    }

    /// The flag that stays set while supervision should go on; clearing it asks for a stop.
    pub fn get_running_handle(&self) -> Arc<AtomicBool> {
        share_flag(&self.running)
    }

    /// Whether supervision should go on.
    pub fn is_running(&self) -> bool {
        self.running.load(Ordering::SeqCst)
    }

    /// Asks supervision to stop.
    pub fn request_stop(&self) {
        self.running.store(false, Ordering::SeqCst);
    }

    /// The arguments of the transcode.
    pub fn ffmpeg_args(&self) -> (r: Vec<String>)
        ensures
            texts(r@) == transcode_args(
                self.stream_type.spec_kind(),
                self.stream_type.spec_locator(),
                self.output@,
            ),
    {
        self.stream_type.get_ffmpeg_args(self.output.as_str())
    }
}

impl FFprobeMonitor {
    /// Sets up the supervision of a probe of `input`, classified as `stream_type`.
    pub fn new(
        ffprobe_path: String,
        input: String,
        stream_type: StreamType,
        probe_size: u32,
        analyze_duration: u32,
        report: bool,
    ) -> (r: FFprobeMonitor)
        ensures
            r.ffprobe_path@ == ffprobe_path@,
            r.input@ == input@,
            r.stream_type.spec_kind() == stream_type.spec_kind(),
            r.stream_type.spec_locator() == stream_type.spec_locator(),
            r.probe_size == probe_size,
            r.analyze_duration == analyze_duration,
            r.report == report,
    {
        FFprobeMonitor {
            ffprobe_path,
            input,
            stream_type,
            probe_size,
            analyze_duration,
            report,
            running: Arc::new(AtomicBool::new(true)),
        }
    }

    /// The flag that stays set while supervision should go on; clearing it asks for a stop.
    pub fn get_running_handle(&self) -> Arc<AtomicBool> {
        share_flag(&self.running)
    }

    /// Whether supervision should go on.
    pub fn is_running(&self) -> bool {
        self.running.load(Ordering::SeqCst)
    }

    /// Asks supervision to stop.
    pub fn request_stop(&self) {
        self.running.store(false, Ordering::SeqCst);
    }

    /// The arguments of the probe.
    pub fn ffprobe_args(&self) -> (r: Vec<String>)
        ensures
            texts(r@) == probe_args(
                self.stream_type.spec_kind(),
                self.stream_type.spec_locator(),
                self.probe_size,
                self.analyze_duration,
                self.report,
            ),
    {
        self.stream_type.get_ffprobe_args(self.probe_size, self.analyze_duration, self.report)
    }
}

} // verus!
