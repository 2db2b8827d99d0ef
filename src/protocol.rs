use vstd::prelude::*;

use crate::text::{occurs_at, occurs_at_exec, chars_of};

verus! {

/// The kinds of stream target the monitor understands.
#[derive(Clone, Copy, Debug, PartialEq, Eq, Structural)]
pub enum ProtocolKind {
    Srt,
    Hls,
    MpegTs,
    Rtmp,
    Rtsp,
    Udp,
    Rdp,
    File,
}

/// A classified stream target: its kind together with the locator it was read from.
#[derive(Debug)]
pub enum StreamType {
    Srt(String),
    Hls(String),
    MpegTs(String),
    Rtmp(String),
    Rtsp(String),
    Udp(String),
    Rdp(String),
    File(String),
}

/// Why a locator could not be classified.
#[derive(Clone, Copy, Debug, PartialEq, Eq, Structural)]
pub enum ClassifyError {
    /// The locator is a URL whose scheme is not supported.
    UnsupportedScheme,
    /// The locator names an existing file without an extension.
    UnknownFileType,
    /// The locator is neither a URL, a remote-desktop target, nor an existing file.
    UnresolvableTarget,
}

/// The scheme that the `url` crate parses out of `s`, lower-cased; `None` when `s` is not an
/// absolute URL.
pub uninterp spec fn parsed_scheme(s: Seq<char>) -> Option<Seq<char>>;

/// The path that the `url` crate parses out of `s`; `None` when `s` is not an absolute URL.
pub uninterp spec fn parsed_path(s: Seq<char>) -> Option<Seq<char>>;

/// The extension of the file name of `s` read as a filesystem path, without the dot. It depends
/// on the text alone for a given target platform: the platforms split paths by different
/// separators.
pub uninterp spec fn path_extension(s: Seq<char>) -> Option<Seq<char>>;

/// Relies on `url::Url::parse` and `url::Url::scheme`: the scheme of an absolute URL.
#[verifier::external_body]
fn url_scheme(input: &str) -> (r: Option<String>)
    ensures
        match r {
            Some(s) => parsed_scheme(input@) == Some(s@),
            None => parsed_scheme(input@) is None,
        },
{
    match url::Url::parse(input) {
        Ok(u) => Some(u.scheme().to_string()),
        Err(_) => None,
    }
}

/// Relies on `url::Url::parse` and `url::Url::path`: the path of an absolute URL.
#[verifier::external_body]
fn url_path(input: &str) -> (r: Option<String>)
    ensures
        match r {
            Some(s) => parsed_path(input@) == Some(s@),
            None => parsed_path(input@) is None,
        },
{
    match url::Url::parse(input) {
        Ok(u) => Some(u.path().to_string()),
        Err(_) => None,
    }
}

/// Relies on `std::path::Path::extension`: the extension of the final component of a path.
#[verifier::external_body]
fn file_extension(input: &str) -> (r: Option<String>)
    ensures
        match r {
            Some(s) => path_extension(input@) == Some(s@),
            None => path_extension(input@) is None,
        },
{
    match std::path::Path::new(input).extension() {
        Some(e) => match e.to_str() {
            Some(t) => Some(t.to_string()),
            None => None,
        },
        None => None,
    }
}

/// Relies on `std::path::Path::exists`, which asks the filesystem; nothing is known of its
/// answer.
#[verifier::external_body]
pub(crate) fn path_exists(input: &str) -> (r: bool) {
    std::path::Path::new(input).exists()
}

pub open spec fn starts_with(s: Seq<char>, p: Seq<char>) -> bool {
    occurs_at(s, p, 0)
}

pub open spec fn ends_with(s: Seq<char>, p: Seq<char>) -> bool {
    occurs_at(s, p, s.len() - p.len())
}

/// A remote-desktop target: an `rdp://` locator or one that ends in the RDP port.
pub open spec fn is_remote_desktop(s: Seq<char>) -> bool {
    starts_with(s, "rdp://"@) || ends_with(s, ":3389"@)
}

/// The kind that a URL scheme maps to, with the URL's path for the HTTP family.
pub open spec fn kind_of_scheme(scheme: Seq<char>, path: Seq<char>) -> Result<
    ProtocolKind,
    ClassifyError,
> {
    if scheme == "srt"@ {
        Ok(ProtocolKind::Srt)
    } else if scheme == "rtmp"@ {
        Ok(ProtocolKind::Rtmp)
    } else if scheme == "rtsp"@ {
        Ok(ProtocolKind::Rtsp)
    } else if scheme == "udp"@ {
        Ok(ProtocolKind::Udp)
    } else if scheme == "http"@ || scheme == "https"@ {
        if ends_with(path, ".ts"@) {
            Ok(ProtocolKind::MpegTs)
        } else {
            Ok(ProtocolKind::Hls)
        }
    } else {
        Err(ClassifyError::UnsupportedScheme)
    }
}

/// The kind that the extension of an existing file maps to.
pub open spec fn kind_of_extension(ext: Option<Seq<char>>) -> Result<ProtocolKind, ClassifyError> {
    match ext {
        Some(e) => if e == "ts"@ {
            Ok(ProtocolKind::MpegTs)
        } else if e == "m3u8"@ || e == "m3u"@ {
            Ok(ProtocolKind::Hls)
        } else {
            Ok(ProtocolKind::File)
        },
        None => Err(ClassifyError::UnknownFileType),
    }
}

/// Classification in its fixed order: URL scheme, then remote-desktop pattern, then an existing
/// file's extension, else failure.
pub open spec fn classify_spec(
    input: Seq<char>,
    scheme: Option<Seq<char>>,
    path: Seq<char>,
    exists: bool,
    ext: Option<Seq<char>>,
) -> Result<ProtocolKind, ClassifyError> {
    match scheme {
        Some(sc) => kind_of_scheme(sc, path),
        None => if is_remote_desktop(input) {
            Ok(ProtocolKind::Rdp)
        } else if exists {
            kind_of_extension(ext)
        } else {
            Err(ClassifyError::UnresolvableTarget)
        },
    }
}

/// What a locator classifies as, given whether it names an existing file.
pub open spec fn target_outcome(input: Seq<char>, exists: bool) -> Result<ProtocolKind, ClassifyError> {
    classify_spec(
        input,
        parsed_scheme(input),
        match parsed_path(input) {
            Some(p) => p,
            None => Seq::empty(),
        },
        exists,
        path_extension(input),
    )
}

/// `r` is the outcome `expected` for the locator `input`.
pub open spec fn classified_as(
    r: Result<StreamType, ClassifyError>,
    input: Seq<char>,
    expected: Result<ProtocolKind, ClassifyError>,
) -> bool {
    match r {
        Ok(t) => expected == Ok::<ProtocolKind, ClassifyError>(t.spec_kind()) && t.spec_locator()
            == input,
        Err(e) => expected == Err::<ProtocolKind, ClassifyError>(e),
    }
}

/// The label under which metrics of a kind are reported.
pub open spec fn type_label(k: ProtocolKind) -> Seq<char> {
    match k {
        ProtocolKind::Srt => "srt"@,
        ProtocolKind::Hls => "hls"@,
        ProtocolKind::MpegTs => "mpegts"@,
        ProtocolKind::Rtmp => "rtmp"@,
        ProtocolKind::Rtsp => "rtsp"@,
        ProtocolKind::Udp => "udp"@,
        ProtocolKind::Rdp => "rdp"@,
        ProtocolKind::File => "file"@,
    }
}

/// The metric label of a kind.
pub fn label_of(k: ProtocolKind) -> (r: &'static str)
    ensures
        r@ == type_label(k),
{
    match k {
        ProtocolKind::Srt => "srt",
        ProtocolKind::Hls => "hls",
        ProtocolKind::MpegTs => "mpegts",
        ProtocolKind::Rtmp => "rtmp",
        ProtocolKind::Rtsp => "rtsp",
        ProtocolKind::Udp => "udp",
        ProtocolKind::Rdp => "rdp",
        ProtocolKind::File => "file",
    }
}

/// Tests whether `s` and `t` hold the same characters.
pub fn same_text(s: &str, t: &str) -> (r: bool)
    ensures
        r == (s@ == t@),
{
    let a = chars_of(s);
    let b = chars_of(t);
    if a.len() != b.len() {
        return false;
    }
    let r = occurs_at_exec(&a, &b, 0);
    assert(a@.subrange(0, b@.len() as int) =~= a@);
    r
}

/// Tests whether `s` begins with `p`.
pub fn has_prefix(s: &str, p: &str) -> (r: bool)
    ensures
        r == starts_with(s@, p@),
{
    let a = chars_of(s);
    let b = chars_of(p);
    occurs_at_exec(&a, &b, 0)
}

/// Tests whether `s` ends with `p`.
pub fn has_suffix(s: &str, p: &str) -> (r: bool)
    ensures
        r == ends_with(s@, p@),
{
    let a = chars_of(s);
    let b = chars_of(p);
    if b.len() > a.len() {
        return false;
    }
    occurs_at_exec(&a, &b, a.len() - b.len())
}

pub fn kind_for_scheme(scheme: &str, path: &str) -> (r: Result<ProtocolKind, ClassifyError>)
    ensures
        r == kind_of_scheme(scheme@, path@),
{
    if same_text(scheme, "srt") {
        Ok(ProtocolKind::Srt)
    } else if same_text(scheme, "rtmp") {
        Ok(ProtocolKind::Rtmp)
    } else if same_text(scheme, "rtsp") {
        Ok(ProtocolKind::Rtsp)
    } else if same_text(scheme, "udp") {
        Ok(ProtocolKind::Udp)
    } else if same_text(scheme, "http") || same_text(scheme, "https") {
        if has_suffix(path, ".ts") {
            Ok(ProtocolKind::MpegTs)
        } else {
            Ok(ProtocolKind::Hls)
        }
    } else {
        Err(ClassifyError::UnsupportedScheme)
    }
}

pub fn kind_for_extension(ext: Option<&str>) -> (r: Result<ProtocolKind, ClassifyError>)
    ensures
        r == kind_of_extension(
            match ext {
                Some(e) => Some(e@),
                None => None,
            },
        ),
{
    match ext {
        Some(e) => if same_text(e, "ts") {
            Ok(ProtocolKind::MpegTs)
        } else if same_text(e, "m3u8") || same_text(e, "m3u") {
            Ok(ProtocolKind::Hls)
        } else {
            Ok(ProtocolKind::File)
        },
        None => Err(ClassifyError::UnknownFileType),
    }
}

/// The ASCII digit for `d`.
pub open spec fn digit_char(d: nat) -> char {
    if d == 0 {
        '0'
    } else if d == 1 {
        '1'
    } else if d == 2 {
        '2'
    } else if d == 3 {
        '3'
    } else if d == 4 {
        '4'
    } else if d == 5 {
        '5'
    } else if d == 6 {
        '6'
    } else if d == 7 {
        '7'
    } else if d == 8 {
        '8'
    } else {
        '9'
    }
}

/// The decimal numeral of `n`, without leading zeros.
pub open spec fn decimal_spec(n: nat) -> Seq<char>
    decreases n,
{
    if n < 10 {
        seq![digit_char(n)]
    } else {
        decimal_spec(n / 10).push(digit_char(n % 10))
    }
}

/// The texts held by a list of strings.
pub open spec fn texts(v: Seq<String>) -> Seq<Seq<char>> {
    v.map_values(|a: String| a@)
}

/// Flags that a kind adds to a probe: forced TCP where the protocol defaults to an unreliable
/// transport, and a start at the newest segment for playlists.
pub open spec fn probe_protocol_flags(k: ProtocolKind) -> Seq<Seq<char>> {
    match k {
        ProtocolKind::Rtsp => seq!["-rtsp_transport"@, "tcp"@],
        ProtocolKind::Hls => seq!["-live_start_index"@, "-1"@],
        _ => seq![],
    }
}

/// The full argument list of a probe of `locator`.
pub open spec fn probe_args(
    k: ProtocolKind,
    locator: Seq<char>,
    probe_size: u32,
    analyze_duration: u32,
    report: bool,
) -> Seq<Seq<char>> {
    (if report {
        seq!["-report"@]
    } else {
        seq![]
    }) + seq!["-show_packets"@, "-show_frames"@, "-of"@, "csv"@] + probe_protocol_flags(k) + seq![
        "-probesize"@,
        decimal_spec(probe_size as nat),
        "-analyzeduration"@,
        decimal_spec(analyze_duration as nat),
        "-i"@,
        locator,
    ]
}

/// How a transcode acquires its input: a capture-device selector for screen capture, the
/// newest segment for playlists, a receive timeout for network streams.
pub open spec fn transcode_input_args(k: ProtocolKind, locator: Seq<char>) -> Seq<Seq<char>> {
    match k {
        ProtocolKind::Rdp => seq!["-f"@, "gdigrab"@, "-i"@, locator],
        ProtocolKind::Hls => seq!["-live_start_index"@, "-1"@, "-i"@, locator],
        ProtocolKind::File => seq!["-i"@, locator],
        ProtocolKind::Rtsp => seq![
            "-rtsp_transport"@,
            "tcp"@,
            "-rw_timeout"@,
            "5000000"@,
            "-i"@,
            locator,
        ],
        _ => seq!["-rw_timeout"@, "5000000"@, "-i"@, locator],
    }
}

/// The full argument list of a transcode of `locator` into `output`: input flags, then
/// once-a-second statistics and a progress stream on standard output, then the destination.
pub open spec fn transcode_args(k: ProtocolKind, locator: Seq<char>, output: Seq<char>) -> Seq<
    Seq<char>,
> {
    transcode_input_args(k, locator) + seq![
        "-stats"@,
        "-stats_period"@,
        "1"@,
        "-progress"@,
        "pipe:1"@,
        output,
    ]
}

fn digit_str(d: u64) -> (r: &'static str)
    requires
        d < 10,
    ensures
        r@ == seq![digit_char(d as nat)],
{
    proof {
        reveal_strlit("0");
        reveal_strlit("1");
        reveal_strlit("2");
        reveal_strlit("3");
        reveal_strlit("4");
        reveal_strlit("5");
        reveal_strlit("6");
        reveal_strlit("7");
        reveal_strlit("8");
        reveal_strlit("9");
    }
    if d == 0 {
        "0"
    } else if d == 1 {
        "1"
    } else if d == 2 {
        "2"
    } else if d == 3 {
        "3"
    } else if d == 4 {
        "4"
    } else if d == 5 {
        "5"
    } else if d == 6 {
        "6"
    } else if d == 7 {
        "7"
    } else if d == 8 {
        "8"
    } else {
        "9"
    }
}

/// The decimal numeral of `n`.
pub fn decimal_string(n: u64) -> (r: String)
    ensures
        r@ == decimal_spec(n as nat),
    decreases n,
{
    if n < 10 {
        digit_str(n).to_string()
    } else {
        let mut s = decimal_string(n / 10);
        s.append(digit_str(n % 10));
        s
    }
}

fn push_arg(args: &mut Vec<String>, a: &str)
    ensures
        texts(final(args)@) == texts(old(args)@).push(a@),
{
    args.push(a.to_string());
    assert(texts(final(args)@) =~= texts(old(args)@).push(a@));
}

fn push_owned(args: &mut Vec<String>, a: String)
    ensures
        texts(final(args)@) == texts(old(args)@).push(a@),
{
    let ghost v = a@;
    args.push(a);
    assert(texts(final(args)@) =~= texts(old(args)@).push(v));
}

impl Clone for StreamType {
    fn clone(&self) -> (r: StreamType)
        ensures
            r.spec_kind() == self.spec_kind(),
            r.spec_locator() == self.spec_locator(),
    {
        StreamType::with_kind(self.kind(), self.locator().clone())
    }
}

impl StreamType {
    pub open spec fn spec_kind(&self) -> ProtocolKind {
        match self {
            StreamType::Srt(_) => ProtocolKind::Srt,
            StreamType::Hls(_) => ProtocolKind::Hls,
            StreamType::MpegTs(_) => ProtocolKind::MpegTs,
            StreamType::Rtmp(_) => ProtocolKind::Rtmp,
            StreamType::Rtsp(_) => ProtocolKind::Rtsp,
            StreamType::Udp(_) => ProtocolKind::Udp,
            StreamType::Rdp(_) => ProtocolKind::Rdp,
            StreamType::File(_) => ProtocolKind::File,
        }
    }

    pub open spec fn spec_locator(&self) -> Seq<char> {
        match self {
            StreamType::Srt(s) => s@,
            StreamType::Hls(s) => s@,
            StreamType::MpegTs(s) => s@,
            StreamType::Rtmp(s) => s@,
            StreamType::Rtsp(s) => s@,
            StreamType::Udp(s) => s@,
            StreamType::Rdp(s) => s@,
            StreamType::File(s) => s@,
        }
    }

    /// A target of kind `kind` read from `locator`.
    pub fn with_kind(kind: ProtocolKind, locator: String) -> (r: StreamType)
        ensures
            r.spec_kind() == kind,
            r.spec_locator() == locator@,
    {
        match kind {
            ProtocolKind::Srt => StreamType::Srt(locator),
            ProtocolKind::Hls => StreamType::Hls(locator),
            ProtocolKind::MpegTs => StreamType::MpegTs(locator),
            ProtocolKind::Rtmp => StreamType::Rtmp(locator),
            ProtocolKind::Rtsp => StreamType::Rtsp(locator),
            ProtocolKind::Udp => StreamType::Udp(locator),
            ProtocolKind::Rdp => StreamType::Rdp(locator),
            ProtocolKind::File => StreamType::File(locator),
        }
    }

    /// The kind of this target.
    pub fn kind(&self) -> (r: ProtocolKind)
        ensures
            r == self.spec_kind(),
    {
        match self {
            StreamType::Srt(_) => ProtocolKind::Srt,
            StreamType::Hls(_) => ProtocolKind::Hls,
            StreamType::MpegTs(_) => ProtocolKind::MpegTs,
            StreamType::Rtmp(_) => ProtocolKind::Rtmp,
            StreamType::Rtsp(_) => ProtocolKind::Rtsp,
            StreamType::Udp(_) => ProtocolKind::Udp,
            StreamType::Rdp(_) => ProtocolKind::Rdp,
            StreamType::File(_) => ProtocolKind::File,
        }
    }

    /// The locator this target was read from.
    pub fn locator(&self) -> (r: &String)
        ensures
            r@ == self.spec_locator(),
    {
        match self {
            StreamType::Srt(s) => s,
            StreamType::Hls(s) => s,
            StreamType::MpegTs(s) => s,
            StreamType::Rtmp(s) => s,
            StreamType::Rtsp(s) => s,
            StreamType::Udp(s) => s,
            StreamType::Rdp(s) => s,
            StreamType::File(s) => s,
        }
    }

    /// Classifies `input` given what was learnt of it: its URL scheme and path when it is an
    /// absolute URL, whether it names an existing file, and that file's extension.
    pub fn classify(
        input: &str,
        scheme: Option<&str>,
        path: &str,
        exists: bool,
        extension: Option<&str>,
    ) -> (r: Result<StreamType, ClassifyError>)
        ensures
            classified_as(
                r,
                input@,
                classify_spec(
                    input@,
                    match scheme {
                        Some(s) => Some(s@),
                        None => None,
                    },
                    path@,
                    exists,
                    match extension {
                        Some(e) => Some(e@),
                        None => None,
                    },
                ),
            ),
    {
        let kind = match scheme {
            Some(sc) => kind_for_scheme(sc, path),
            None => if has_prefix(input, "rdp://") || has_suffix(input, ":3389") {
                Ok(ProtocolKind::Rdp)
            } else if exists {
                kind_for_extension(extension)
            } else {
                Err(ClassifyError::UnresolvableTarget)
            },
        };
        match kind {
            Ok(k) => Ok(StreamType::with_kind(k, input.to_string())),
            Err(e) => Err(e),
        }
    }

    /// Classifies a locator: URL scheme first, then the remote-desktop pattern, then the
    /// extension of an existing file. Whether a file exists is asked of the filesystem, so the
    /// outcome is the classification for one of its two answers.
    pub fn from_input(input: &str) -> (r: Result<StreamType, ClassifyError>)
        ensures
            exists|e: bool| classified_as(r, input@, #[trigger] target_outcome(input@, e)),
    {
        let scheme = url_scheme(input);
        let path = match url_path(input) {
            Some(p) => p,
            None => String::new(),
        };
        let exists = match scheme {
            Some(_) => false,
            None => path_exists(input),
        };
        let ext = file_extension(input);
        let sc = match &scheme {
            Some(s) => Some(s.as_str()),
            None => None,
        };
        let ex = match &ext {
            Some(e) => Some(e.as_str()),
            None => None,
        };
        let r = StreamType::classify(input, sc, path.as_str(), exists, ex);
        assert(classified_as(r, input@, target_outcome(input@, exists)));
        r
    }

    /// The metric label of this target's kind.
    pub fn get_type_str(&self) -> (r: &'static str)
        ensures
            r@ == type_label(self.spec_kind()),
    {
        label_of(self.kind())
    }

    /// Arguments of a probe: structured packet and frame records in CSV, a report log first
    /// when asked, protocol flags, probe limits, and the locator last.
    pub fn get_ffprobe_args(&self, probe_size: u32, analyze_duration: u32, report: bool) -> (r:
        Vec<String>)
        ensures
            texts(r@) == probe_args(
                self.spec_kind(),
                self.spec_locator(),
                probe_size,
                analyze_duration,
                report,
            ),
    {
        let mut args: Vec<String> = Vec::new();
        if report {
            push_arg(&mut args, "-report");
        }
        let ghost head = texts(args@);
        push_arg(&mut args, "-show_packets");
        push_arg(&mut args, "-show_frames");
        push_arg(&mut args, "-of");
        push_arg(&mut args, "csv");
        let ghost mid = texts(args@);
        match self {
            StreamType::Rtsp(_) => {
                push_arg(&mut args, "-rtsp_transport");
                push_arg(&mut args, "tcp");
            },
            StreamType::Hls(_) => {
                push_arg(&mut args, "-live_start_index");
                push_arg(&mut args, "-1");
            },
            _ => {},
        }
        assert(texts(args@) =~= mid + probe_protocol_flags(self.spec_kind()));
        let ghost flags = texts(args@);
        push_arg(&mut args, "-probesize");
        push_owned(&mut args, decimal_string(probe_size as u64));
        push_arg(&mut args, "-analyzeduration");
        push_owned(&mut args, decimal_string(analyze_duration as u64));
        push_arg(&mut args, "-i");
        push_owned(&mut args, self.locator().clone());
        assert(texts(args@) =~= probe_args(
            self.spec_kind(),
            self.spec_locator(),
            probe_size,
            analyze_duration,
            report,
        ));
        args
    }

    /// Input arguments of a transcode of this target.
    pub fn get_ffmpeg_input_args(&self) -> (r: Vec<String>)
        ensures
            texts(r@) == transcode_input_args(self.spec_kind(), self.spec_locator()),
    {
        let mut args: Vec<String> = Vec::new();
        match self {
            StreamType::Rdp(_) => {
                push_arg(&mut args, "-f");
                push_arg(&mut args, "gdigrab");
            },
            StreamType::Hls(_) => {
                push_arg(&mut args, "-live_start_index");
                push_arg(&mut args, "-1");
            },
            StreamType::File(_) => {},
            StreamType::Rtsp(_) => {
                push_arg(&mut args, "-rtsp_transport");
                push_arg(&mut args, "tcp");
                push_arg(&mut args, "-rw_timeout");
                push_arg(&mut args, "5000000");
            },
            _ => {
                push_arg(&mut args, "-rw_timeout");
                push_arg(&mut args, "5000000");
            },
        }
        push_arg(&mut args, "-i");
        push_owned(&mut args, self.locator().clone());
        assert(texts(args@) =~= transcode_input_args(self.spec_kind(), self.spec_locator()));
        args
    }

    /// All arguments of a transcode of this target into `output`.
    pub fn get_ffmpeg_args(&self, output: &str) -> (r: Vec<String>)
        ensures
            texts(r@) == transcode_args(self.spec_kind(), self.spec_locator(), output@),
    {
        let mut args = self.get_ffmpeg_input_args();
        let ghost input = texts(args@);
        push_arg(&mut args, "-stats");
        push_arg(&mut args, "-stats_period");
        push_arg(&mut args, "1");
        push_arg(&mut args, "-progress");
        push_arg(&mut args, "pipe:1");
        push_arg(&mut args, output);
        assert(texts(args@) =~= transcode_args(self.spec_kind(), self.spec_locator(), output@));
        args
    }
}

/// Classification and argument building depend on their inputs alone. Two classifications of
/// one locator, each with its own answer from the filesystem, agree when the answers agree or
/// when the locator is a URL or a remote-desktop target, whose outcome does not ask the
/// filesystem; and the targets they give yield identical probe and transcode argument lists for
/// the same parameters.
pub proof fn lemma_classification_and_arguments_deterministic(
    input: Seq<char>,
    exists1: bool,
    exists2: bool,
    r1: Result<StreamType, ClassifyError>,
    r2: Result<StreamType, ClassifyError>,
    probe_size: u32,
    analyze_duration: u32,
    report: bool,
    output: Seq<char>,
)
    requires
        classified_as(r1, input, target_outcome(input, exists1)),
        classified_as(r2, input, target_outcome(input, exists2)),
        exists1 == exists2 || parsed_scheme(input) is Some || is_remote_desktop(input),
    ensures
        match (r1, r2) {
            (Ok(a), Ok(b)) => a.spec_kind() == b.spec_kind() && a.spec_locator() == b.spec_locator()
                && probe_args(a.spec_kind(), a.spec_locator(), probe_size, analyze_duration, report)
                == probe_args(b.spec_kind(), b.spec_locator(), probe_size, analyze_duration, report)
                && transcode_args(a.spec_kind(), a.spec_locator(), output) == transcode_args(
                b.spec_kind(),
                b.spec_locator(),
                output,
            ),
            (Err(x), Err(y)) => x == y,
            _ => false,
        },
{
    assert(target_outcome(input, exists1) == target_outcome(input, exists2));
}

/// A locator that parses as a URL classifies without a look at the filesystem.
pub proof fn lemma_url_ignores_filesystem(input: Seq<char>)
    requires
        parsed_scheme(input) is Some,
    ensures
        target_outcome(input, true) == target_outcome(input, false),
{
}

} // verus!

