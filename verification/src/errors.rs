//! Why a probe, a wait, a batch or a move can fail, and what is reported then.
use crate::paths::UnixPath;
use crate::text;
use vstd::prelude::*;
use vstd::string::*;

verus! {

/// Why a batch could not be encoded.
#[derive(Debug, PartialEq, Eq)]
pub enum PipelineError {
    /// A clip has no file name, or one that is not UTF-8.
    NonUtf8FileName { path: UnixPath },
    /// A clip's file name does not begin with `DJI_` and a date.
    UndatedFileName { name: String },
    /// There is nothing to encode.
    NoInputFiles,
    /// The path of the LUT is not UTF-8.
    NonUtf8Lut { path: UnixPath },
    /// The file of the concat list could not be created.
    ListNotCreated { reason: String },
    /// The absolute path of a clip could not be found.
    UnresolvedInput { path: UnixPath, reason: String },
    /// The absolute path of a clip is not UTF-8.
    NonUtf8Input { path: UnixPath },
    /// The concat list could not be written.
    ListNotWritten { reason: String },
    /// ffmpeg could not be started.
    FfmpegNotRun { reason: String },
    /// ffmpeg reported a failure.
    FfmpegFailed { status: String, stderr: Option<String> },
}

/// What a [`PipelineError`] says.
pub enum PipelineFault {
    NonUtf8FileName { path: Seq<u8> },
    UndatedFileName { name: Seq<char> },
    NoInputFiles,
    NonUtf8Lut { path: Seq<u8> },
    ListNotCreated { reason: Seq<char> },
    UnresolvedInput { path: Seq<u8>, reason: Seq<char> },
    NonUtf8Input { path: Seq<u8> },
    ListNotWritten { reason: Seq<char> },
    FfmpegNotRun { reason: Seq<char> },
    FfmpegFailed { status: Seq<char>, stderr: Option<Seq<char>> },
}

impl View for PipelineError {
    type V = PipelineFault;

    open spec fn view(&self) -> PipelineFault {
        match self {
            PipelineError::NonUtf8FileName { path } => PipelineFault::NonUtf8FileName {
                path: path@,
            },
            PipelineError::UndatedFileName { name } => PipelineFault::UndatedFileName {
                name: name@,
            },
            PipelineError::NoInputFiles => PipelineFault::NoInputFiles,
            PipelineError::NonUtf8Lut { path } => PipelineFault::NonUtf8Lut { path: path@ },
            PipelineError::ListNotCreated { reason } => PipelineFault::ListNotCreated {
                reason: reason@,
            },
            PipelineError::UnresolvedInput { path, reason } => PipelineFault::UnresolvedInput {
                path: path@,
                reason: reason@,
            },
            PipelineError::NonUtf8Input { path } => PipelineFault::NonUtf8Input { path: path@ },
            PipelineError::ListNotWritten { reason } => PipelineFault::ListNotWritten {
                reason: reason@,
            },
            PipelineError::FfmpegNotRun { reason } => PipelineFault::FfmpegNotRun {
                reason: reason@,
            },
            PipelineError::FfmpegFailed { status, stderr } => PipelineFault::FfmpegFailed {
                status: status@,
                stderr: match stderr {
                    Some(log) => Some(log@),
                    None => None,
                },
            },
        }
    }
}

/// What is reported of a fault: what was being done, and the reason where the system gave one.
pub open spec fn pipeline_report(fault: PipelineFault) -> Seq<char> {
    match fault {
        PipelineFault::NonUtf8FileName { path } => "non-UTF8 filename: "@ + text::lossy_text(path),
        PipelineFault::UndatedFileName { name } => "filename doesn't match DJI_YYYYMMDD...: "@
            + name,
        PipelineFault::NoInputFiles => "no input files"@,
        PipelineFault::NonUtf8Lut { path } => "LUT path is not valid UTF-8: "@ + text::lossy_text(
            path,
        ),
        PipelineFault::ListNotCreated { reason } => "failed to create concat list temp file: "@
            + reason,
        PipelineFault::UnresolvedInput { path, reason } => "failed to resolve path "@
            + text::lossy_text(path) + ": "@ + reason,
        PipelineFault::NonUtf8Input { path } => "path is not valid UTF-8: "@ + text::lossy_text(
            path,
        ),
        PipelineFault::ListNotWritten { reason } => "failed to write concat list: "@ + reason,
        PipelineFault::FfmpegNotRun { reason } => "failed to run ffmpeg: "@ + reason,
        PipelineFault::FfmpegFailed { status, stderr } => match stderr {
            Some(log) => "ffmpeg exited with "@ + status + "\n"@ + log,
            None => "ffmpeg exited with "@ + status,
        },
    }
}

impl PipelineError {
    /// The report of the error.
    pub fn message(&self) -> (report: String)
        ensures
            report@ == pipeline_report(self@),
    {
        match self {
            PipelineError::NonUtf8FileName { path } => "non-UTF8 filename: ".to_owned().concat(
                path.display().as_str(),
            ),
            PipelineError::UndatedFileName { name } =>
                "filename doesn't match DJI_YYYYMMDD...: ".to_owned().concat(name.as_str()),
            PipelineError::NoInputFiles => "no input files".to_owned(),
            PipelineError::NonUtf8Lut { path } => "LUT path is not valid UTF-8: ".to_owned().concat(
                path.display().as_str(),
            ),
            PipelineError::ListNotCreated { reason } =>
                "failed to create concat list temp file: ".to_owned().concat(reason.as_str()),
            PipelineError::UnresolvedInput { path, reason } =>
                "failed to resolve path ".to_owned().concat(path.display().as_str()).concat(
                ": ",
            ).concat(reason.as_str()),
            PipelineError::NonUtf8Input { path } => "path is not valid UTF-8: ".to_owned().concat(
                path.display().as_str(),
            ),
            PipelineError::ListNotWritten { reason } =>
                "failed to write concat list: ".to_owned().concat(reason.as_str()),
            PipelineError::FfmpegNotRun { reason } => "failed to run ffmpeg: ".to_owned().concat(
                reason.as_str(),
            ),
            PipelineError::FfmpegFailed { status, stderr } => {
                let head = "ffmpeg exited with ".to_owned().concat(status.as_str());
                match stderr {
                    Some(log) => head.concat("\n").concat(log.as_str()),
                    None => head,
                }
            },
        }
    }
}

/// Why waiting for a batch failed.
#[derive(Debug, PartialEq, Eq)]
pub enum WatchError {
    /// There are no clips whose age could be read.
    NoInputFiles,
    /// The time of a clip's last change could not be read.
    MtimeUnread { path: UnixPath, reason: String },
    /// The watcher will send no more events.
    ChannelClosed,
    /// The watcher reported an error.
    WatcherFailed { reason: String },
}

/// What a [`WatchError`] says.
pub enum WatchFault {
    NoInputFiles,
    MtimeUnread { path: Seq<u8>, reason: Seq<char> },
    ChannelClosed,
    WatcherFailed { reason: Seq<char> },
}

impl View for WatchError {
    type V = WatchFault;

    open spec fn view(&self) -> WatchFault {
        match self {
            WatchError::NoInputFiles => WatchFault::NoInputFiles,
            WatchError::MtimeUnread { path, reason } => WatchFault::MtimeUnread {
                path: path@,
                reason: reason@,
            },
            WatchError::ChannelClosed => WatchFault::ChannelClosed,
            WatchError::WatcherFailed { reason } => WatchFault::WatcherFailed { reason: reason@ },
        }
    }
}

/// What is reported of a fault of the watcher.
pub open spec fn watch_report(fault: WatchFault) -> Seq<char> {
    match fault {
        WatchFault::NoInputFiles => "no input files"@,
        WatchFault::MtimeUnread { path, reason } => "failed to read mtime of "@ + text::lossy_text(
            path,
        ) + ": "@ + reason,
        WatchFault::ChannelClosed => "filesystem watcher channel closed"@,
        WatchFault::WatcherFailed { reason } => "filesystem watcher error: "@ + reason,
    }
}

impl WatchError {
    /// The report of the error.
    pub fn message(&self) -> (report: String)
        ensures
            report@ == watch_report(self@),
    {
        match self {
            WatchError::NoInputFiles => "no input files".to_owned(),
            WatchError::MtimeUnread { path, reason } => "failed to read mtime of ".to_owned().concat(
                path.display().as_str(),
            ).concat(": ").concat(reason.as_str()),
            WatchError::ChannelClosed => "filesystem watcher channel closed".to_owned(),
            WatchError::WatcherFailed { reason } => "filesystem watcher error: ".to_owned().concat(
                reason.as_str(),
            ),
        }
    }
}

/// Why the clips of a batch could not all be moved.
#[derive(Debug, PartialEq, Eq)]
pub enum MoveError {
    /// The directory could not be created.
    DirNotCreated { dir: UnixPath, reason: String },
    /// A path has no file name.
    NamelessInput { path: UnixPath },
    /// A file could not be renamed.
    NotRenamed { path: UnixPath, dest_dir: UnixPath, reason: String },
}

/// What a [`MoveError`] says.
pub enum MoveFault {
    DirNotCreated { dir: Seq<u8>, reason: Seq<char> },
    NamelessInput { path: Seq<u8> },
    NotRenamed { path: Seq<u8>, dest_dir: Seq<u8>, reason: Seq<char> },
}

impl View for MoveError {
    type V = MoveFault;

    open spec fn view(&self) -> MoveFault {
        match self {
            MoveError::DirNotCreated { dir, reason } => MoveFault::DirNotCreated {
                dir: dir@,
                reason: reason@,
            },
            MoveError::NamelessInput { path } => MoveFault::NamelessInput { path: path@ },
            MoveError::NotRenamed { path, dest_dir, reason } => MoveFault::NotRenamed {
                path: path@,
                dest_dir: dest_dir@,
                reason: reason@,
            },
        }
    }
}

/// What is reported of a fault of a move.
pub open spec fn move_report(fault: MoveFault) -> Seq<char> {
    match fault {
        MoveFault::DirNotCreated { dir, reason } => "failed to create "@ + text::lossy_text(dir)
            + ": "@ + reason,
        MoveFault::NamelessInput { path } => "input path has no file name: "@ + text::lossy_text(
            path,
        ),
        MoveFault::NotRenamed { path, dest_dir, reason } => "failed to move "@ + text::lossy_text(
            path,
        ) + " to "@ + text::lossy_text(dest_dir) + ": "@ + reason,
    }
}

impl MoveError {
    /// The report of the error.
    pub fn message(&self) -> (report: String)
        ensures
            report@ == move_report(self@),
    {
        match self {
            MoveError::DirNotCreated { dir, reason } => "failed to create ".to_owned().concat(
                dir.display().as_str(),
            ).concat(": ").concat(reason.as_str()),
            MoveError::NamelessInput { path } =>
                "input path has no file name: ".to_owned().concat(path.display().as_str()),
            MoveError::NotRenamed { path, dest_dir, reason } =>
                "failed to move ".to_owned().concat(path.display().as_str()).concat(" to ").concat(
                dest_dir.display().as_str(),
            ).concat(": ").concat(reason.as_str()),
        }
    }
}

/// Why the GPU could not be probed.
#[derive(Debug, PartialEq, Eq)]
pub enum ProbeError {
    /// ffmpeg could not be run.
    FfmpegNotRun { reason: String },
}

/// What a [`ProbeError`] says.
pub enum ProbeFault {
    FfmpegNotRun { reason: Seq<char> },
}

impl View for ProbeError {
    type V = ProbeFault;

    open spec fn view(&self) -> ProbeFault {
        match self {
            ProbeError::FfmpegNotRun { reason } => ProbeFault::FfmpegNotRun { reason: reason@ },
        }
    }
}

/// What is reported of a fault of the probe.
pub open spec fn probe_report(fault: ProbeFault) -> Seq<char> {
    match fault {
        ProbeFault::FfmpegNotRun { reason } => "failed to run ffmpeg (is it installed?): "@ + reason,
    }
}

impl ProbeError {
    /// The report of the error.
    pub fn message(&self) -> (report: String)
        ensures
            report@ == probe_report(self@),
    {
        match self {
            ProbeError::FfmpegNotRun { reason } =>
                "failed to run ffmpeg (is it installed?): ".to_owned().concat(reason.as_str()),
        }
    }
}

/// Each fault of a batch is reported with its own words, and with all that is known of it.
pub proof fn batch_reports_say_what_happened(
    path: Seq<u8>,
    name: Seq<char>,
    reason: Seq<char>,
    status: Seq<char>,
    log: Seq<char>,
)
    ensures
        pipeline_report(PipelineFault::NonUtf8FileName { path }) == "non-UTF8 filename: "@
            + text::lossy_text(path),
        pipeline_report(PipelineFault::UndatedFileName { name })
            == "filename doesn't match DJI_YYYYMMDD...: "@ + name,
        pipeline_report(PipelineFault::NoInputFiles) == "no input files"@,
        pipeline_report(PipelineFault::NonUtf8Lut { path }) == "LUT path is not valid UTF-8: "@
            + text::lossy_text(path),
        pipeline_report(PipelineFault::ListNotCreated { reason })
            == "failed to create concat list temp file: "@ + reason,
        pipeline_report(PipelineFault::UnresolvedInput { path, reason })
            == "failed to resolve path "@ + text::lossy_text(path) + ": "@ + reason,
        pipeline_report(PipelineFault::NonUtf8Input { path }) == "path is not valid UTF-8: "@
            + text::lossy_text(path),
        pipeline_report(PipelineFault::ListNotWritten { reason }) == "failed to write concat list: "@
            + reason,
        pipeline_report(PipelineFault::FfmpegNotRun { reason }) == "failed to run ffmpeg: "@
            + reason,
        pipeline_report(PipelineFault::FfmpegFailed { status, stderr: None })
            == "ffmpeg exited with "@ + status,
        pipeline_report(PipelineFault::FfmpegFailed { status, stderr: Some(log) })
            == "ffmpeg exited with "@ + status + "\n"@ + log,
{
}

/// Each fault of a wait, a move or a probe is reported with its own words, and with all that is
/// known of it.
pub proof fn other_reports_say_what_happened(path: Seq<u8>, dest_dir: Seq<u8>, reason: Seq<char>)
    ensures
        watch_report(WatchFault::NoInputFiles) == "no input files"@,
        watch_report(WatchFault::MtimeUnread { path, reason }) == "failed to read mtime of "@
            + text::lossy_text(path) + ": "@ + reason,
        watch_report(WatchFault::ChannelClosed) == "filesystem watcher channel closed"@,
        watch_report(WatchFault::WatcherFailed { reason }) == "filesystem watcher error: "@
            + reason,
        move_report(MoveFault::DirNotCreated { dir: dest_dir, reason }) == "failed to create "@
            + text::lossy_text(dest_dir) + ": "@ + reason,
        move_report(MoveFault::NamelessInput { path }) == "input path has no file name: "@
            + text::lossy_text(path),
        move_report(MoveFault::NotRenamed { path, dest_dir, reason }) == "failed to move "@
            + text::lossy_text(path) + " to "@ + text::lossy_text(dest_dir) + ": "@ + reason,
        probe_report(ProbeFault::FfmpegNotRun { reason })
            == "failed to run ffmpeg (is it installed?): "@ + reason,
{
}

/// The view of an error of a batch holds all of its fields.
pub proof fn batch_error_views_are_faithful(error: PipelineError)
    ensures
        match error {
            PipelineError::NonUtf8FileName { path } => error@ == (PipelineFault::NonUtf8FileName {
                path: path@,
            }),
            PipelineError::UndatedFileName { name } => error@ == (PipelineFault::UndatedFileName {
                name: name@,
            }),
            PipelineError::NoInputFiles => error@ == PipelineFault::NoInputFiles,
            PipelineError::NonUtf8Lut { path } => error@ == (PipelineFault::NonUtf8Lut {
                path: path@,
            }),
            PipelineError::ListNotCreated { reason } => error@ == (PipelineFault::ListNotCreated {
                reason: reason@,
            }),
            PipelineError::UnresolvedInput { path, reason } => error@
                == (PipelineFault::UnresolvedInput { path: path@, reason: reason@ }),
            PipelineError::NonUtf8Input { path } => error@ == (PipelineFault::NonUtf8Input {
                path: path@,
            }),
            PipelineError::ListNotWritten { reason } => error@ == (PipelineFault::ListNotWritten {
                reason: reason@,
            }),
            PipelineError::FfmpegNotRun { reason } => error@ == (PipelineFault::FfmpegNotRun {
                reason: reason@,
            }),
            PipelineError::FfmpegFailed { status, stderr: None } => error@
                == (PipelineFault::FfmpegFailed { status: status@, stderr: None }),
            PipelineError::FfmpegFailed { status, stderr: Some(log) } => error@
                == (PipelineFault::FfmpegFailed { status: status@, stderr: Some(log@) }),
        },
{
}

/// The views of the errors of a wait, a move and a probe hold all of their fields.
pub proof fn other_error_views_are_faithful(watch: WatchError, of_move: MoveError, probe: ProbeError)
    ensures
        match watch {
            WatchError::NoInputFiles => watch@ == WatchFault::NoInputFiles,
            WatchError::MtimeUnread { path, reason } => watch@ == (WatchFault::MtimeUnread {
                path: path@,
                reason: reason@,
            }),
            WatchError::ChannelClosed => watch@ == WatchFault::ChannelClosed,
            WatchError::WatcherFailed { reason } => watch@ == (WatchFault::WatcherFailed {
                reason: reason@,
            }),
        },
        match of_move {
            MoveError::DirNotCreated { dir, reason } => of_move@ == (MoveFault::DirNotCreated {
                dir: dir@,
                reason: reason@,
            }),
            MoveError::NamelessInput { path } => of_move@ == (MoveFault::NamelessInput {
                path: path@,
            }),
            MoveError::NotRenamed { path, dest_dir, reason } => of_move@ == (MoveFault::NotRenamed {
                path: path@,
                dest_dir: dest_dir@,
                reason: reason@,
            }),
        },
        match probe {
            ProbeError::FfmpegNotRun { reason } => probe@ == (ProbeFault::FfmpegNotRun {
                reason: reason@,
            }),
        },
{
}

} // verus!
