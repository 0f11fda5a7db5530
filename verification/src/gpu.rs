//! What the GPU's encoder supports.
use crate::command;
use crate::errors::{ProbeError, ProbeFault};
use crate::text;
use vstd::prelude::*;
use vstd::utf8::*;

verus! {

/// NVENC's features differ by GPU generation: `-temporal_aq` needs Turing or newer.
#[derive(Debug, Clone, Copy, PartialEq, Eq, Structural)]
pub enum GpuArch {
    PascalOrOlder,
    TuringOrNewer,
}

/// What ffmpeg logs where the hardware has no temporal AQ.
pub const UNSUPPORTED_MARKER: &'static str = "Temporal AQ not supported";

/// The architecture that a probe's log speaks of.
pub open spec fn arch_of_log(log: Seq<char>) -> GpuArch {
    if text::occurs(log, UNSUPPORTED_MARKER@) {
        GpuArch::PascalOrOlder
    } else {
        GpuArch::TuringOrNewer
    }
}

impl GpuArch {
    /// Whether frames may be encoded with temporal AQ.
    pub fn has_temporal_aq(self) -> (enabled: bool)
        ensures
            enabled == (self == GpuArch::TuringOrNewer),
    {
        self == GpuArch::TuringOrNewer
    }
}

/// The architecture that a probe's log speaks of.
pub fn arch_from_probe_stderr(stderr: &str) -> (arch: GpuArch)
    ensures
        arch == arch_of_log(stderr@),
{
    if text::contains_text(stderr, UNSUPPORTED_MARKER) {
        GpuArch::PascalOrOlder
    } else {
        GpuArch::TuringOrNewer
    }
}

/// How a probe went.
#[derive(Debug, PartialEq, Eq)]
pub enum ProbeRun {
    /// ffmpeg could not be run.
    NotRun { reason: String },
    /// ffmpeg ran, and its encode succeeded or not.
    Ran { success: bool, stderr: Vec<u8> },
}

/// What a [`ProbeRun`] says.
pub enum ProbeView {
    NotRun { reason: Seq<char> },
    Ran { success: bool, stderr: Seq<u8> },
}

impl View for ProbeRun {
    type V = ProbeView;

    open spec fn view(&self) -> ProbeView {
        match self {
            ProbeRun::NotRun { reason } => ProbeView::NotRun { reason: reason@ },
            ProbeRun::Ran { success, stderr } => ProbeView::Ran {
                success: *success,
                stderr: stderr@,
            },
        }
    }
}

/// The architecture that a probe shows, or why it could not be run.
pub open spec fn probed(run: ProbeView) -> Result<GpuArch, ProbeFault> {
    match run {
        ProbeView::NotRun { reason } => Err(ProbeFault::FfmpegNotRun { reason }),
        ProbeView::Ran { success, stderr } => Ok(arch_of_log(text::lossy_text(stderr))),
    }
}

/// What a result says.
pub open spec fn arch_view(result: Result<GpuArch, ProbeError>) -> Result<GpuArch, ProbeFault> {
    match result {
        Ok(arch) => Ok(arch),
        Err(error) => Err(error@),
    }
}

/// The architecture that a probe shows. ffmpeg logs what the hardware lacks regardless of whether
/// the encode goes on to succeed, so only the log is looked at.
pub fn detect_gpu_arch(run: ProbeRun) -> (result: Result<GpuArch, ProbeError>)
    ensures
        arch_view(result) == probed(run@),
        run@ matches ProbeView::Ran { stderr, .. } ==> (valid_utf8(stderr) ==> arch_view(result)
            == Ok::<GpuArch, ProbeFault>(arch_of_log(decode_utf8(stderr)))),
{
    match run {
        ProbeRun::NotRun { reason } => Err(ProbeError::FfmpegNotRun { reason }),
        ProbeRun::Ran { success: _, stderr } => {
            let log = text::decode_lossy(stderr.as_slice());
            Ok(arch_from_probe_stderr(log.as_str()))
        },
    }
}

/// The arguments of the probe: ffmpeg encodes a single black frame with temporal AQ, and logs
/// only warnings.
pub open spec fn probe_words() -> Seq<Seq<u8>> {
    command::words(
        seq![
            "-loglevel",
            "warning",
            "-f",
            "lavfi",
            "-i",
            "color=black:size=64x64:duration=0.1:rate=1",
            "-c:v",
            "hevc_nvenc",
            "-temporal_aq",
            "1",
            "-frames:v",
            "1",
            "-f",
            "null",
            "-",
        ],
    )
}

/// The arguments with which ffmpeg probes the hardware.
pub fn probe_args() -> (args: Vec<Vec<u8>>)
    ensures
        command::arg_bytes(args@) == probe_words(),
{
    let mut args: Vec<Vec<u8>> = Vec::new();
    command::push_words(
        &mut args,
        &[
            "-loglevel",
            "warning",
            "-f",
            "lavfi",
            "-i",
            "color=black:size=64x64:duration=0.1:rate=1",
            "-c:v",
            "hevc_nvenc",
            "-temporal_aq",
            "1",
            "-frames:v",
            "1",
            "-f",
            "null",
            "-",
        ],
    );
    assert(command::arg_bytes(args@) =~= probe_words());
    args
}

/// Wherever in a log the marker stands, the log speaks of a GPU without temporal AQ.
pub proof fn marker_decides_anywhere(before: Seq<char>, after: Seq<char>)
    ensures
        arch_of_log(before + UNSUPPORTED_MARKER@ + after) == GpuArch::PascalOrOlder,
{
    let log = before + UNSUPPORTED_MARKER@ + after;
    let i = before.len() as int;
    assert(log.subrange(i, i + UNSUPPORTED_MARKER@.len()) =~= UNSUPPORTED_MARKER@);
    assert(text::occurs_at(log, UNSUPPORTED_MARKER@, i));
}

/// A probe fails exactly where ffmpeg could not be run, and whether its encode succeeded makes no
/// difference to what it shows.
pub proof fn only_the_log_decides(run: ProbeView, success: bool, other: bool, stderr: Seq<u8>)
    ensures
        probed(run) is Err <==> run is NotRun,
        probed(ProbeView::Ran { success, stderr }) == probed(
            ProbeView::Ran { success: other, stderr },
        ),
{
}

/// A log speaks of a GPU without temporal AQ exactly where it says `Temporal AQ not supported`
/// somewhere, whatever stands around it, and of one with it everywhere else.
pub proof fn log_says_it_or_not(log: Seq<char>)
    ensures
        arch_of_log(log) == GpuArch::PascalOrOlder <==> exists|before: Seq<char>, after: Seq<char>|
            log == #[trigger] (before + "Temporal AQ not supported"@ + after),
        arch_of_log(log) == GpuArch::PascalOrOlder || arch_of_log(log) == GpuArch::TuringOrNewer,
{
    text::found_texts_stand_between(log, "Temporal AQ not supported"@);
}

/// A probe that ran always shows an architecture, by what its decoded log says alone; one that
/// did not run shows why.
pub proof fn probes_show_what_was_logged(success: bool, stderr: Seq<u8>, reason: Seq<char>)
    ensures
        probed(ProbeView::Ran { success, stderr }) matches Ok(arch) && (arch
            == GpuArch::PascalOrOlder <==> exists|before: Seq<char>, after: Seq<char>|
            text::lossy_text(stderr) == #[trigger] (before + "Temporal AQ not supported"@ + after)),
        probed(ProbeView::NotRun { reason }) == Err::<GpuArch, ProbeFault>(
            ProbeFault::FfmpegNotRun { reason },
        ),
{
    log_says_it_or_not(text::lossy_text(stderr));
}

/// The views of a probe and of its result hold what they are views of.
pub proof fn probe_views_are_faithful(run: ProbeRun, result: Result<GpuArch, ProbeError>)
    ensures
        run matches ProbeRun::NotRun { reason } ==> run@ == (ProbeView::NotRun { reason: reason@ }),
        run matches ProbeRun::Ran { success, stderr } ==> run@ == (ProbeView::Ran {
            success,
            stderr: stderr@,
        }),
        result matches Ok(arch) ==> arch_view(result) == Ok::<GpuArch, ProbeFault>(arch),
        result matches Err(error) ==> arch_view(result) == Err::<GpuArch, ProbeFault>(error@),
{
}

} // verus!
