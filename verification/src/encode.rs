//! Encoding a batch with ffmpeg: the filter, the list of clips, the arguments and the result.
use crate::command;
use crate::errors::{PipelineError, PipelineFault};
use crate::gpu::GpuArch;
use crate::paths::UnixPath;
use crate::quoting;
use crate::text;
use vstd::prelude::*;
use vstd::string::*;
use vstd::utf8::*;

verus! {

/// What comes before the LUT in the video filter: the crop to 16:9.
pub const FILTER_HEAD: &'static str = "crop=iw:iw*9/16,lut3d=file=";

/// What comes behind the LUT in the video filter: the tags of the colours.
pub const FILTER_TAIL: &'static str =
    ",setparams=color_primaries=bt709:color_trc=bt709:colorspace=bt709:range=tv";

/// The video filter that applies the LUT of a path.
pub open spec fn video_filter(lut: Seq<u8>) -> Result<Seq<char>, PipelineFault> {
    if valid_utf8(lut) {
        Ok(
            FILTER_HEAD@ + quoting::in_quotes(quoting::escaped(decode_utf8(lut)))
                + FILTER_TAIL@,
        )
    } else {
        Err(PipelineFault::NonUtf8Lut { path: lut })
    }
}

/// What a result says.
pub open spec fn text_view(result: Result<String, PipelineError>) -> Result<
    Seq<char>,
    PipelineFault,
> {
    match result {
        Ok(text) => Ok(text@),
        Err(error) => Err(error@),
    }
}

/// The video filter: crop to 16:9, apply the LUT, tag the colours.
pub fn build_video_filter(lut: &UnixPath) -> (filter: Result<String, PipelineError>)
    ensures
        text_view(filter) == video_filter(lut@),
{
    let lut_text = match lut.to_text() {
        Some(t) => t,
        None => {
            return Err(PipelineError::NonUtf8Lut { path: lut.duplicate() });
        },
    };
    let mut filter = FILTER_HEAD.to_owned();
    filter.push('\'');
    filter.append(quoting::escape_filter_literal(lut_text.as_str()).as_str());
    filter.push('\'');
    filter.append(FILTER_TAIL);
    assert(filter@ =~= FILTER_HEAD@ + quoting::in_quotes(
        quoting::escaped(decode_utf8(lut@)),
    ) + FILTER_TAIL@);
    Ok(filter)
}

/// What stands before the path in a line of the concat list.
pub const LIST_KEYWORD: &'static str = "file ";

/// The line of the concat list for a path.
pub open spec fn list_line(path: Seq<char>) -> Seq<char> {
    LIST_KEYWORD@ + quoting::in_quotes(quoting::escaped(path)) + seq!['\n']
}

/// The concat list of some paths: one line for each, in order.
pub open spec fn list_text(paths: Seq<Seq<char>>) -> Seq<char>
    decreases paths.len(),
{
    if paths.len() == 0 {
        Seq::empty()
    } else {
        list_text(paths.drop_last()) + list_line(paths.last())
    }
}

/// The line of the concat list for a clip at an absolute path.
pub open spec fn concat_line(absolute: Seq<u8>) -> Result<Seq<char>, PipelineFault> {
    if valid_utf8(absolute) {
        Ok(list_line(decode_utf8(absolute)))
    } else {
        Err(PipelineFault::NonUtf8Input { path: absolute })
    }
}

/// The paths that a concat list names by ffmpeg's quoting rules: each line is the keyword and a
/// token, up to a newline that is not quoted.
pub open spec fn read_list(text: Seq<char>) -> Option<Seq<Seq<char>>>
    decreases text.len(),
{
    if text.len() == 0 {
        Some(Seq::empty())
    } else if text.len() < LIST_KEYWORD@.len() || text.take(LIST_KEYWORD@.len() as int)
        != LIST_KEYWORD@ {
        None
    } else {
        let rest = text.skip(LIST_KEYWORD@.len() as int);
        let end = quoting::token_length(rest, false);
        if end >= rest.len() {
            None
        } else {
            match (quoting::read_token(rest.take(end as int), false), read_list(rest.skip(end as int + 1))) {
                (Some(path), Some(paths)) => Some(seq![path] + paths),
                _ => None,
            }
        }
    }
}

/// The line of the concat list for a clip at an absolute path. The clips of a batch share their
/// codec parameters, so ffmpeg joins what the list names packet by packet before it decodes
/// anything.
pub fn concat_entry(absolute: &UnixPath) -> (line: Result<String, PipelineError>)
    ensures
        text_view(line) == concat_line(absolute@),
{
    match absolute.to_text() {
        Some(path) => {
            let mut line = LIST_KEYWORD.to_owned();
            line.push('\'');
            line.append(quoting::escape_concat_literal(path.as_str()).as_str());
            line.push('\'');
            line.push('\n');
            assert(line@ =~= list_line(decode_utf8(absolute@)));
            Ok(line)
        },
        None => Err(PipelineError::NonUtf8Input { path: absolute.duplicate() }),
    }
}

/// The list of two runs of paths is the two lists one behind the other.
pub proof fn lists_append(a: Seq<Seq<char>>, b: Seq<Seq<char>>)
    ensures
        list_text(a + b) == list_text(a) + list_text(b),
    decreases b.len(),
{
    if b.len() == 0 {
        assert(a + b =~= a);
        assert(list_text(a) + list_text(b) =~= list_text(a));
    } else {
        lists_append(a, b.drop_last());
        assert((a + b).drop_last() =~= a + b.drop_last());
        let (x, y, line) = (list_text(a), list_text(b.drop_last()), list_line(b.last()));
        assert(x + (y + line) =~= (x + y) + line);
    }
}

proof fn list_of_one(path: Seq<char>)
    ensures
        list_text(seq![path]) == list_line(path),
{
    let paths = seq![path];
    assert(paths.drop_last() =~= Seq::<Seq<char>>::empty());
    assert(list_text(paths.drop_last()) =~= Seq::<char>::empty());
    assert(list_text(paths) == list_text(paths.drop_last()) + list_line(paths.last()));
    assert(Seq::<char>::empty() + list_line(path) =~= list_line(path));
}

proof fn line_reads_back(path: Seq<char>, after: Seq<char>)
    requires
        read_list(after) is Some,
    ensures
        read_list(list_line(path) + after) == Some(seq![path] + read_list(after)->0),
{
    let text = list_line(path) + after;
    let token = quoting::in_quotes(quoting::escaped(path));
    let rest = text.skip(LIST_KEYWORD@.len() as int);
    assert(text.take(LIST_KEYWORD@.len() as int) =~= LIST_KEYWORD@);
    assert(rest =~= token + seq!['\n'] + after);
    quoting::literals_end_at_their_newline(path, after);
    assert(rest.take(token.len() as int) =~= token);
    assert(rest.skip(token.len() as int + 1) =~= after);
    quoting::literals_read_back(path);
}

/// By ffmpeg's quoting rules a concat list names exactly the paths that it was made of, in
/// order, whatever characters they hold.
pub proof fn lists_read_back(paths: Seq<Seq<char>>)
    ensures
        read_list(list_text(paths)) == Some(paths),
    decreases paths.len(),
{
    if paths.len() == 0 {
        assert(paths =~= Seq::<Seq<char>>::empty());
    } else {
        let (first, rest) = (seq![paths[0]], paths.drop_first());
        lists_read_back(rest);
        assert(first + rest =~= paths);
        lists_append(first, rest);
        list_of_one(paths[0]);
        line_reads_back(paths[0], list_text(rest));
    }
}

/// A path without a newline makes one line of the list: its only newline is its last character.
/// ffmpeg takes the list line by line before it reads a token, so it finds such a path whole.
pub proof fn paths_without_newline_make_one_line(path: Seq<char>)
    requires
        !path.contains('\n'),
    ensures
        list_line(path).last() == '\n',
        !list_line(path).drop_last().contains('\n'),
{
    reveal_strlit("file ");
    quoting::escaping_adds_no_newline(path);
    let (inner, line) = (quoting::escaped(path), list_line(path).drop_last());
    if line.contains('\n') {
        let i = choose|i: int| 0 <= i < line.len() && line[i] == '\n';
        let start = LIST_KEYWORD@.len() + 1;
        if start <= i < start + inner.len() {
            assert(inner[i - start] == '\n');
        }
    }
}

/// What stands before the concat list.
pub open spec fn input_words() -> Seq<Seq<u8>> {
    command::words(seq!["-y", "-f", "concat", "-safe", "0", "-i"])
}

/// What stands between the concat list and the filter.
pub open spec fn stream_words() -> Seq<Seq<u8>> {
    command::words(seq!["-map", "0:v:0", "-map", "0:a:0", "-vf"])
}

/// The settings of the encoder that every GPU takes, up to spatial AQ. YouTube tops out at
/// 68 Mbps for 4K60 SDR, so no more is asked for.
pub open spec fn rate_words() -> Seq<Seq<u8>> {
    command::words(
        seq![
            "-c:v",
            "hevc_nvenc",
            "-preset",
            "p7",
            "-rc",
            "vbr",
            "-b:v",
            "68M",
            "-rc-lookahead",
            "20",
            "-spatial_aq",
            "1",
        ],
    )
}

/// The settings of temporal AQ, for the GPUs that have it.
pub open spec fn temporal_words(arch: GpuArch) -> Seq<Seq<u8>> {
    match arch {
        GpuArch::TuringOrNewer => command::words(seq!["-temporal_aq", "1"]),
        GpuArch::PascalOrOlder => Seq::empty(),
    }
}

/// What stands before the output.
pub open spec fn format_words() -> Seq<Seq<u8>> {
    command::words(seq!["-multipass", "fullres", "-pix_fmt", "p010le", "-c:a", "copy"])
}

/// The arguments of the encode.
pub open spec fn encode_words(
    concat_list: Seq<u8>,
    filter: Seq<char>,
    output: Seq<u8>,
    arch: GpuArch,
) -> Seq<Seq<u8>> {
    input_words().push(concat_list) + stream_words().push(encode_utf8(filter)) + rate_words()
        + temporal_words(arch) + format_words().push(output)
}

/// The arguments with which ffmpeg encodes a batch.
pub fn ffmpeg_args(
    concat_list: &UnixPath,
    filter: &str,
    output: &UnixPath,
    gpu_arch: GpuArch,
) -> (args: Vec<Vec<u8>>)
    ensures
        command::arg_bytes(args@) == encode_words(concat_list@, filter@, output@, gpu_arch),
{
    let mut args: Vec<Vec<u8>> = Vec::new();
    command::push_words(&mut args, &["-y", "-f", "concat", "-safe", "0", "-i"]);
    command::push_path(&mut args, concat_list);
    assert(command::arg_bytes(args@) =~= input_words().push(concat_list@));
    command::push_words(&mut args, &["-map", "0:v:0", "-map", "0:a:0", "-vf"]);
    command::push_text(&mut args, filter);
    let ghost streams = input_words().push(concat_list@) + stream_words().push(encode_utf8(filter@));
    assert(command::arg_bytes(args@) =~= streams);
    command::push_words(
        &mut args,
        &[
            "-c:v",
            "hevc_nvenc",
            "-preset",
            "p7",
            "-rc",
            "vbr",
            "-b:v",
            "68M",
            "-rc-lookahead",
            "20",
            "-spatial_aq",
            "1",
        ],
    );
    assert(command::arg_bytes(args@) =~= streams + rate_words());
    if gpu_arch.has_temporal_aq() {
        command::push_words(&mut args, &["-temporal_aq", "1"]);
    }
    assert(command::arg_bytes(args@) =~= streams + rate_words() + temporal_words(gpu_arch));
    command::push_words(
        &mut args,
        &["-multipass", "fullres", "-pix_fmt", "p010le", "-c:a", "copy"],
    );
    command::push_path(&mut args, output);
    assert(command::arg_bytes(args@) =~= streams + rate_words() + temporal_words(gpu_arch)
        + format_words().push(output@));
    args
}

/// The two architectures are encoded for with the same arguments, but for temporal AQ, which
/// only Turing and newer get, right behind spatial AQ.
pub proof fn only_temporal_aq_depends_on_arch(
    concat_list: Seq<u8>,
    filter: Seq<char>,
    output: Seq<u8>,
)
    ensures
        ({
            let turing = encode_words(concat_list, filter, output, GpuArch::TuringOrNewer);
            let pascal = encode_words(concat_list, filter, output, GpuArch::PascalOrOlder);
            let place = (input_words().len() + 1 + stream_words().len() + 1
                + rate_words().len()) as int;
            &&& turing.take(place) == pascal.take(place)
            &&& turing.subrange(place, place + 2) == command::words(
                seq!["-temporal_aq", "1"],
            )
            &&& turing.skip(place + 2) == pascal.skip(place)
        }),
{
    let turing = encode_words(concat_list, filter, output, GpuArch::TuringOrNewer);
    let pascal = encode_words(concat_list, filter, output, GpuArch::PascalOrOlder);
    let place = (input_words().len() + 1 + stream_words().len() + 1 + rate_words().len()) as int;
    assert(turing.take(place) =~= pascal.take(place));
    assert(turing.subrange(place, place + 2) =~= command::words(seq!["-temporal_aq", "1"]));
    assert(turing.skip(place + 2) =~= pascal.skip(place));
}

/// How a run of ffmpeg went.
#[derive(Debug, PartialEq, Eq)]
pub enum FfmpegRun {
    /// It could not be started.
    NotStarted { reason: String },
    /// It ran with its output shown live.
    Streamed { success: bool, status: String },
    /// It ran with its output captured.
    Captured { success: bool, status: String, stderr: Vec<u8> },
}

/// What an [`FfmpegRun`] says.
pub enum RunView {
    NotStarted { reason: Seq<char> },
    Streamed { success: bool, status: Seq<char> },
    Captured { success: bool, status: Seq<char>, stderr: Seq<u8> },
}

impl View for FfmpegRun {
    type V = RunView;

    open spec fn view(&self) -> RunView {
        match self {
            FfmpegRun::NotStarted { reason } => RunView::NotStarted { reason: reason@ },
            FfmpegRun::Streamed { success, status } => RunView::Streamed {
                success: *success,
                status: status@,
            },
            FfmpegRun::Captured { success, status, stderr } => RunView::Captured {
                success: *success,
                status: status@,
                stderr: stderr@,
            },
        }
    }
}

/// The fault that a run of ffmpeg amounts to, if any. What was captured is part of it.
pub open spec fn run_fault(run: RunView) -> Option<PipelineFault> {
    match run {
        RunView::NotStarted { reason } => Some(PipelineFault::FfmpegNotRun { reason }),
        RunView::Streamed { success, status } => if success {
            None
        } else {
            Some(PipelineFault::FfmpegFailed { status, stderr: None })
        },
        RunView::Captured { success, status, stderr } => if success {
            None
        } else {
            Some(
                PipelineFault::FfmpegFailed {
                    status,
                    stderr: Some(text::lossy_text(stderr)),
                },
            )
        },
    }
}

/// Whether a run of ffmpeg encoded the batch.
pub fn check_encode(run: FfmpegRun) -> (result: Result<(), PipelineError>)
    ensures
        match result {
            Ok(_) => run_fault(run@) is None,
            Err(error) => run_fault(run@) == Some(error@),
        },
{
    match run {
        FfmpegRun::NotStarted { reason } => Err(PipelineError::FfmpegNotRun { reason }),
        FfmpegRun::Streamed { success, status } => if success {
            Ok(())
        } else {
            Err(PipelineError::FfmpegFailed { status, stderr: None })
        },
        FfmpegRun::Captured { success, status, stderr } => if success {
            Ok(())
        } else {
            Err(
                PipelineError::FfmpegFailed {
                    status,
                    stderr: Some(text::decode_lossy(stderr.as_slice())),
                },
            )
        },
    }
}

/// What the filter quotes reads back as the path of the LUT.
pub proof fn filter_names_the_lut(lut: Seq<u8>)
    requires
        valid_utf8(lut),
    ensures
        video_filter(lut) matches Ok(filter) && quoting::read_token(
            filter.subrange(FILTER_HEAD@.len() as int, filter.len() - FILTER_TAIL@.len()),
            false,
        ) == Some(decode_utf8(lut)),
{
    let quoted = quoting::in_quotes(quoting::escaped(decode_utf8(lut)));
    let filter = FILTER_HEAD@ + quoted + FILTER_TAIL@;
    assert(filter.subrange(FILTER_HEAD@.len() as int, filter.len() - FILTER_TAIL@.len())
        =~= quoted);
    quoting::literals_read_back(decode_utf8(lut));
}

/// Different clips never share a line of the concat list.
pub proof fn concat_lines_differ(a: Seq<u8>, b: Seq<u8>)
    requires
        valid_utf8(a),
        valid_utf8(b),
        concat_line(a) == concat_line(b),
    ensures
        a == b,
{
    let (x, y) = (decode_utf8(a), decode_utf8(b));
    lists_read_back(seq![x]);
    lists_read_back(seq![y]);
    list_of_one(x);
    list_of_one(y);
    assert(seq![x][0] == seq![y][0]);
    decode_utf8_encode_utf8(a);
    decode_utf8_encode_utf8(b);
}

/// Whatever LUT is applied, the filter crops to 16:9 before it and tags the colours behind it:
/// the texts around the quoted path do not depend on the path. A path that is not UTF-8 has no
/// filter.
pub proof fn filter_crops_and_tags(lut: Seq<u8>)
    ensures
        valid_utf8(lut) ==> video_filter(lut) == Ok::<Seq<char>, PipelineFault>(
            "crop=iw:iw*9/16,lut3d=file="@ + (seq!['\''] + quoting::escaped(decode_utf8(lut))
                + seq!['\''])
                + ",setparams=color_primaries=bt709:color_trc=bt709:colorspace=bt709:range=tv"@,
        ),
        !valid_utf8(lut) ==> video_filter(lut) == Err::<Seq<char>, PipelineFault>(
            PipelineFault::NonUtf8Lut { path: lut },
        ),
{
}

/// A LUT without a quote in its path stands in the filter as it is.
pub proof fn plain_luts_stand_in_the_filter(lut: Seq<char>)
    requires
        !lut.contains('\''),
    ensures
        video_filter(encode_utf8(lut)) == Ok::<Seq<char>, PipelineFault>(
            "crop=iw:iw*9/16,lut3d=file="@ + (seq!['\''] + lut + seq!['\''])
                + ",setparams=color_primaries=bt709:color_trc=bt709:colorspace=bt709:range=tv"@,
        ),
{
    encode_utf8_valid_utf8(lut);
    encode_utf8_decode_utf8(lut);
    quoting::values_without_quotes_stay(lut);
    filter_crops_and_tags(encode_utf8(lut));
}

/// A clip's line is the keyword `file`, a space, the quoted path and a newline, whatever the path
/// is; a path that is not UTF-8 has no line.
pub proof fn lines_hold_the_quoted_path(absolute: Seq<u8>)
    ensures
        valid_utf8(absolute) ==> concat_line(absolute) == Ok::<Seq<char>, PipelineFault>(
            "file "@ + (seq!['\''] + quoting::escaped(decode_utf8(absolute)) + seq!['\''])
                + seq!['\n'],
        ),
        !valid_utf8(absolute) ==> concat_line(absolute) == Err::<Seq<char>, PipelineFault>(
            PipelineFault::NonUtf8Input { path: absolute },
        ),
{
}

/// A list is the lines of its paths, one behind the other.
pub proof fn lists_hold_a_line_for_each_path(before: Seq<Seq<char>>, path: Seq<char>)
    ensures
        list_text(Seq::empty()) == Seq::<char>::empty(),
        list_text(before.push(path)) == list_text(before) + ("file "@ + (seq!['\'']
            + quoting::escaped(path) + seq!['\'']) + seq!['\n']),
{
    assert(before.push(path).drop_last() =~= before);
}

proof fn input_words_are(list: Seq<u8>, filter: Seq<char>)
    ensures
        input_words().push(list) + stream_words().push(encode_utf8(filter)) == seq![
            encode_utf8("-y"@),
            encode_utf8("-f"@),
            encode_utf8("concat"@),
            encode_utf8("-safe"@),
            encode_utf8("0"@),
            encode_utf8("-i"@),
            list,
            encode_utf8("-map"@),
            encode_utf8("0:v:0"@),
            encode_utf8("-map"@),
            encode_utf8("0:a:0"@),
            encode_utf8("-vf"@),
            encode_utf8(filter),
        ],
{
}

proof fn rate_words_are()
    ensures
        rate_words() == seq![
            encode_utf8("-c:v"@),
            encode_utf8("hevc_nvenc"@),
            encode_utf8("-preset"@),
            encode_utf8("p7"@),
            encode_utf8("-rc"@),
            encode_utf8("vbr"@),
            encode_utf8("-b:v"@),
            encode_utf8("68M"@),
            encode_utf8("-rc-lookahead"@),
            encode_utf8("20"@),
            encode_utf8("-spatial_aq"@),
            encode_utf8("1"@),
        ],
{
}

proof fn last_words_are(output: Seq<u8>)
    ensures
        temporal_words(GpuArch::TuringOrNewer) == seq![
            encode_utf8("-temporal_aq"@),
            encode_utf8("1"@),
        ],
        temporal_words(GpuArch::PascalOrOlder) == Seq::<Seq<u8>>::empty(),
        format_words().push(output) == seq![
            encode_utf8("-multipass"@),
            encode_utf8("fullres"@),
            encode_utf8("-pix_fmt"@),
            encode_utf8("p010le"@),
            encode_utf8("-c:a"@),
            encode_utf8("copy"@),
            output,
        ],
{
}

/// The arguments of an encode, word by word: the list is the only input, the filter stands behind
/// `-vf`, the output comes last, and temporal AQ is asked for on Turing and newer alone.
pub proof fn encode_takes_these_words(
    list: Seq<u8>,
    filter: Seq<char>,
    output: Seq<u8>,
    arch: GpuArch,
)
    ensures
        ({
            let streams = seq![
                encode_utf8("-y"@),
                encode_utf8("-f"@),
                encode_utf8("concat"@),
                encode_utf8("-safe"@),
                encode_utf8("0"@),
                encode_utf8("-i"@),
                list,
                encode_utf8("-map"@),
                encode_utf8("0:v:0"@),
                encode_utf8("-map"@),
                encode_utf8("0:a:0"@),
                encode_utf8("-vf"@),
                encode_utf8(filter),
            ];
            let rate = seq![
                encode_utf8("-c:v"@),
                encode_utf8("hevc_nvenc"@),
                encode_utf8("-preset"@),
                encode_utf8("p7"@),
                encode_utf8("-rc"@),
                encode_utf8("vbr"@),
                encode_utf8("-b:v"@),
                encode_utf8("68M"@),
                encode_utf8("-rc-lookahead"@),
                encode_utf8("20"@),
                encode_utf8("-spatial_aq"@),
                encode_utf8("1"@),
            ];
            let temporal = if arch == GpuArch::TuringOrNewer {
                seq![encode_utf8("-temporal_aq"@), encode_utf8("1"@)]
            } else {
                Seq::empty()
            };
            let tail = seq![
                encode_utf8("-multipass"@),
                encode_utf8("fullres"@),
                encode_utf8("-pix_fmt"@),
                encode_utf8("p010le"@),
                encode_utf8("-c:a"@),
                encode_utf8("copy"@),
                output,
            ];
            encode_words(list, filter, output, arch) == streams + rate + temporal + tail
        }),
{
    input_words_are(list, filter);
    rate_words_are();
    last_words_are(output);
}

/// Whether ffmpeg was started and its exit status says success.
pub open spec fn run_succeeded(run: RunView) -> bool {
    match run {
        RunView::NotStarted { .. } => false,
        RunView::Streamed { success, .. } => success,
        RunView::Captured { success, .. } => success,
    }
}

/// The exit status alone decides whether a run was an encode, whatever it says besides and
/// whatever was captured; a run that was none is reported with its status and its output, or with
/// why it was not started.
pub proof fn exit_status_decides(
    success: bool,
    status: Seq<char>,
    stderr: Seq<u8>,
    reason: Seq<char>,
)
    ensures
        run_fault(RunView::NotStarted { reason }) == Some(PipelineFault::FfmpegNotRun { reason }),
        run_fault(RunView::Streamed { success, status }) is None <==> success,
        run_fault(RunView::Captured { success, status, stderr }) is None <==> success,
        !success ==> run_fault(RunView::Streamed { success, status }) == Some(
            PipelineFault::FfmpegFailed { status, stderr: None },
        ),
        !success ==> run_fault(RunView::Captured { success, status, stderr }) == Some(
            PipelineFault::FfmpegFailed { status, stderr: Some(text::lossy_text(stderr)) },
        ),
{
}

/// The views of a run and of a result hold what they are views of.
pub proof fn encode_views_are_faithful(run: FfmpegRun, result: Result<String, PipelineError>)
    ensures
        match run {
            FfmpegRun::NotStarted { reason } => run@ == (RunView::NotStarted { reason: reason@ }),
            FfmpegRun::Streamed { success, status } => run@ == (RunView::Streamed {
                success,
                status: status@,
            }),
            FfmpegRun::Captured { success, status, stderr } => run@ == (RunView::Captured {
                success,
                status: status@,
                stderr: stderr@,
            }),
        },
        match result {
            Ok(text) => text_view(result) == Ok::<Seq<char>, PipelineFault>(text@),
            Err(error) => text_view(result) == Err::<Seq<char>, PipelineFault>(error@),
        },
{
}

} // verus!
