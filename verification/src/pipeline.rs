//! One batch, from its clips to a video in the playlist.
use crate::clips;
use crate::command;
use crate::encode;
use crate::encode::FfmpegRun;
use crate::errors::{PipelineError, PipelineFault};
use crate::gpu::GpuArch;
use crate::paths;
use crate::paths::UnixPath;
use crate::publish;
use crate::publish::{PlaylistEntry, VideoUpload};
use crate::text;
use vstd::prelude::*;
use vstd::string::*;
use vstd::utf8::*;

verus! {

/// The file name of the video of a date.
pub open spec fn output_name(date: Seq<char>) -> Seq<char> {
    publish::title_of(date) + ".mp4"@
}

/// The path of the video of a date.
pub open spec fn output_of(dir: Seq<u8>, date: Seq<char>) -> Seq<u8> {
    paths::join(dir, encode_utf8(output_name(date)))
}

/// The path of the video of a date.
pub fn output_path(dir: &UnixPath, date: &str) -> (path: UnixPath)
    ensures
        path@ == output_of(dir@, date@),
{
    let name = publish::video_title(date).concat(".mp4");
    dir.join(name.as_str().as_bytes())
}

/// Outcome of a successfully *encoded* batch: the source clips are always safe to archive once
/// there is one, regardless of variant.
#[derive(Debug, PartialEq, Eq)]
pub enum BatchOutcome {
    /// Uploaded (and, best-effort, playlisted).
    Uploaded { date: String },
    /// Encode succeeded and the video lies in the output directory, but the upload failed. That
    /// is no failure of the batch: encoding again would gain nothing, and the upload may have
    /// landed after all.
    UploadFailed { date: String },
}

/// What a [`BatchOutcome`] says.
pub enum Outcome {
    Uploaded { date: Seq<char> },
    UploadFailed { date: Seq<char> },
}

impl View for BatchOutcome {
    type V = Outcome;

    open spec fn view(&self) -> Outcome {
        match self {
            BatchOutcome::Uploaded { date } => Outcome::Uploaded { date: date@ },
            BatchOutcome::UploadFailed { date } => Outcome::UploadFailed { date: date@ },
        }
    }
}

/// What is known of a batch before it is encoded.
#[derive(Debug, PartialEq, Eq)]
pub struct Job {
    pub inputs: Vec<UnixPath>,
    pub filter: String,
    pub date: String,
    pub output: UnixPath,
    pub gpu_arch: GpuArch,
}

/// What a [`Job`] says.
pub struct JobView {
    pub inputs: Seq<Seq<u8>>,
    pub filter: Seq<char>,
    pub date: Seq<char>,
    pub output: Seq<u8>,
    pub gpu_arch: GpuArch,
}

impl View for Job {
    type V = JobView;

    open spec fn view(&self) -> JobView {
        JobView {
            inputs: paths::path_bytes(self.inputs@),
            filter: self.filter@,
            date: self.date@,
            output: self.output@,
            gpu_arch: self.gpu_arch,
        }
    }
}

/// What a batch waits for: the work that is to be done next, or how the batch ended.
#[derive(Debug, PartialEq, Eq)]
pub enum BatchState {
    /// The file of the concat list is to be created.
    CreateList { job: Job },
    /// The absolute path of a clip is to be found, with some clips left behind it.
    ResolveInput { job: Job, list: UnixPath, input: UnixPath, rest: Vec<UnixPath> },
    /// A line is to be written at the end of the concat list.
    WriteEntry { job: Job, list: UnixPath, line: String, rest: Vec<UnixPath> },
    /// ffmpeg is to be run.
    Encode { job: Job, list: UnixPath, args: Vec<Vec<u8>> },
    /// The output is to be uploaded.
    Upload { job: Job, video: VideoUpload },
    /// The uploaded video is to be added to the playlist.
    AddToPlaylist { job: Job, entry: PlaylistEntry },
    /// The batch was encoded.
    Done { outcome: BatchOutcome },
    /// The batch could not be encoded.
    Failed { error: PipelineError },
}

/// What a [`BatchState`] says.
pub enum Phase {
    CreateList { job: JobView },
    ResolveInput { job: JobView, list: Seq<u8>, input: Seq<u8>, rest: Seq<Seq<u8>> },
    WriteEntry { job: JobView, list: Seq<u8>, line: Seq<char>, rest: Seq<Seq<u8>> },
    Encode { job: JobView, list: Seq<u8>, args: Seq<Seq<u8>> },
    Upload { job: JobView, video: publish::VideoUploadView },
    AddToPlaylist { job: JobView, entry: publish::PlaylistEntryView },
    Done { outcome: Outcome },
    Failed { fault: PipelineFault },
}

impl View for BatchState {
    type V = Phase;

    open spec fn view(&self) -> Phase {
        match self {
            BatchState::CreateList { job } => Phase::CreateList { job: job@ },
            BatchState::ResolveInput { job, list, input, rest } => Phase::ResolveInput {
                job: job@,
                list: list@,
                input: input@,
                rest: paths::path_bytes(rest@),
            },
            BatchState::WriteEntry { job, list, line, rest } => Phase::WriteEntry {
                job: job@,
                list: list@,
                line: line@,
                rest: paths::path_bytes(rest@),
            },
            BatchState::Encode { job, list, args } => Phase::Encode {
                job: job@,
                list: list@,
                args: command::arg_bytes(args@),
            },
            BatchState::Upload { job, video } => Phase::Upload { job: job@, video: video@ },
            BatchState::AddToPlaylist { job, entry } => Phase::AddToPlaylist {
                job: job@,
                entry: entry@,
            },
            BatchState::Done { outcome } => Phase::Done { outcome: outcome@ },
            BatchState::Failed { error } => Phase::Failed { fault: error@ },
        }
    }
}

/// How a piece of work ended.
#[derive(Debug, PartialEq, Eq)]
pub enum BatchEvent {
    ListCreated { path: UnixPath },
    ListNotCreated { reason: String },
    InputResolved { absolute: UnixPath },
    InputNotResolved { reason: String },
    EntryWritten,
    EntryNotWritten { reason: String },
    Encoded { run: FfmpegRun },
    /// The upload went through; YouTube names the video.
    Uploaded { video_id: Option<String> },
    UploadFailed,
    PlaylistUpdated,
    PlaylistNotUpdated,
}

/// What a [`BatchEvent`] says.
pub enum Event {
    ListCreated { path: Seq<u8> },
    ListNotCreated { reason: Seq<char> },
    InputResolved { absolute: Seq<u8> },
    InputNotResolved { reason: Seq<char> },
    EntryWritten,
    EntryNotWritten { reason: Seq<char> },
    Encoded { run: encode::RunView },
    Uploaded { video_id: Option<Seq<char>> },
    UploadFailed,
    PlaylistUpdated,
    PlaylistNotUpdated,
}

impl View for BatchEvent {
    type V = Event;

    open spec fn view(&self) -> Event {
        match self {
            BatchEvent::ListCreated { path } => Event::ListCreated { path: path@ },
            BatchEvent::ListNotCreated { reason } => Event::ListNotCreated { reason: reason@ },
            BatchEvent::InputResolved { absolute } => Event::InputResolved { absolute: absolute@ },
            BatchEvent::InputNotResolved { reason } => Event::InputNotResolved { reason: reason@ },
            BatchEvent::EntryWritten => Event::EntryWritten,
            BatchEvent::EntryNotWritten { reason } => Event::EntryNotWritten { reason: reason@ },
            BatchEvent::Encoded { run } => Event::Encoded { run: run@ },
            BatchEvent::Uploaded { video_id } => Event::Uploaded {
                video_id: match video_id {
                    Some(id) => Some(id@),
                    None => None,
                },
            },
            BatchEvent::UploadFailed => Event::UploadFailed,
            BatchEvent::PlaylistUpdated => Event::PlaylistUpdated,
            BatchEvent::PlaylistNotUpdated => Event::PlaylistNotUpdated,
        }
    }
}

/// What a batch waits for once its concat list holds all but the given clips: the next of them,
/// or, with none left, the encode.
pub open spec fn next_input(job: JobView, list: Seq<u8>, left: Seq<Seq<u8>>) -> Phase {
    if left.len() == 0 {
        Phase::Encode {
            job,
            list,
            args: encode::encode_words(list, job.filter, job.output, job.gpu_arch),
        }
    } else {
        Phase::ResolveInput { job, list, input: left[0], rest: left.drop_first() }
    }
}

/// What a batch waits for once a piece of work has ended. An event that does not answer what the
/// batch waits for changes nothing.
pub open spec fn next_phase(phase: Phase, event: Event) -> Phase {
    match (phase, event) {
        (Phase::CreateList { job }, Event::ListCreated { path }) => next_input(
            job,
            path,
            job.inputs,
        ),
        (Phase::CreateList { job }, Event::ListNotCreated { reason }) => Phase::Failed {
            fault: PipelineFault::ListNotCreated { reason },
        },
        (
            Phase::ResolveInput { job, list, input, rest },
            Event::InputResolved { absolute },
        ) => match encode::concat_line(absolute) {
            Ok(line) => Phase::WriteEntry { job, list, line, rest },
            Err(fault) => Phase::Failed { fault },
        },
        (
            Phase::ResolveInput { job, list, input, rest },
            Event::InputNotResolved { reason },
        ) => Phase::Failed { fault: PipelineFault::UnresolvedInput { path: input, reason } },
        (Phase::WriteEntry { job, list, line, rest }, Event::EntryWritten) => next_input(
            job,
            list,
            rest,
        ),
        (
            Phase::WriteEntry { job, list, line, rest },
            Event::EntryNotWritten { reason },
        ) => Phase::Failed { fault: PipelineFault::ListNotWritten { reason } },
        (Phase::Encode { job, list, args }, Event::Encoded { run }) => match encode::run_fault(
            run,
        ) {
            None => Phase::Upload { job, video: publish::upload_of(job.date) },
            Some(fault) => Phase::Failed { fault },
        },
        (Phase::Upload { job, video }, Event::Uploaded { video_id }) => match video_id {
            Some(id) => Phase::AddToPlaylist {
                job,
                entry: publish::entry_of(id, publish::PLAYLIST_ID@),
            },
            None => Phase::Done { outcome: Outcome::UploadFailed { date: job.date } },
        },
        (Phase::Upload { job, video }, Event::UploadFailed) => Phase::Done {
            outcome: Outcome::UploadFailed { date: job.date },
        },
        (Phase::AddToPlaylist { job, entry }, Event::PlaylistUpdated) => Phase::Done {
            outcome: Outcome::Uploaded { date: job.date },
        },
        (Phase::AddToPlaylist { job, entry }, Event::PlaylistNotUpdated) => Phase::Done {
            outcome: Outcome::Uploaded { date: job.date },
        },
        _ => phase,
    }
}

/// Where a batch stands before any work was done: the filter is built first, then the date is
/// searched for, and either can fail.
pub open spec fn is_start(
    inputs: Seq<Seq<u8>>,
    output_dir: Seq<u8>,
    lut: Seq<u8>,
    gpu_arch: GpuArch,
    phase: Phase,
) -> bool {
    match encode::video_filter(lut) {
        Err(fault) => phase == Phase::Failed { fault },
        Ok(filter) => match phase {
            Phase::CreateList { job } => {
                &&& clips::is_earliest_date(inputs, Ok(job.date))
                &&& job == JobView {
                    inputs,
                    filter,
                    date: job.date,
                    output: output_of(output_dir, job.date),
                    gpu_arch,
                }
            },
            Phase::Failed { fault } => clips::is_earliest_date(inputs, Err(fault)),
            _ => false,
        },
    }
}

/// Starts one batch (a session's worth of clips) on its way through the full pipeline:
/// concat + encode + upload + playlist.
pub fn process_batch(
    inputs: &[UnixPath],
    output_dir: &UnixPath,
    lut: &UnixPath,
    gpu_arch: GpuArch,
) -> (state: BatchState)
    ensures
        is_start(paths::path_bytes(inputs@), output_dir@, lut@, gpu_arch, state@),
{
    let filter = match encode::build_video_filter(lut) {
        Ok(filter) => filter,
        Err(error) => {
            return BatchState::Failed { error };
        },
    };
    match clips::earliest_date(inputs) {
        Ok(date) => {
            let output = output_path(output_dir, date.as_str());
            BatchState::CreateList {
                job: Job {
                    inputs: paths::duplicate_all(inputs),
                    filter,
                    date,
                    output,
                    gpu_arch,
                },
            }
        },
        Err(error) => BatchState::Failed { error },
    }
}

impl BatchState {
    /// What the batch waits for once its concat list holds all but the given clips.
    fn next_input(job: Job, list: UnixPath, left: Vec<UnixPath>) -> (next: BatchState)
        ensures
            next@ == next_input(job@, list@, paths::path_bytes(left@)),
    {
        if left.len() == 0 {
            let args = encode::ffmpeg_args(&list, job.filter.as_str(), &job.output, job.gpu_arch);
            return BatchState::Encode { job, list, args };
        }
        let ghost all = paths::path_bytes(left@);
        let mut rest = left;
        let input = rest.remove(0);
        assert(paths::path_bytes(rest@) =~= all.drop_first());
        BatchState::ResolveInput { job, list, input, rest }
    }

    /// What the batch waits for once a piece of work has ended.
    ///
    /// Only what comes before the upload can fail the batch. A playlist failure after a
    /// successful upload does not: trying again would upload a duplicate, which is worse than a
    /// video missing from the playlist.
    pub fn step(self, event: BatchEvent) -> (next: BatchState)
        ensures
            next@ == next_phase(self@, event@),
    {
        match (self, event) {
            (BatchState::CreateList { job }, BatchEvent::ListCreated { path }) => {
                let left = paths::duplicate_all(job.inputs.as_slice());
                BatchState::next_input(job, path, left)
            },
            (BatchState::CreateList { job: _ }, BatchEvent::ListNotCreated { reason }) =>
                BatchState::Failed { error: PipelineError::ListNotCreated { reason } },
            (
                BatchState::ResolveInput { job, list, input: _, rest },
                BatchEvent::InputResolved { absolute },
            ) => match encode::concat_entry(&absolute) {
                Ok(line) => BatchState::WriteEntry { job, list, line, rest },
                Err(error) => BatchState::Failed { error },
            },
            (
                BatchState::ResolveInput { job: _, list: _, input, rest: _ },
                BatchEvent::InputNotResolved { reason },
            ) => BatchState::Failed {
                error: PipelineError::UnresolvedInput { path: input, reason },
            },
            (
                BatchState::WriteEntry { job, list, line: _, rest },
                BatchEvent::EntryWritten,
            ) => BatchState::next_input(job, list, rest),
            (
                BatchState::WriteEntry { job: _, list: _, line: _, rest: _ },
                BatchEvent::EntryNotWritten { reason },
            ) => BatchState::Failed { error: PipelineError::ListNotWritten { reason } },
            (BatchState::Encode { job, list: _, args: _ }, BatchEvent::Encoded { run }) =>
                match encode::check_encode(run) {
                Ok(_) => {
                    let video = publish::video_upload(job.date.as_str());
                    BatchState::Upload { job, video }
                },
                Err(error) => BatchState::Failed { error },
            },
            (BatchState::Upload { job, video: _ }, BatchEvent::Uploaded { video_id }) =>
                match video_id {
                Some(id) => BatchState::AddToPlaylist {
                    job,
                    entry: publish::playlist_entry(id.as_str(), publish::PLAYLIST_ID),
                },
                None => BatchState::Done {
                    outcome: BatchOutcome::UploadFailed { date: job.date },
                },
            },
            (BatchState::Upload { job, video: _ }, BatchEvent::UploadFailed) => BatchState::Done {
                outcome: BatchOutcome::UploadFailed { date: job.date },
            },
            (BatchState::AddToPlaylist { job, entry: _ }, BatchEvent::PlaylistUpdated) =>
                BatchState::Done { outcome: BatchOutcome::Uploaded { date: job.date } },
            (BatchState::AddToPlaylist { job, entry: _ }, BatchEvent::PlaylistNotUpdated) =>
                BatchState::Done { outcome: BatchOutcome::Uploaded { date: job.date } },
            (state, _) => state,
        }
    }
}

proof fn output_names_are_plain(date: Seq<char>)
    requires
        !date.contains('/'),
    ensures
        paths::is_plain_name(encode_utf8(output_name(date))),
{
    let name = output_name(date);
    reveal_strlit("Motovlog - ");
    reveal_strlit(".mp4");
    assert(!name.contains('/')) by {
        if name.contains('/') {
            let k = choose|k: int| 0 <= k < name.len() && name[k] == '/';
            if 11 <= k < 11 + date.len() {
                assert(date[k - 11] == '/');
            }
        }
    }
    text::encode_slash(name);
    text::encode_no_shorter(name);
}

/// The video of a date without a slash lies directly in the output directory, under the title of
/// the video and `.mp4`.
pub proof fn output_lies_in_directory(dir: Seq<u8>, date: Seq<char>)
    requires
        !date.contains('/'),
    ensures
        paths::components(output_of(dir, date)) == paths::components(dir).push(
            paths::Component::Normal(encode_utf8(output_name(date))),
        ),
        paths::file_name(output_of(dir, date)) == Some(encode_utf8(output_name(date))),
{
    output_names_are_plain(date);
    paths::join_appends_component(dir, encode_utf8(output_name(date)));
}

/// Different dates without a slash give different files.
pub proof fn different_dates_have_different_outputs(dir: Seq<u8>, a: Seq<char>, b: Seq<char>)
    requires
        !a.contains('/'),
        !b.contains('/'),
        a != b,
    ensures
        output_of(dir, a) != output_of(dir, b),
        paths::file_name(output_of(dir, a)) != paths::file_name(output_of(dir, b)),
        paths::components(output_of(dir, a)) != paths::components(output_of(dir, b)),
{
    output_lies_in_directory(dir, a);
    output_lies_in_directory(dir, b);
    let (x, y) = (output_name(a), output_name(b));
    if encode_utf8(x) == encode_utf8(y) {
        text::encode_injective(x, y);
        let head = publish::TITLE_HEAD@.len() as int;
        assert(x.subrange(head, x.len() - ".mp4"@.len()) =~= a);
        assert(y.subrange(head, y.len() - ".mp4"@.len()) =~= b);
    }
    let parts = paths::components(dir);
    assert(parts.push(paths::Component::Normal(encode_utf8(x))).last()
        == paths::Component::Normal(encode_utf8(x)));
    assert(parts.push(paths::Component::Normal(encode_utf8(y))).last()
        == paths::Component::Normal(encode_utf8(y)));
}

/// The video of a batch lies directly in the output directory.
pub proof fn batches_are_encoded_into_the_directory(
    inputs: Seq<Seq<u8>>,
    output_dir: Seq<u8>,
    lut: Seq<u8>,
    gpu_arch: GpuArch,
    start: Phase,
)
    requires
        is_start(inputs, output_dir, lut, gpu_arch, start),
    ensures
        start matches Phase::CreateList { job } ==> paths::components(job.output)
            == paths::components(output_dir).push(
            paths::Component::Normal(encode_utf8(output_name(job.date))),
        ),
{
    if let Phase::CreateList { job } = start {
        clips::earliest_dates_are_eight_digits(inputs, Ok(job.date));
        assert(!job.date.contains('/'));
        output_lies_in_directory(output_dir, job.date);
    }
}

/// What a batch waits for after a run of events.
pub open spec fn phase_after(phase: Phase, events: Seq<Event>) -> Phase
    decreases events.len(),
{
    if events.len() == 0 {
        phase
    } else {
        next_phase(phase_after(phase, events.drop_last()), events.last())
    }
}

/// How many pieces of work a batch has before it at most.
pub open spec fn work_left(phase: Phase) -> nat {
    match phase {
        Phase::CreateList { job } => 4 + 2 * job.inputs.len(),
        Phase::ResolveInput { rest, .. } => 5 + 2 * rest.len(),
        Phase::WriteEntry { rest, .. } => 4 + 2 * rest.len(),
        Phase::Encode { .. } => 3,
        Phase::Upload { .. } => 2,
        Phase::AddToPlaylist { .. } => 1,
        Phase::Done { .. } => 0,
        Phase::Failed { .. } => 0,
    }
}

/// Whether the encode of a batch is behind it.
pub open spec fn is_encoded(phase: Phase) -> bool {
    phase is Upload || phase is AddToPlaylist || phase is Done
}

/// Whether YouTube has the video of a batch.
pub open spec fn is_uploaded(phase: Phase) -> bool {
    match phase {
        Phase::AddToPlaylist { .. } => true,
        Phase::Done { outcome: Outcome::Uploaded { .. } } => true,
        _ => false,
    }
}

/// No work is ever done twice: an event leaves a batch where it is, or with less work before it.
pub proof fn work_is_never_repeated(phase: Phase, event: Event)
    ensures
        next_phase(phase, event) == phase || work_left(next_phase(phase, event)) < work_left(phase),
{
}

/// A batch that has ended stays as it is.
pub proof fn ended_batches_stay(phase: Phase, events: Seq<Event>)
    requires
        phase is Done || phase is Failed,
    ensures
        phase_after(phase, events) == phase,
    decreases events.len(),
{
    if events.len() > 0 {
        ended_batches_stay(phase, events.drop_last());
    }
}

/// Once a batch is encoded, nothing that happens can fail it.
pub proof fn encoded_batches_never_fail(phase: Phase, events: Seq<Event>)
    requires
        is_encoded(phase),
    ensures
        is_encoded(phase_after(phase, events)),
        phase_after(phase, events) !is Failed,
    decreases events.len(),
{
    if events.len() > 0 {
        encoded_batches_never_fail(phase, events.drop_last());
    }
}

/// Whether the playlist could be updated makes no difference to how a batch ends.
pub proof fn playlist_failure_is_tolerated(job: JobView, entry: publish::PlaylistEntryView)
    ensures
        next_phase(Phase::AddToPlaylist { job, entry }, Event::PlaylistNotUpdated) == next_phase(
            Phase::AddToPlaylist { job, entry },
            Event::PlaylistUpdated,
        ),
        next_phase(Phase::AddToPlaylist { job, entry }, Event::PlaylistUpdated) == (Phase::Done {
            outcome: Outcome::Uploaded { date: job.date },
        }),
{
}

/// What a phase that came of a job says of it.
pub open spec fn keeps_job(phase: Phase, job: JobView) -> bool {
    match phase {
        Phase::CreateList { job: j } => j == job,
        Phase::ResolveInput { job: j, .. } => j == job,
        Phase::WriteEntry { job: j, .. } => j == job,
        Phase::Encode { job: j, list, args } => j == job && args == encode::encode_words(
            list,
            job.filter,
            job.output,
            job.gpu_arch,
        ),
        Phase::Upload { job: j, video } => j == job && video == publish::upload_of(job.date),
        Phase::AddToPlaylist { job: j, entry } => j == job && entry.playlist_id
            == publish::PLAYLIST_ID@,
        Phase::Done { outcome: Outcome::Uploaded { date } } => date == job.date,
        Phase::Done { outcome: Outcome::UploadFailed { date } } => date == job.date,
        Phase::Failed { .. } => true,
    }
}

/// A batch is encoded with the filter, to the output and for the GPU that it was started with,
/// and uploaded and reported under the date that it was started with.
pub proof fn batches_keep_their_job(job: JobView, events: Seq<Event>)
    ensures
        keeps_job(phase_after(Phase::CreateList { job }, events), job),
    decreases events.len(),
{
    if events.len() > 0 {
        batches_keep_their_job(job, events.drop_last());
    }
}

/// Whether a batch was encoded, as far as the events of its work go.
pub open spec fn encode_succeeded(events: Seq<Event>) -> bool {
    exists|run: encode::RunView|
        events.contains(Event::Encoded { run }) && #[trigger] encode::run_fault(run) is None
}

/// Nothing is uploaded of a batch that ffmpeg did not encode, and nothing is reported as
/// uploaded that YouTube gave no name.
pub proof fn uploads_follow_encodes(job: JobView, events: Seq<Event>)
    ensures
        is_encoded(phase_after(Phase::CreateList { job }, events)) ==> encode_succeeded(events),
        is_uploaded(phase_after(Phase::CreateList { job }, events)) ==> exists|id: Seq<char>|
            events.contains(Event::Uploaded { video_id: Some(id) }),
    decreases events.len(),
{
    if events.len() > 0 {
        let before = events.drop_last();
        uploads_follow_encodes(job, before);
        events_stay(events);
        assert(events.contains(events.last()));
        if let Event::Encoded { run } = events.last() {
            assert(encode::run_fault(run) is None ==> encode_succeeded(events));
        }
        if encode_succeeded(before) {
            let run = choose|run: encode::RunView|
                before.contains(Event::Encoded { run }) && #[trigger] encode::run_fault(run) is None;
            assert(events.contains(Event::Encoded { run }));
        }
    }
}

proof fn events_stay(events: Seq<Event>)
    requires
        events.len() > 0,
    ensures
        forall|event: Event|
            #[trigger] events.drop_last().contains(event) ==> events.contains(event),
{
    let before = events.drop_last();
    assert forall|event: Event| #[trigger] before.contains(event) implies events.contains(event) by {
        let i = choose|i: int| 0 <= i < before.len() && before[i] == event;
        assert(events[i] == event);
    }
}

/// The concat list of a phase that has one.
pub open spec fn list_of(phase: Phase) -> Option<Seq<u8>> {
    match phase {
        Phase::ResolveInput { list, .. } => Some(list),
        Phase::WriteEntry { list, .. } => Some(list),
        Phase::Encode { list, .. } => Some(list),
        _ => None,
    }
}

/// The concat list that is written and encoded is the one that was created.
pub proof fn encodes_read_the_created_list(job: JobView, events: Seq<Event>)
    ensures
        list_of(phase_after(Phase::CreateList { job }, events)) matches Some(list)
            ==> events.contains(Event::ListCreated { path: list }),
    decreases events.len(),
{
    if events.len() > 0 {
        encodes_read_the_created_list(job, events.drop_last());
        events_stay(events);
        assert(events.contains(events.last()));
    }
}

/// What became of the concat list of a batch.
pub struct ListLog {
    /// The clips whose absolute paths were found, with these paths, in the order of the search.
    pub clips: Seq<(Seq<u8>, Seq<u8>)>,
    /// All that was written to the list.
    pub text: Seq<char>,
}

impl ListLog {
    /// The clips themselves.
    pub open spec fn inputs(self) -> Seq<Seq<u8>> {
        Seq::new(self.clips.len(), |i: int| self.clips[i].0)
    }

    /// Their absolute paths as texts.
    pub open spec fn names(self) -> Seq<Seq<char>> {
        Seq::new(self.clips.len(), |i: int| decode_utf8(self.clips[i].1))
    }

    /// Whether all absolute paths are texts.
    pub open spec fn is_text(self) -> bool {
        forall|i: int| 0 <= i < self.clips.len() ==> valid_utf8((#[trigger] self.clips[i]).1)
    }
}

/// What became of the concat list of a batch after a run of events.
pub open spec fn list_log(start: Phase, events: Seq<Event>) -> ListLog
    decreases events.len(),
{
    if events.len() == 0 {
        ListLog { clips: Seq::empty(), text: Seq::empty() }
    } else {
        let before = list_log(start, events.drop_last());
        match (phase_after(start, events.drop_last()), events.last()) {
            (Phase::ResolveInput { input, .. }, Event::InputResolved { absolute }) => ListLog {
                clips: before.clips.push((input, absolute)),
                text: before.text,
            },
            (Phase::WriteEntry { line, .. }, Event::EntryWritten) => ListLog {
                clips: before.clips,
                text: before.text + line,
            },
            _ => before,
        }
    }
}

/// How the log of a concat list goes with where its batch stands.
spec fn logs_the_list(phase: Phase, job: JobView, log: ListLog) -> bool {
    match phase {
        Phase::CreateList { .. } => log.clips.len() == 0 && log.text.len() == 0,
        Phase::ResolveInput { input, rest, .. } => {
            &&& log.inputs() + seq![input] + rest == job.inputs
            &&& log.is_text()
            &&& log.text == encode::list_text(log.names())
        },
        Phase::WriteEntry { line, rest, .. } => {
            &&& log.inputs() + rest == job.inputs
            &&& log.is_text()
            &&& log.text + line == encode::list_text(log.names())
        },
        Phase::Failed { .. } => true,
        _ => {
            &&& log.inputs() == job.inputs
            &&& log.is_text()
            &&& log.text == encode::list_text(log.names())
        },
    }
}

/// Before the next clip all earlier clips are in the log, and with none left all clips are.
proof fn next_input_logs_the_list(job: JobView, list: Seq<u8>, left: Seq<Seq<u8>>, log: ListLog)
    requires
        log.inputs() + left == job.inputs,
        log.is_text(),
        log.text == encode::list_text(log.names()),
    ensures
        logs_the_list(next_input(job, list, left), job, log),
{
    if left.len() == 0 {
        assert(log.inputs() + left =~= log.inputs());
    } else {
        assert(log.inputs() + seq![left[0]] + left.drop_first() =~= log.inputs() + left);
    }
}

proof fn list_is_logged(job: JobView, events: Seq<Event>)
    ensures
        logs_the_list(
            phase_after(Phase::CreateList { job }, events),
            job,
            list_log(Phase::CreateList { job }, events),
        ),
    decreases events.len(),
{
    if events.len() > 0 {
        let start = Phase::CreateList { job };
        let phase = phase_after(start, events.drop_last());
        let (before, log) = (list_log(start, events.drop_last()), list_log(start, events));
        list_is_logged(job, events.drop_last());
        batches_keep_their_job(job, events.drop_last());
        match (phase, events.last()) {
            (Phase::CreateList { .. }, Event::ListCreated { path }) => {
                assert(log.inputs() + job.inputs =~= job.inputs);
                assert(log.names() =~= Seq::<Seq<char>>::empty());
                assert(log.text =~= encode::list_text(log.names()));
                next_input_logs_the_list(job, path, job.inputs, log);
            },
            (
                Phase::ResolveInput { job: _, list, input, rest },
                Event::InputResolved { absolute },
            ) => {
                if valid_utf8(absolute) {
                    let name = decode_utf8(absolute);
                    assert(log.inputs() =~= before.inputs() + seq![input]);
                    assert(log.names() =~= before.names().push(name));
                    assert(log.names().drop_last() =~= before.names());
                    assert(log.text + encode::list_line(name) == encode::list_text(log.names()));
                }
            },
            (Phase::WriteEntry { job: _, list, line, rest }, Event::EntryWritten) => {
                assert(log.inputs() =~= before.inputs());
                assert(log.names() =~= before.names());
                next_input_logs_the_list(job, list, rest, log);
            },
            _ => {},
        }
    }
}

/// When a batch is encoded, its concat list names one absolute path for each of its clips, in
/// order: the one that was found for it. The list holds their lines and nothing else, and ffmpeg
/// reads exactly these paths from it.
pub proof fn encoded_lists_name_the_clips(job: JobView, events: Seq<Event>)
    ensures
        ({
            let phase = phase_after(Phase::CreateList { job }, events);
            let log = list_log(Phase::CreateList { job }, events);
            phase is Encode || is_encoded(phase) ==> {
                &&& log.inputs() == job.inputs
                &&& log.is_text()
                &&& log.text == encode::list_text(log.names())
                &&& encode::read_list(log.text) == Some(log.names())
            }
        }),
{
    let log = list_log(Phase::CreateList { job }, events);
    list_is_logged(job, events);
    encode::lists_read_back(log.names());
}

/// Whatever happens to a batch, the date that it is reported with is the earliest of its clips.
pub proof fn batches_report_the_earliest_date(
    inputs: Seq<Seq<u8>>,
    output_dir: Seq<u8>,
    lut: Seq<u8>,
    gpu_arch: GpuArch,
    start: Phase,
    events: Seq<Event>,
)
    requires
        is_start(inputs, output_dir, lut, gpu_arch, start),
    ensures
        phase_after(start, events) matches Phase::Done { outcome } ==> clips::is_earliest_date(
            inputs,
            Ok(outcome_date(outcome)),
        ),
{
    match start {
        Phase::CreateList { job } => {
            batches_keep_their_job(job, events);
        },
        _ => {
            ended_batches_stay(start, events);
        },
    }
}

/// The date of an outcome.
pub open spec fn outcome_date(outcome: Outcome) -> Seq<char> {
    match outcome {
        Outcome::Uploaded { date } => date,
        Outcome::UploadFailed { date } => date,
    }
}

/// The video of a date is the file `Motovlog - `, the date and `.mp4` below the directory,
/// whatever date and directory are.
pub proof fn outputs_are_named_by_date(dir: Seq<u8>, date: Seq<char>)
    ensures
        output_of(dir, date) == paths::join(dir, encode_utf8("Motovlog - "@ + date + ".mp4"@)),
{
}

/// A batch starts with the concat list of its own clips, for the GPU, the directory and the LUT
/// that were given and the earliest date; or it fails, first for a LUT that has no filter and
/// then for a clip that has no date.
pub proof fn batches_start_as_asked(
    inputs: Seq<Seq<u8>>,
    output_dir: Seq<u8>,
    lut: Seq<u8>,
    gpu_arch: GpuArch,
    phase: Phase,
)
    requires
        is_start(inputs, output_dir, lut, gpu_arch, phase),
    ensures
        !valid_utf8(lut) ==> phase == (Phase::Failed {
            fault: PipelineFault::NonUtf8Lut { path: lut },
        }),
        valid_utf8(lut) ==> match phase {
            Phase::CreateList { job } => {
                &&& job.inputs == inputs
                &&& Ok::<Seq<char>, PipelineFault>(job.filter) == encode::video_filter(lut)
                &&& job.gpu_arch == gpu_arch
                &&& clips::is_earliest_date(inputs, Ok(job.date))
                &&& job.output == paths::join(
                    output_dir,
                    encode_utf8("Motovlog - "@ + job.date + ".mp4"@),
                )
            },
            Phase::Failed { fault } => clips::is_earliest_date(inputs, Err(fault)),
            _ => false,
        },
{
}

/// What the answers to a batch's work on its concat list lead to: each clip is resolved and
/// written in turn, and whatever fails is the fault of the batch, with the reason given.
pub proof fn answers_lead_to_the_encode(
    job: JobView,
    list: Seq<u8>,
    input: Seq<u8>,
    absolute: Seq<u8>,
    line: Seq<char>,
    next: Seq<u8>,
    after: Seq<Seq<u8>>,
    reason: Seq<char>,
)
    ensures
        next_phase(Phase::CreateList { job }, Event::ListNotCreated { reason }) == (Phase::Failed {
            fault: PipelineFault::ListNotCreated { reason },
        }),
        job.inputs == seq![next] + after ==> next_phase(
            Phase::CreateList { job },
            Event::ListCreated { path: list },
        ) == (Phase::ResolveInput { job, list, input: next, rest: after }),
        next_phase(
            Phase::ResolveInput { job, list, input, rest: after },
            Event::InputNotResolved { reason },
        ) == (Phase::Failed { fault: PipelineFault::UnresolvedInput { path: input, reason } }),
        !valid_utf8(absolute) ==> next_phase(
            Phase::ResolveInput { job, list, input, rest: after },
            Event::InputResolved { absolute },
        ) == (Phase::Failed { fault: PipelineFault::NonUtf8Input { path: absolute } }),
        valid_utf8(absolute) ==> next_phase(
            Phase::ResolveInput { job, list, input, rest: after },
            Event::InputResolved { absolute },
        ) == (Phase::WriteEntry {
            job,
            list,
            line: encode::list_line(decode_utf8(absolute)),
            rest: after,
        }),
        next_phase(
            Phase::WriteEntry { job, list, line, rest: after },
            Event::EntryNotWritten { reason },
        ) == (Phase::Failed { fault: PipelineFault::ListNotWritten { reason } }),
        next_phase(
            Phase::WriteEntry { job, list, line, rest: seq![next] + after },
            Event::EntryWritten,
        ) == (Phase::ResolveInput { job, list, input: next, rest: after }),
        next_phase(Phase::WriteEntry { job, list, line, rest: Seq::empty() }, Event::EntryWritten)
            == (Phase::Encode {
            job,
            list,
            args: encode::encode_words(list, job.filter, job.output, job.gpu_arch),
        }),
{
    assert((seq![next] + after).drop_first() =~= after);
}

/// What the answers to a batch's encode, upload and playlist lead to: only the encode can fail
/// the batch, only an upload that YouTube gave a name is one, and the playlist makes no
/// difference.
pub proof fn answers_lead_to_the_end(
    job: JobView,
    list: Seq<u8>,
    args: Seq<Seq<u8>>,
    run: encode::RunView,
    video: publish::VideoUploadView,
    entry: publish::PlaylistEntryView,
    id: Seq<char>,
)
    ensures
        encode::run_succeeded(run) ==> next_phase(
            Phase::Encode { job, list, args },
            Event::Encoded { run },
        ) == (Phase::Upload { job, video: publish::upload_of(job.date) }),
        !encode::run_succeeded(run) ==> (next_phase(
            Phase::Encode { job, list, args },
            Event::Encoded { run },
        ) matches Phase::Failed { fault } && encode::run_fault(run) == Some(fault)),
        next_phase(Phase::Upload { job, video }, Event::UploadFailed) == (Phase::Done {
            outcome: Outcome::UploadFailed { date: job.date },
        }),
        next_phase(Phase::Upload { job, video }, Event::Uploaded { video_id: None }) == (
        Phase::Done { outcome: Outcome::UploadFailed { date: job.date } }),
        next_phase(Phase::Upload { job, video }, Event::Uploaded { video_id: Some(id) }) == (
        Phase::AddToPlaylist {
            job,
            entry: publish::entry_of(id, "PLrDx50RI8LwOsr-hccwOgM_BbTUxux5lf"@),
        }),
        next_phase(Phase::AddToPlaylist { job, entry }, Event::PlaylistUpdated) == (Phase::Done {
            outcome: Outcome::Uploaded { date: job.date },
        }),
        next_phase(Phase::AddToPlaylist { job, entry }, Event::PlaylistNotUpdated) == (
        Phase::Done { outcome: Outcome::Uploaded { date: job.date } }),
{
}

/// An event that nobody waits for changes nothing.
pub proof fn unasked_events_change_no_batch(phase: Phase, event: Event)
    requires
        match event {
            Event::ListCreated { .. } => phase !is CreateList,
            Event::ListNotCreated { .. } => phase !is CreateList,
            Event::InputResolved { .. } => phase !is ResolveInput,
            Event::InputNotResolved { .. } => phase !is ResolveInput,
            Event::EntryWritten => phase !is WriteEntry,
            Event::EntryNotWritten { .. } => phase !is WriteEntry,
            Event::Encoded { .. } => phase !is Encode,
            Event::Uploaded { .. } => phase !is Upload,
            Event::UploadFailed => phase !is Upload,
            Event::PlaylistUpdated => phase !is AddToPlaylist,
            Event::PlaylistNotUpdated => phase !is AddToPlaylist,
        },
    ensures
        next_phase(phase, event) == phase,
{
}

/// The events of a concat list that is created and gets a line for each clip, whose absolute
/// paths are given.
pub open spec fn listing_events(list: Seq<u8>, absolutes: Seq<Seq<u8>>) -> Seq<Event>
    decreases absolutes.len(),
{
    if absolutes.len() == 0 {
        seq![Event::ListCreated { path: list }]
    } else {
        listing_events(list, absolutes.drop_last()).push(
            Event::InputResolved { absolute: absolutes.last() },
        ).push(Event::EntryWritten)
    }
}

proof fn listing_leads_on(job: JobView, list: Seq<u8>, absolutes: Seq<Seq<u8>>)
    requires
        absolutes.len() <= job.inputs.len(),
        forall|i: int| 0 <= i < absolutes.len() ==> valid_utf8(#[trigger] absolutes[i]),
    ensures
        phase_after(Phase::CreateList { job }, listing_events(list, absolutes)) == next_input(
            job,
            list,
            job.inputs.skip(absolutes.len() as int),
        ),
    decreases absolutes.len(),
{
    let start = Phase::CreateList { job };
    let events = listing_events(list, absolutes);
    if absolutes.len() == 0 {
        assert(events.drop_last() =~= Seq::<Event>::empty());
        assert(phase_after(start, events.drop_last()) == start);
        assert(job.inputs.skip(0) =~= job.inputs);
    } else {
        let fewer = absolutes.drop_last();
        let n = fewer.len() as int;
        assert forall|i: int| 0 <= i < fewer.len() implies valid_utf8(#[trigger] fewer[i]) by {
            assert(fewer[i] == absolutes[i]);
        }
        assert(valid_utf8(absolutes[n]));
        listing_leads_on(job, list, fewer);
        let before = listing_events(list, fewer);
        let resolved = before.push(Event::InputResolved { absolute: absolutes.last() });
        assert(resolved.drop_last() =~= before);
        assert(events.drop_last() =~= resolved);
        assert(job.inputs.skip(n).drop_first() =~= job.inputs.skip(n + 1));
        assert(phase_after(start, resolved) is WriteEntry);
    }
}

/// A batch whose work goes well is encoded, uploaded and reported as uploaded under its date:
/// ffmpeg is run on the list with all its clips once each of them was found and written, and
/// whether the playlist could be updated makes no difference.
pub proof fn uneventful_batches_are_uploaded(
    job: JobView,
    list: Seq<u8>,
    absolutes: Seq<Seq<u8>>,
    run: encode::RunView,
    id: Seq<char>,
    end: Event,
)
    requires
        absolutes.len() == job.inputs.len(),
        forall|i: int| 0 <= i < absolutes.len() ==> valid_utf8(#[trigger] absolutes[i]),
        encode::run_succeeded(run),
        end is PlaylistUpdated || end is PlaylistNotUpdated,
    ensures
        ({
            let start = Phase::CreateList { job };
            let listed = listing_events(list, absolutes);
            let encoded = listed.push(Event::Encoded { run });
            let uploaded = encoded.push(Event::Uploaded { video_id: Some(id) });
            &&& phase_after(start, listed) == (Phase::Encode {
                job,
                list,
                args: encode::encode_words(list, job.filter, job.output, job.gpu_arch),
            })
            &&& phase_after(start, encoded) == (Phase::Upload {
                job,
                video: publish::upload_of(job.date),
            })
            &&& phase_after(start, uploaded) == (Phase::AddToPlaylist {
                job,
                entry: publish::entry_of(id, "PLrDx50RI8LwOsr-hccwOgM_BbTUxux5lf"@),
            })
            &&& phase_after(start, uploaded.push(end)) == (Phase::Done {
                outcome: Outcome::Uploaded { date: job.date },
            })
            &&& phase_after(start, encoded.push(Event::UploadFailed)) == (Phase::Done {
                outcome: Outcome::UploadFailed { date: job.date },
            })
        }),
{
    let listed = listing_events(list, absolutes);
    let encoded = listed.push(Event::Encoded { run });
    let uploaded = encoded.push(Event::Uploaded { video_id: Some(id) });
    listing_leads_on(job, list, absolutes);
    assert(job.inputs.skip(absolutes.len() as int).len() == 0);
    assert(encoded.drop_last() =~= listed);
    assert(uploaded.drop_last() =~= encoded);
    assert(uploaded.push(end).drop_last() =~= uploaded);
    assert(encoded.push(Event::UploadFailed).drop_last() =~= encoded);
}

/// Wherever among the clips one is lost, the batch fails with the path of that clip; and where a
/// line cannot be written, it fails for that, whatever comes behind.
pub proof fn batches_fail_at_the_first_lost_clip(
    job: JobView,
    list: Seq<u8>,
    absolutes: Seq<Seq<u8>>,
    absolute: Seq<u8>,
    reason: Seq<char>,
)
    requires
        absolutes.len() < job.inputs.len(),
        forall|i: int| 0 <= i < absolutes.len() ==> valid_utf8(#[trigger] absolutes[i]),
    ensures
        ({
            let start = Phase::CreateList { job };
            let listed = listing_events(list, absolutes);
            let found = listed.push(Event::InputResolved { absolute });
            &&& phase_after(start, listed.push(Event::InputNotResolved { reason })) == (
            Phase::Failed {
                fault: PipelineFault::UnresolvedInput {
                    path: job.inputs[absolutes.len() as int],
                    reason,
                },
            })
            &&& !valid_utf8(absolute) ==> phase_after(start, found) == (Phase::Failed {
                fault: PipelineFault::NonUtf8Input { path: absolute },
            })
            &&& valid_utf8(absolute) ==> phase_after(
                start,
                found.push(Event::EntryNotWritten { reason }),
            ) == (Phase::Failed { fault: PipelineFault::ListNotWritten { reason } })
        }),
{
    let listed = listing_events(list, absolutes);
    let found = listed.push(Event::InputResolved { absolute });
    listing_leads_on(job, list, absolutes);
    assert(listed.push(Event::InputNotResolved { reason }).drop_last() =~= listed);
    assert(found.drop_last() =~= listed);
    assert(found.push(Event::EntryNotWritten { reason }).drop_last() =~= found);
}

/// A batch counts as encoded only where ffmpeg was started and its exit status said success.
pub proof fn encoded_batches_had_a_successful_run(job: JobView, events: Seq<Event>)
    ensures
        is_encoded(phase_after(Phase::CreateList { job }, events)) ==> exists|run: encode::RunView|
            #[trigger] events.contains(Event::Encoded { run }) && encode::run_succeeded(run),
{
    if is_encoded(phase_after(Phase::CreateList { job }, events)) {
        uploads_follow_encodes(job, events);
        let run = choose|run: encode::RunView|
            events.contains(Event::Encoded { run }) && #[trigger] encode::run_fault(run) is None;
        match run {
            encode::RunView::NotStarted { reason } => {},
            encode::RunView::Streamed { success, status } => {},
            encode::RunView::Captured { success, status, stderr } => {},
        }
        assert(encode::run_succeeded(run));
    }
}

/// The views of a batch's job, outcome and events hold what they are views of.
pub proof fn batch_event_views_are_faithful(job: Job, outcome: BatchOutcome, event: BatchEvent)
    ensures
        job@.inputs == paths::path_bytes(job.inputs@),
        job@.filter == job.filter@,
        job@.date == job.date@,
        job@.output == job.output@,
        job@.gpu_arch == job.gpu_arch,
        match outcome {
            BatchOutcome::Uploaded { date } => outcome@ == (Outcome::Uploaded { date: date@ }),
            BatchOutcome::UploadFailed { date } => outcome@ == (Outcome::UploadFailed {
                date: date@,
            }),
        },
        match event {
            BatchEvent::ListCreated { path } => event@ == (Event::ListCreated { path: path@ }),
            BatchEvent::ListNotCreated { reason } => event@ == (Event::ListNotCreated {
                reason: reason@,
            }),
            BatchEvent::InputResolved { absolute } => event@ == (Event::InputResolved {
                absolute: absolute@,
            }),
            BatchEvent::InputNotResolved { reason } => event@ == (Event::InputNotResolved {
                reason: reason@,
            }),
            BatchEvent::EntryWritten => event@ == Event::EntryWritten,
            BatchEvent::EntryNotWritten { reason } => event@ == (Event::EntryNotWritten {
                reason: reason@,
            }),
            BatchEvent::Encoded { run } => event@ == (Event::Encoded { run: run@ }),
            BatchEvent::Uploaded { video_id: Some(id) } => event@ == (Event::Uploaded {
                video_id: Some(id@),
            }),
            BatchEvent::Uploaded { video_id: None } => event@ == (Event::Uploaded {
                video_id: None,
            }),
            BatchEvent::UploadFailed => event@ == Event::UploadFailed,
            BatchEvent::PlaylistUpdated => event@ == Event::PlaylistUpdated,
            BatchEvent::PlaylistNotUpdated => event@ == Event::PlaylistNotUpdated,
        },
{
}

/// The view of where a batch stands holds what it is a view of.
pub proof fn batch_state_views_are_faithful(state: BatchState)
    ensures
        match state {
            BatchState::CreateList { job } => state@ == (Phase::CreateList { job: job@ }),
            BatchState::ResolveInput { job, list, input, rest } => state@ == (Phase::ResolveInput {
                job: job@,
                list: list@,
                input: input@,
                rest: paths::path_bytes(rest@),
            }),
            BatchState::WriteEntry { job, list, line, rest } => state@ == (Phase::WriteEntry {
                job: job@,
                list: list@,
                line: line@,
                rest: paths::path_bytes(rest@),
            }),
            BatchState::Encode { job, list, args } => state@ == (Phase::Encode {
                job: job@,
                list: list@,
                args: command::arg_bytes(args@),
            }),
            BatchState::Upload { job, video } => state@ == (Phase::Upload {
                job: job@,
                video: video@,
            }),
            BatchState::AddToPlaylist { job, entry } => state@ == (Phase::AddToPlaylist {
                job: job@,
                entry: entry@,
            }),
            BatchState::Done { outcome } => state@ == (Phase::Done { outcome: outcome@ }),
            BatchState::Failed { error } => state@ == (Phase::Failed { fault: error@ }),
        },
{
}

} // verus!
