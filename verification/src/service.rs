//! The service: batches are waited for and processed one by one, and their clips moved out of
//! the way.
use crate::clips;
use crate::errors::{PipelineError, PipelineFault};
use crate::moving;
use crate::moving::{MoveEvent, MoveState};
use crate::paths;
use crate::paths::UnixPath;
use crate::pipeline::{BatchOutcome, Outcome};
use crate::stamp;
use crate::text;
use crate::watcher::WaitOutcome;
use vstd::prelude::*;
use vstd::string::*;
use vstd::utf8::*;

verus! {

/// Why the clips of a batch are moved.
#[derive(Debug, Clone, Copy, PartialEq, Eq)]
pub enum MoveReason {
    /// The video was uploaded.
    Uploaded,
    /// The video was encoded, but not uploaded.
    UploadFailed,
    /// The batch failed.
    BatchFailed,
}

impl MoveReason {
    /// What is reported where clips that are moved for a reason could not be moved: the upload or
    /// the batch may have failed before.
    pub open spec fn report(self, dest_dir: Seq<u8>, error: Seq<char>) -> Seq<char> {
        (match self {
            MoveReason::Uploaded => "batch processed but failed to archive clips to "@,
            MoveReason::UploadFailed => "additionally failed to archive clips to "@,
            MoveReason::BatchFailed => "additionally failed to move clips to "@,
        }) + text::lossy_text(dest_dir) + ": "@ + error
    }

    /// What is reported where the clips could not be moved.
    pub fn failure_report(self, dest_dir: &UnixPath, error: &str) -> (report: String)
        ensures
            report@ == self.report(dest_dir@, error@),
    {
        let lead = match self {
            MoveReason::Uploaded => "batch processed but failed to archive clips to ",
            MoveReason::UploadFailed => "additionally failed to archive clips to ",
            MoveReason::BatchFailed => "additionally failed to move clips to ",
        };
        lead.to_owned().concat(dest_dir.display().as_str()).concat(": ").concat(error)
    }
}

/// Where the clips of processed and of failed batches go.
#[derive(Debug, PartialEq, Eq)]
pub struct Archive {
    pub processed_dir: UnixPath,
    pub failed_dir: UnixPath,
}

/// What the service does next.
#[derive(Debug, PartialEq, Eq)]
pub enum ServiceState {
    /// A batch or a shutdown is to be waited for.
    Waiting,
    /// The batch is to be processed.
    Processing { batch: Vec<UnixPath> },
    /// The batch failed: the time is to be read.
    Stamping { batch: Vec<UnixPath> },
    /// The clips are to be moved, or the move is over and to be reported.
    Moving { reason: MoveReason, files: MoveState },
    /// The events that the move itself caused are to be dropped: the paths that it vacated would
    /// otherwise seed the next wait.
    Draining,
    /// The service is over.
    Stopped,
}

/// What a [`ServiceState`] says.
pub enum Stage {
    Waiting,
    Processing { batch: Seq<Seq<u8>> },
    Stamping { batch: Seq<Seq<u8>> },
    Moving { reason: MoveReason, files: moving::MovePhase },
    Draining,
    Stopped,
}

impl View for ServiceState {
    type V = Stage;

    open spec fn view(&self) -> Stage {
        match self {
            ServiceState::Waiting => Stage::Waiting,
            ServiceState::Processing { batch } => Stage::Processing {
                batch: paths::path_bytes(batch@),
            },
            ServiceState::Stamping { batch } => Stage::Stamping {
                batch: paths::path_bytes(batch@),
            },
            ServiceState::Moving { reason, files } => Stage::Moving {
                reason: *reason,
                files: files@,
            },
            ServiceState::Draining => Stage::Draining,
            ServiceState::Stopped => Stage::Stopped,
        }
    }
}

/// What the service has done.
#[derive(Debug, PartialEq, Eq)]
pub enum ServiceEvent {
    WaitEnded { outcome: WaitOutcome },
    BatchEnded { result: Result<BatchOutcome, PipelineError> },
    /// The time was read, and written as a name.
    Stamped { stamp: String },
    /// A piece of the work of a move ended.
    MoveStepped { event: MoveEvent },
    /// How the move ended was reported.
    MoveEnded,
    Drained,
}

/// What a [`ServiceEvent`] says.
pub enum ServiceNews {
    BatchFound { batch: Seq<Seq<u8>> },
    ShutdownRequested,
    BatchEncoded { outcome: Outcome },
    BatchFailed { fault: PipelineFault },
    Stamped { stamp: Seq<char> },
    MoveStepped { news: moving::MoveNews },
    MoveEnded,
    Drained,
}

impl View for ServiceEvent {
    type V = ServiceNews;

    open spec fn view(&self) -> ServiceNews {
        match self {
            ServiceEvent::WaitEnded { outcome: WaitOutcome::Batch(batch) } =>
                ServiceNews::BatchFound { batch: paths::path_bytes(batch@) },
            ServiceEvent::WaitEnded { outcome: WaitOutcome::Shutdown } =>
                ServiceNews::ShutdownRequested,
            ServiceEvent::BatchEnded { result: Ok(outcome) } => ServiceNews::BatchEncoded {
                outcome: outcome@,
            },
            ServiceEvent::BatchEnded { result: Err(error) } => ServiceNews::BatchFailed {
                fault: error@,
            },
            ServiceEvent::Stamped { stamp } => ServiceNews::Stamped { stamp: stamp@ },
            ServiceEvent::MoveStepped { event } => ServiceNews::MoveStepped { news: event@ },
            ServiceEvent::MoveEnded => ServiceNews::MoveEnded,
            ServiceEvent::Drained => ServiceNews::Drained,
        }
    }
}

/// The start of the move of a batch into a directory.
pub open spec fn move_start(batch: Seq<Seq<u8>>, dest_dir: Seq<u8>) -> moving::MovePhase {
    moving::MovePhase::CreateDir { plan: moving::plan_of(batch, dest_dir) }
}

/// Why the clips of an encoded batch are moved.
pub open spec fn archive_reason(outcome: Outcome) -> MoveReason {
    match outcome {
        Outcome::Uploaded { .. } => MoveReason::Uploaded,
        Outcome::UploadFailed { .. } => MoveReason::UploadFailed,
    }
}

/// What the service does after it has done something. News that does not answer what it does
/// changes nothing.
pub open spec fn next_stage(
    stage: Stage,
    processed_dir: Seq<u8>,
    failed_dir: Seq<u8>,
    news: ServiceNews,
) -> Stage {
    match (stage, news) {
        (Stage::Waiting, ServiceNews::BatchFound { batch }) => Stage::Processing { batch },
        (Stage::Waiting, ServiceNews::ShutdownRequested) => Stage::Stopped,
        (Stage::Processing { batch }, ServiceNews::BatchEncoded { outcome }) => Stage::Moving {
            reason: archive_reason(outcome),
            files: move_start(batch, processed_dir),
        },
        (Stage::Processing { batch }, ServiceNews::BatchFailed { fault }) => Stage::Stamping {
            batch,
        },
        (Stage::Stamping { batch }, ServiceNews::Stamped { stamp }) => Stage::Moving {
            reason: MoveReason::BatchFailed,
            files: move_start(batch, paths::join(failed_dir, encode_utf8(stamp))),
        },
        (Stage::Moving { reason, files }, ServiceNews::MoveStepped { news }) => Stage::Moving {
            reason,
            files: moving::next_move(files, news),
        },
        (Stage::Moving { reason, files }, ServiceNews::MoveEnded) => if moving::has_ended(files) {
            Stage::Draining
        } else {
            stage
        },
        (Stage::Draining, ServiceNews::Drained) => Stage::Waiting,
        _ => stage,
    }
}

impl ServiceState {
    /// What the service does after it has done something.
    ///
    /// The clips of an encoded batch are archived whether or not the upload went through. The
    /// clips of a failed batch go into a directory of their own, for a manual retry. That some
    /// clip could not be moved does not stop the service.
    pub fn step(self, archive: &Archive, event: ServiceEvent) -> (next: ServiceState)
        ensures
            next@ == next_stage(
                self@,
                archive.processed_dir@,
                archive.failed_dir@,
                event@,
            ),
    {
        match (self, event) {
            (
                ServiceState::Waiting,
                ServiceEvent::WaitEnded { outcome: WaitOutcome::Batch(batch) },
            ) => ServiceState::Processing { batch },
            (
                ServiceState::Waiting,
                ServiceEvent::WaitEnded { outcome: WaitOutcome::Shutdown },
            ) => ServiceState::Stopped,
            (
                ServiceState::Processing { batch },
                ServiceEvent::BatchEnded { result: Ok(outcome) },
            ) => {
                let reason = match outcome {
                    BatchOutcome::Uploaded { date: _ } => MoveReason::Uploaded,
                    BatchOutcome::UploadFailed { date: _ } => MoveReason::UploadFailed,
                };
                ServiceState::Moving {
                    reason,
                    files: MoveState::CreateDir {
                        plan: moving::move_batch(batch.as_slice(), &archive.processed_dir),
                    },
                }
            },
            (ServiceState::Processing { batch }, ServiceEvent::BatchEnded { result: Err(_) }) =>
                ServiceState::Stamping { batch },
            (ServiceState::Stamping { batch }, ServiceEvent::Stamped { stamp }) => {
                let dest = archive.failed_dir.join(stamp.as_str().as_bytes());
                ServiceState::Moving {
                    reason: MoveReason::BatchFailed,
                    files: MoveState::CreateDir {
                        plan: moving::move_batch(batch.as_slice(), &dest),
                    },
                }
            },
            (ServiceState::Moving { reason, files }, ServiceEvent::MoveStepped { event }) =>
                ServiceState::Moving { reason, files: files.step(event) },
            (ServiceState::Moving { reason, files }, ServiceEvent::MoveEnded) => if files.is_over() {
                ServiceState::Draining
            } else {
                ServiceState::Moving { reason, files }
            },
            (ServiceState::Draining, ServiceEvent::Drained) => ServiceState::Waiting,
            (state, _) => state,
        }
    }
}

/// The clips of an encoded batch go to the directory for processed clips, whether or not the
/// upload went through; those of a failed one go to a directory below the one for failed batches;
/// and nothing else is done with them before.
pub proof fn batches_are_routed_by_encode(
    batch: Seq<Seq<u8>>,
    processed_dir: Seq<u8>,
    failed_dir: Seq<u8>,
    outcome: Outcome,
    fault: PipelineFault,
    stamp: Seq<char>,
)
    ensures
        next_stage(
            Stage::Processing { batch },
            processed_dir,
            failed_dir,
            ServiceNews::BatchEncoded { outcome },
        ) == (Stage::Moving {
            reason: archive_reason(outcome),
            files: move_start(batch, processed_dir),
        }),
        next_stage(
            next_stage(
                Stage::Processing { batch },
                processed_dir,
                failed_dir,
                ServiceNews::BatchFailed { fault },
            ),
            processed_dir,
            failed_dir,
            ServiceNews::Stamped { stamp },
        ) == (Stage::Moving {
            reason: MoveReason::BatchFailed,
            files: move_start(batch, paths::join(failed_dir, encode_utf8(stamp))),
        }),
{
}

/// The service stops only while it waits: a batch that was begun is finished first.
pub proof fn service_stops_only_between_batches(
    stage: Stage,
    processed_dir: Seq<u8>,
    failed_dir: Seq<u8>,
    news: ServiceNews,
)
    requires
        stage !is Stopped,
        next_stage(stage, processed_dir, failed_dir, news) is Stopped,
    ensures
        stage is Waiting,
        news is ShutdownRequested,
{
}

/// The service waits again only after the events of the last move were dropped, and that only
/// after the move was over; how it ended makes no difference.
pub proof fn events_are_drained_before_waiting(
    stage: Stage,
    processed_dir: Seq<u8>,
    failed_dir: Seq<u8>,
    news: ServiceNews,
)
    ensures
        stage !is Waiting && next_stage(stage, processed_dir, failed_dir, news) is Waiting
            ==> stage is Draining,
        stage !is Draining && next_stage(stage, processed_dir, failed_dir, news) is Draining ==> (
        stage matches Stage::Moving { files, .. } && moving::has_ended(files)),
        stage matches Stage::Moving { files, .. } && moving::has_ended(files)
            && news is MoveEnded ==> next_stage(stage, processed_dir, failed_dir, news) is Draining,
{
}

/// The clips of a batch that failed at a time go into a directory named by that time, which lies
/// directly in the one for failed batches, each under its own name; clips are all moved.
pub proof fn failed_batches_go_below_their_stamp(
    batch: Seq<Seq<u8>>,
    processed_dir: Seq<u8>,
    failed_dir: Seq<u8>,
    t: stamp::LocalTime,
)
    ensures
        ({
            let name = encode_utf8(stamp::stamp_text(t));
            let plan = moving::plan_of(batch, paths::join(failed_dir, name));
            &&& next_stage(
                Stage::Stamping { batch },
                processed_dir,
                failed_dir,
                ServiceNews::Stamped { stamp: stamp::stamp_text(t) },
            ) == (Stage::Moving {
                reason: MoveReason::BatchFailed,
                files: moving::MovePhase::CreateDir { plan },
            })
            &&& forall|i: int|
                0 <= i < plan.moves.len() ==> {
                    let (from, to) = #[trigger] plan.moves[i];
                    &&& i < batch.len() && from == batch[i]
                    &&& paths::file_name(from) matches Some(own) && paths::components(to)
                        == paths::components(failed_dir).push(
                        paths::Component::Normal(name),
                    ).push(paths::Component::Normal(own))
                }
            &&& (forall|i: int| 0 <= i < batch.len() ==> clips::is_clip(#[trigger] batch[i]))
                ==> plan.moves.len() == batch.len() && plan.nameless is None
        }),
{
    let name = encode_utf8(stamp::stamp_text(t));
    let dest = paths::join(failed_dir, name);
    stamp::stamped_directory_lies_below(failed_dir, t);
    moving::moves_keep_names(batch, dest);
    if forall|i: int| 0 <= i < batch.len() ==> clips::is_clip(#[trigger] batch[i]) {
        moving::clips_are_all_moved(batch, dest);
    }
}

/// The batch that is processed is the batch that was found, all of it and in order; its clips go
/// where its end says; and the service goes on to drain and to wait again once the move is over.
pub proof fn batches_go_through_whole(
    batch: Seq<Seq<u8>>,
    processed_dir: Seq<u8>,
    failed_dir: Seq<u8>,
    date: Seq<char>,
    fault: PipelineFault,
    stamp: Seq<char>,
)
    ensures
        next_stage(
            Stage::Waiting,
            processed_dir,
            failed_dir,
            ServiceNews::BatchFound { batch },
        ) == (Stage::Processing { batch }),
        next_stage(
            Stage::Processing { batch },
            processed_dir,
            failed_dir,
            ServiceNews::BatchEncoded { outcome: Outcome::Uploaded { date } },
        ) == (Stage::Moving {
            reason: MoveReason::Uploaded,
            files: moving::MovePhase::CreateDir { plan: moving::plan_of(batch, processed_dir) },
        }),
        next_stage(
            Stage::Processing { batch },
            processed_dir,
            failed_dir,
            ServiceNews::BatchEncoded { outcome: Outcome::UploadFailed { date } },
        ) == (Stage::Moving {
            reason: MoveReason::UploadFailed,
            files: moving::MovePhase::CreateDir { plan: moving::plan_of(batch, processed_dir) },
        }),
        next_stage(
            Stage::Processing { batch },
            processed_dir,
            failed_dir,
            ServiceNews::BatchFailed { fault },
        ) == (Stage::Stamping { batch }),
        next_stage(
            Stage::Stamping { batch },
            processed_dir,
            failed_dir,
            ServiceNews::Stamped { stamp },
        ) == (Stage::Moving {
            reason: MoveReason::BatchFailed,
            files: moving::MovePhase::CreateDir {
                plan: moving::plan_of(batch, paths::join(failed_dir, encode_utf8(stamp))),
            },
        }),
        next_stage(
            Stage::Waiting,
            processed_dir,
            failed_dir,
            ServiceNews::ShutdownRequested,
        ) == Stage::Stopped,
        next_stage(Stage::Draining, processed_dir, failed_dir, ServiceNews::Drained)
            == Stage::Waiting,
{
}

/// A move goes on by its own news, for the reason that it was begun for, and ends with the report.
pub proof fn moves_go_on_by_their_news(
    reason: MoveReason,
    files: moving::MovePhase,
    processed_dir: Seq<u8>,
    failed_dir: Seq<u8>,
    news: moving::MoveNews,
)
    ensures
        next_stage(
            Stage::Moving { reason, files },
            processed_dir,
            failed_dir,
            ServiceNews::MoveStepped { news },
        ) == (Stage::Moving { reason, files: moving::next_move(files, news) }),
        next_stage(Stage::Moving { reason, files }, processed_dir, failed_dir, ServiceNews::MoveEnded)
            == if files is Moved || files is Failed {
            Stage::Draining
        } else {
            Stage::Moving { reason, files }
        },
{
}

/// News that nobody asked for changes nothing.
pub proof fn unasked_news_changes_no_stage(
    stage: Stage,
    processed_dir: Seq<u8>,
    failed_dir: Seq<u8>,
    news: ServiceNews,
)
    requires
        match news {
            ServiceNews::BatchFound { .. } => stage !is Waiting,
            ServiceNews::ShutdownRequested => stage !is Waiting,
            ServiceNews::BatchEncoded { .. } => stage !is Processing,
            ServiceNews::BatchFailed { .. } => stage !is Processing,
            ServiceNews::Stamped { .. } => stage !is Stamping,
            ServiceNews::MoveStepped { .. } => stage !is Moving,
            ServiceNews::MoveEnded => stage !is Moving,
            ServiceNews::Drained => stage !is Draining,
        },
    ensures
        next_stage(stage, processed_dir, failed_dir, news) == stage,
{
}

/// The report of a failed move names the directory and the error, behind words that tell whether
/// the batch was processed, its upload failed, or it failed itself.
pub proof fn move_reports_tell_the_reason(dest_dir: Seq<u8>, error: Seq<char>)
    ensures
        MoveReason::Uploaded.report(dest_dir, error)
            == "batch processed but failed to archive clips to "@ + text::lossy_text(dest_dir)
            + ": "@ + error,
        MoveReason::UploadFailed.report(dest_dir, error)
            == "additionally failed to archive clips to "@ + text::lossy_text(dest_dir) + ": "@
            + error,
        MoveReason::BatchFailed.report(dest_dir, error) == "additionally failed to move clips to "@
            + text::lossy_text(dest_dir) + ": "@ + error,
{
}

/// What the service does after a run of news.
pub open spec fn stage_after(
    stage: Stage,
    processed_dir: Seq<u8>,
    failed_dir: Seq<u8>,
    news: Seq<ServiceNews>,
) -> Stage
    decreases news.len(),
{
    if news.len() == 0 {
        stage
    } else {
        next_stage(
            stage_after(stage, processed_dir, failed_dir, news.drop_last()),
            processed_dir,
            failed_dir,
            news.last(),
        )
    }
}

/// The last batch that a run of news found.
pub open spec fn last_found(news: Seq<ServiceNews>) -> Option<Seq<Seq<u8>>>
    decreases news.len(),
{
    if news.len() == 0 {
        None
    } else {
        match news.last() {
            ServiceNews::BatchFound { batch } => Some(batch),
            _ => last_found(news.drop_last()),
        }
    }
}

/// Whether a move is one of the clips of a batch, and of all of them, into the directory for
/// processed clips or into one for failed batches.
pub open spec fn moves_batch(
    files: moving::MovePhase,
    batch: Seq<Seq<u8>>,
    processed_dir: Seq<u8>,
    failed_dir: Seq<u8>,
) -> bool {
    exists|dest_dir: Seq<u8>, news: Seq<moving::MoveNews>|
        {
            &&& #[trigger] moving::move_after(
                moving::MovePhase::CreateDir { plan: moving::plan_of(batch, dest_dir) },
                news,
            ) == files
            &&& dest_dir == processed_dir || exists|stamp: Seq<char>|
                dest_dir == #[trigger] paths::join(failed_dir, encode_utf8(stamp))
        }
}

/// Whether the service is at work on the batch that it found last, where it is at work on one.
pub open spec fn works_on_last_found(
    stage: Stage,
    processed_dir: Seq<u8>,
    failed_dir: Seq<u8>,
    found: Option<Seq<Seq<u8>>>,
) -> bool {
    match stage {
        Stage::Processing { batch } => found == Some(batch),
        Stage::Stamping { batch } => found == Some(batch),
        Stage::Moving { files, .. } => found is Some && moves_batch(
            files,
            found->0,
            processed_dir,
            failed_dir,
        ),
        _ => true,
    }
}

/// Whether a batch was found only while one was waited for.
pub open spec fn finds_when_waiting(
    processed_dir: Seq<u8>,
    failed_dir: Seq<u8>,
    news: Seq<ServiceNews>,
) -> bool {
    forall|i: int|
        0 <= i < news.len() && #[trigger] news[i] is BatchFound ==> stage_after(
            Stage::Waiting,
            processed_dir,
            failed_dir,
            news.take(i),
        ) is Waiting
}

/// Over any run of the service, the clips that are processed and the clips that are moved are
/// exactly those that the last wait ended with.
pub proof fn found_clips_are_processed_and_moved(
    processed_dir: Seq<u8>,
    failed_dir: Seq<u8>,
    news: Seq<ServiceNews>,
)
    requires
        finds_when_waiting(processed_dir, failed_dir, news),
    ensures
        works_on_last_found(
            stage_after(Stage::Waiting, processed_dir, failed_dir, news),
            processed_dir,
            failed_dir,
            last_found(news),
        ),
    decreases news.len(),
{
    if news.len() > 0 {
        let before = news.drop_last();
        let stage = stage_after(Stage::Waiting, processed_dir, failed_dir, before);
        assert forall|i: int| 0 <= i < before.len() && #[trigger] before[i] is BatchFound implies stage_after(
            Stage::Waiting,
            processed_dir,
            failed_dir,
            before.take(i),
        ) is Waiting by {
            assert(news[i] == before[i]);
            assert(news.take(i) =~= before.take(i));
        }
        found_clips_are_processed_and_moved(processed_dir, failed_dir, before);
        assert(news.take(news.len() - 1) =~= before);
        assert(news[news.len() - 1] == news.last());
        match (stage, news.last()) {
            (Stage::Processing { batch }, ServiceNews::BatchEncoded { outcome }) => {
                let start = moving::MovePhase::CreateDir {
                    plan: moving::plan_of(batch, processed_dir),
                };
                assert(moving::move_after(start, Seq::empty()) == start);
            },
            (Stage::Stamping { batch }, ServiceNews::Stamped { stamp }) => {
                let dest_dir = paths::join(failed_dir, encode_utf8(stamp));
                let start = moving::MovePhase::CreateDir {
                    plan: moving::plan_of(batch, dest_dir),
                };
                assert(moving::move_after(start, Seq::empty()) == start);
            },
            (Stage::Moving { reason, files }, ServiceNews::MoveStepped { news: step }) => {
                let batch = last_found(before)->0;
                let (dest_dir, steps) = choose|dest_dir: Seq<u8>, steps: Seq<moving::MoveNews>|
                    {
                        &&& #[trigger] moving::move_after(
                            moving::MovePhase::CreateDir {
                                plan: moving::plan_of(batch, dest_dir),
                            },
                            steps,
                        ) == files
                        &&& dest_dir == processed_dir || exists|stamp: Seq<char>|
                            dest_dir == #[trigger] paths::join(failed_dir, encode_utf8(stamp))
                    };
                let start = moving::MovePhase::CreateDir {
                    plan: moving::plan_of(batch, dest_dir),
                };
                assert(steps.push(step).drop_last() =~= steps);
                assert(moving::move_after(start, steps.push(step)) == moving::next_move(
                    files,
                    step,
                ));
            },
            _ => {},
        }
    }
}

/// The views of the service hold what they are views of.
pub proof fn service_views_are_faithful(state: ServiceState, event: ServiceEvent)
    ensures
        match state {
            ServiceState::Waiting => state@ == Stage::Waiting,
            ServiceState::Processing { batch } => state@ == (Stage::Processing {
                batch: paths::path_bytes(batch@),
            }),
            ServiceState::Stamping { batch } => state@ == (Stage::Stamping {
                batch: paths::path_bytes(batch@),
            }),
            ServiceState::Moving { reason, files } => state@ == (Stage::Moving {
                reason,
                files: files@,
            }),
            ServiceState::Draining => state@ == Stage::Draining,
            ServiceState::Stopped => state@ == Stage::Stopped,
        },
        match event {
            ServiceEvent::WaitEnded { outcome: WaitOutcome::Batch(batch) } => event@
                == (ServiceNews::BatchFound { batch: paths::path_bytes(batch@) }),
            ServiceEvent::WaitEnded { outcome: WaitOutcome::Shutdown } => event@
                == ServiceNews::ShutdownRequested,
            ServiceEvent::BatchEnded { result: Ok(outcome) } => event@
                == (ServiceNews::BatchEncoded { outcome: outcome@ }),
            ServiceEvent::BatchEnded { result: Err(error) } => event@ == (ServiceNews::BatchFailed {
                fault: error@,
            }),
            ServiceEvent::Stamped { stamp } => event@ == (ServiceNews::Stamped { stamp: stamp@ }),
            ServiceEvent::MoveStepped { event: step } => event@ == (ServiceNews::MoveStepped {
                news: step@,
            }),
            ServiceEvent::MoveEnded => event@ == ServiceNews::MoveEnded,
            ServiceEvent::Drained => event@ == ServiceNews::Drained,
        },
{
}

} // verus!
