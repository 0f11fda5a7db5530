//! Waiting for a batch: a directory that has been quiet for a while holds a complete session.
//!
//! Times are nanoseconds since the Unix epoch, and may lie before it.
use crate::clips;
use crate::errors::{WatchError, WatchFault};
use crate::paths;
use crate::paths::UnixPath;
use crate::sorting;
use vstd::prelude::*;

verus! {

/// What came of reading the time at which a clip was last changed.
#[derive(Debug, PartialEq, Eq)]
pub enum MtimeReading {
    Read { path: UnixPath, at: i128 },
    Unread { path: UnixPath, reason: String },
}

/// What a [`MtimeReading`] says.
pub enum MtimeView {
    Read { path: Seq<u8>, at: int },
    Unread { path: Seq<u8>, reason: Seq<char> },
}

impl View for MtimeReading {
    type V = MtimeView;

    open spec fn view(&self) -> MtimeView {
        match self {
            MtimeReading::Read { path, at } => MtimeView::Read { path: path@, at: *at as int },
            MtimeReading::Unread { path, reason } => MtimeView::Unread {
                path: path@,
                reason: reason@,
            },
        }
    }
}

impl MtimeView {
    /// The clip that was looked at.
    pub open spec fn clip(self) -> Seq<u8> {
        match self {
            MtimeView::Read { path, .. } => path,
            MtimeView::Unread { path, .. } => path,
        }
    }

    /// The time that was read, or the fault of the clip.
    pub open spec fn time(self) -> Result<int, WatchFault> {
        match self {
            MtimeView::Read { at, .. } => Ok(at),
            MtimeView::Unread { path, reason } => Err(WatchFault::MtimeUnread { path, reason }),
        }
    }
}

/// What a list of readings says.
pub open spec fn mtime_views(readings: Seq<MtimeReading>) -> Seq<MtimeView> {
    Seq::new(readings.len(), |i: int| readings[i]@)
}

/// Whether every time could be read.
pub open spec fn all_read(readings: Seq<MtimeView>) -> bool {
    forall|i: int| 0 <= i < readings.len() ==> (#[trigger] readings[i]).time() is Ok
}

/// Whether there is one reading for each clip, in order.
pub open spec fn are_of(readings: Seq<MtimeView>, clips: Seq<Seq<u8>>) -> bool {
    &&& readings.len() == clips.len()
    &&& forall|i: int| 0 <= i < clips.len() ==> (#[trigger] readings[i]).clip() == clips[i]
}

/// What the search for the newest time finds: the greatest of all times; where some could not be
/// read, the fault of the first such clip; and a fault where there are none.
pub open spec fn is_newest(readings: Seq<MtimeView>, found: Result<int, WatchFault>) -> bool {
    if readings.len() == 0 {
        found == Err::<int, WatchFault>(WatchFault::NoInputFiles)
    } else {
        match found {
            Ok(newest) => {
                &&& exists|i: int|
                    0 <= i < readings.len() && (#[trigger] readings[i]).time() == found
                &&& forall|i: int|
                    0 <= i < readings.len() ==> ((#[trigger] readings[i]).time() matches Ok(at)
                        && at <= newest)
            },
            Err(fault) => exists|i: int|
                0 <= i < readings.len() && (#[trigger] readings[i]).time() == found && all_read(
                    readings.take(i),
                ),
        }
    }
}

/// What a result says.
pub open spec fn newest_view(found: Result<i128, WatchError>) -> Result<int, WatchFault> {
    match found {
        Ok(at) => Ok(at as int),
        Err(error) => Err(error@),
    }
}

/// The newest of the times at which clips were last changed.
pub fn newest_mtime(readings: &[MtimeReading]) -> (found: Result<i128, WatchError>)
    ensures
        is_newest(mtime_views(readings@), newest_view(found)),
{
    let ghost all = mtime_views(readings@);
    let mut newest: Option<i128> = None;
    let mut i: usize = 0;
    while i < readings.len()
        invariant
            i <= readings@.len(),
            all == mtime_views(readings@),
            newest is None <==> i == 0,
            newest matches Some(n) ==> exists|k: int|
                0 <= k < i && (#[trigger] all[k]).time() == Ok::<int, WatchFault>(n as int),
            forall|k: int|
                0 <= k < i ==> ((#[trigger] all[k]).time() matches Ok(at) && newest matches Some(n)
                    && at <= n),
        decreases readings@.len() - i,
    {
        match &readings[i] {
            MtimeReading::Read { path: _, at } => {
                assert(all[i as int].time() == Ok::<int, WatchFault>(*at as int));
                newest = match newest {
                    Some(n) => if *at > n {
                        Some(*at)
                    } else {
                        Some(n)
                    },
                    None => Some(*at),
                };
            },
            MtimeReading::Unread { path, reason } => {
                let error = WatchError::MtimeUnread {
                    path: path.duplicate(),
                    reason: reason.clone(),
                };
                proof {
                    assert forall|k: int| 0 <= k < i implies (#[trigger] all.take(
                        i as int,
                    )[k]).time() is Ok by {
                        assert(all.take(i as int)[k] == all[k]);
                    }
                    assert(all[i as int].time() == Err::<int, WatchFault>(error@));
                }
                return Err(error);
            },
        }
        i = i + 1;
    }
    match newest {
        Some(n) => Ok(n),
        None => Err(WatchError::NoInputFiles),
    }
}

/// Whether there is one reading for each clip, in order.
fn readings_are_of(readings: &[MtimeReading], clips: &[UnixPath]) -> (complete: bool)
    ensures
        complete == are_of(mtime_views(readings@), paths::path_bytes(clips@)),
{
    let ghost (all, of) = (mtime_views(readings@), paths::path_bytes(clips@));
    if readings.len() != clips.len() {
        return false;
    }
    let mut i: usize = 0;
    while i < clips.len()
        invariant
            i <= clips@.len(),
            readings@.len() == clips@.len(),
            all == mtime_views(readings@),
            of == paths::path_bytes(clips@),
            forall|k: int| 0 <= k < i ==> (#[trigger] all[k]).clip() == of[k],
        decreases clips@.len() - i,
    {
        let path = match &readings[i] {
            MtimeReading::Read { path, at: _ } => path,
            MtimeReading::Unread { path, reason: _ } => path,
        };
        assert(all[i as int].clip() == path@);
        if !path.same(&clips[i]) {
            return false;
        }
        i = i + 1;
    }
    true
}

/// How waiting for a batch ended.
#[derive(Debug, PartialEq, Eq)]
pub enum WaitOutcome {
    Batch(Vec<UnixPath>),
    Shutdown,
}

/// What a wait needs next, or how it ended.
#[derive(Debug, PartialEq, Eq)]
pub enum WaitState {
    /// The clips of the directory are to be listed.
    Listing,
    /// Nothing is there yet: an event of the file system or a shutdown is to be awaited.
    Idle,
    /// The times at which the clips were last changed are to be read.
    Dating { existing: Vec<UnixPath> },
    /// The clock is to be read.
    Settling { last_activity: i128 },
    /// An event of the file system or a shutdown is to be awaited, but no longer than what is
    /// left of the quiet period.
    Waiting { remaining: u128 },
    /// The quiet period is over: it is to be seen whether something is still queued.
    Polling,
    /// The directory was quiet: its clips are to be listed again.
    Closing,
    /// The wait is over.
    Finished { outcome: WaitOutcome },
    /// The wait failed.
    Failed { error: WatchError },
}

/// What a [`WaitState`] says.
pub enum WaitPhase {
    Listing,
    Idle,
    Dating { existing: Seq<Seq<u8>> },
    Settling { last_activity: int },
    Waiting { remaining: int },
    Polling,
    Closing,
    Batch { inputs: Seq<Seq<u8>> },
    Shutdown,
    Failed { fault: WatchFault },
}

impl View for WaitState {
    type V = WaitPhase;

    open spec fn view(&self) -> WaitPhase {
        match self {
            WaitState::Listing => WaitPhase::Listing,
            WaitState::Idle => WaitPhase::Idle,
            WaitState::Dating { existing } => WaitPhase::Dating {
                existing: paths::path_bytes(existing@),
            },
            WaitState::Settling { last_activity } => WaitPhase::Settling {
                last_activity: *last_activity as int,
            },
            WaitState::Waiting { remaining } => WaitPhase::Waiting { remaining: *remaining as int },
            WaitState::Polling => WaitPhase::Polling,
            WaitState::Closing => WaitPhase::Closing,
            WaitState::Finished { outcome: WaitOutcome::Batch(inputs) } => WaitPhase::Batch {
                inputs: paths::path_bytes(inputs@),
            },
            WaitState::Finished { outcome: WaitOutcome::Shutdown } => WaitPhase::Shutdown,
            WaitState::Failed { error } => WaitPhase::Failed { fault: error@ },
        }
    }
}

/// What happened during a wait.
#[derive(Debug, PartialEq, Eq)]
pub enum WaitEvent {
    /// The clips of the directory, in order.
    Listed { inputs: Vec<UnixPath> },
    /// The times at which the clips were last changed, one for each.
    MtimesRead { readings: Vec<MtimeReading> },
    ClockRead { now: i128 },
    /// The file system reported an event in the directory.
    Activity { now: i128 },
    /// What was left of the quiet period is over.
    TimedOut,
    /// Nothing is queued.
    QueueEmpty,
    ShutdownRequested,
    ChannelClosed,
    WatcherFailed { reason: String },
}

/// What a [`WaitEvent`] says.
pub enum WaitNews {
    Listed { inputs: Seq<Seq<u8>> },
    MtimesRead { readings: Seq<MtimeView> },
    ClockRead { now: int },
    Activity { now: int },
    TimedOut,
    QueueEmpty,
    ShutdownRequested,
    ChannelClosed,
    WatcherFailed { reason: Seq<char> },
}

impl View for WaitEvent {
    type V = WaitNews;

    open spec fn view(&self) -> WaitNews {
        match self {
            WaitEvent::Listed { inputs } => WaitNews::Listed { inputs: paths::path_bytes(inputs@) },
            WaitEvent::MtimesRead { readings } => WaitNews::MtimesRead {
                readings: mtime_views(readings@),
            },
            WaitEvent::ClockRead { now } => WaitNews::ClockRead { now: *now as int },
            WaitEvent::Activity { now } => WaitNews::Activity { now: *now as int },
            WaitEvent::TimedOut => WaitNews::TimedOut,
            WaitEvent::QueueEmpty => WaitNews::QueueEmpty,
            WaitEvent::ShutdownRequested => WaitNews::ShutdownRequested,
            WaitEvent::ChannelClosed => WaitNews::ChannelClosed,
            WaitEvent::WatcherFailed { reason } => WaitNews::WatcherFailed { reason: reason@ },
        }
    }
}

/// How long it has been quiet: not at all where the clock shows a time before the last activity.
pub open spec fn quiet_since(last_activity: int, now: int) -> int {
    if now >= last_activity {
        now - last_activity
    } else {
        0
    }
}

/// What a wait needs after the clock was read.
pub open spec fn settled(last_activity: int, now: int, quiet_period: int) -> WaitPhase {
    let elapsed = quiet_since(last_activity, now);
    if elapsed >= quiet_period {
        WaitPhase::Polling
    } else {
        WaitPhase::Waiting { remaining: quiet_period - elapsed }
    }
}

/// Whether a wait is over.
pub open spec fn has_ended(phase: WaitPhase) -> bool {
    phase is Batch || phase is Shutdown || phase is Failed
}

/// What a wait needs after news that does not depend on what it needed before: activity lets the
/// quiet period begin anew, and a shutdown or a fault of the watcher ends the wait.
pub open spec fn interrupted(news: WaitNews) -> Option<WaitPhase> {
    match news {
        WaitNews::ShutdownRequested => Some(WaitPhase::Shutdown),
        WaitNews::Activity { now } => Some(WaitPhase::Settling { last_activity: now }),
        WaitNews::ChannelClosed => Some(WaitPhase::Failed { fault: WatchFault::ChannelClosed }),
        WaitNews::WatcherFailed { reason } => Some(
            WaitPhase::Failed { fault: WatchFault::WatcherFailed { reason } },
        ),
        _ => None,
    }
}

/// Whether `next` is what a wait needs after an answer to what it needed. Any other news changes
/// nothing.
pub open spec fn is_answered(
    phase: WaitPhase,
    news: WaitNews,
    quiet_period: int,
    next: WaitPhase,
) -> bool {
    match (phase, news) {
        (WaitPhase::Listing, WaitNews::Listed { inputs }) => next == if inputs.len() == 0 {
            WaitPhase::Idle
        } else {
            WaitPhase::Dating { existing: inputs }
        },
        (WaitPhase::Dating { existing }, WaitNews::MtimesRead { readings }) => if are_of(
            readings,
            existing,
        ) {
            match next {
                WaitPhase::Settling { last_activity } => is_newest(readings, Ok(last_activity)),
                WaitPhase::Failed { fault } => is_newest(readings, Err(fault)),
                _ => false,
            }
        } else {
            next == phase
        },
        (WaitPhase::Settling { last_activity }, WaitNews::ClockRead { now }) => next == settled(
            last_activity,
            now,
            quiet_period,
        ),
        (WaitPhase::Waiting { remaining }, WaitNews::TimedOut) => next == WaitPhase::Polling,
        (WaitPhase::Polling, WaitNews::QueueEmpty) => next == WaitPhase::Closing,
        (WaitPhase::Closing, WaitNews::Listed { inputs }) => next == if inputs.len() == 0 {
            WaitPhase::Listing
        } else {
            WaitPhase::Batch { inputs }
        },
        _ => next == phase,
    }
}

/// Whether `next` is what a wait needs after something happened. A wait that is over stays over.
pub open spec fn is_next(
    phase: WaitPhase,
    news: WaitNews,
    quiet_period: int,
    next: WaitPhase,
) -> bool {
    if has_ended(phase) {
        next == phase
    } else {
        match interrupted(news) {
            Some(after) => next == after,
            None => is_answered(phase, news, quiet_period, next),
        }
    }
}

/// How many nanoseconds lie between two times; none where the second lies before the first.
pub fn elapsed(last_activity: i128, now: i128) -> (nanos: u128)
    ensures
        nanos == quiet_since(last_activity as int, now as int),
{
    if now < last_activity {
        0
    } else if last_activity >= 0 || now < 0 {
        (now - last_activity) as u128
    } else {
        now as u128 + (-(last_activity + 1)) as u128 + 1
    }
}

/// The news of a directory with the given entries: its clips, in order.
pub fn listed(entries: Vec<UnixPath>) -> (event: WaitEvent)
    ensures
        event@ matches WaitNews::Listed { inputs } && sorting::is_stable_sort(
            clips::clips_of(paths::path_bytes(entries@)),
            inputs,
        ),
{
    WaitEvent::Listed { inputs: clips::collect_inputs(entries) }
}

impl WaitState {
    /// Whether the wait is over.
    pub fn is_over(&self) -> (over: bool)
        ensures
            over == has_ended(self@),
    {
        match self {
            WaitState::Finished { outcome: WaitOutcome::Batch(_) } => true,
            WaitState::Finished { outcome: WaitOutcome::Shutdown } => true,
            WaitState::Failed { error: _ } => true,
            _ => false,
        }
    }

    /// What the wait needs after something happened.
    ///
    /// Clips that are there from the start are dated by their newest change rather than by the
    /// clock, so that clips which settled long ago are not waited for again. Activity, at
    /// whatever point of the wait it is seen, lets the quiet period begin anew, and a shutdown
    /// ends the wait at any point. A directory that turns out empty after a quiet period is
    /// waited for anew.
    pub fn step(self, event: WaitEvent, quiet_period: u128) -> (next: WaitState)
        ensures
            is_next(self@, event@, quiet_period as int, next@),
    {
        if self.is_over() {
            return self;
        }
        match event {
            WaitEvent::ShutdownRequested => WaitState::Finished { outcome: WaitOutcome::Shutdown },
            WaitEvent::Activity { now } => WaitState::Settling { last_activity: now },
            WaitEvent::ChannelClosed => WaitState::Failed { error: WatchError::ChannelClosed },
            WaitEvent::WatcherFailed { reason } => WaitState::Failed {
                error: WatchError::WatcherFailed { reason },
            },
            event => self.answer(event, quiet_period),
        }
    }

    /// What the wait needs after an answer to what it needed.
    fn answer(self, event: WaitEvent, quiet_period: u128) -> (next: WaitState)
        ensures
            is_answered(self@, event@, quiet_period as int, next@),
    {
        match (self, event) {
            (WaitState::Listing, WaitEvent::Listed { inputs }) => if inputs.len() == 0 {
                WaitState::Idle
            } else {
                WaitState::Dating { existing: inputs }
            },
            (WaitState::Dating { existing }, WaitEvent::MtimesRead { readings }) => {
                if !readings_are_of(readings.as_slice(), existing.as_slice()) {
                    return WaitState::Dating { existing };
                }
                match newest_mtime(readings.as_slice()) {
                    Ok(last_activity) => WaitState::Settling { last_activity },
                    Err(error) => WaitState::Failed { error },
                }
            },
            (WaitState::Settling { last_activity }, WaitEvent::ClockRead { now }) => {
                let quiet = elapsed(last_activity, now);
                if quiet >= quiet_period {
                    WaitState::Polling
                } else {
                    WaitState::Waiting { remaining: quiet_period - quiet }
                }
            },
            (WaitState::Waiting { remaining: _ }, WaitEvent::TimedOut) => WaitState::Polling,
            (WaitState::Polling, WaitEvent::QueueEmpty) => WaitState::Closing,
            (WaitState::Closing, WaitEvent::Listed { inputs }) => if inputs.len() == 0 {
                WaitState::Listing
            } else {
                WaitState::Finished { outcome: WaitOutcome::Batch(inputs) }
            },
            (state, _) => state,
        }
    }
}

/// A wait never ends with an empty batch.
pub proof fn batches_are_never_empty(
    phase: WaitPhase,
    news: WaitNews,
    quiet_period: int,
    next: WaitPhase,
)
    requires
        is_next(phase, news, quiet_period, next),
        phase !is Batch,
    ensures
        next matches WaitPhase::Batch { inputs } ==> inputs.len() > 0 && news == (WaitNews::Listed {
            inputs,
        }),
{
}

/// A batch is taken only after the directory was found quiet and nothing was queued, it is found
/// quiet only by the clock or at the end of what was left of the quiet period, and only a request
/// shuts a wait down.
pub proof fn only_quiet_closes(
    phase: WaitPhase,
    news: WaitNews,
    quiet_period: int,
    next: WaitPhase,
)
    requires
        is_next(phase, news, quiet_period, next),
        next != phase,
    ensures
        next is Batch ==> phase is Closing,
        next is Closing ==> phase is Polling && news is QueueEmpty,
        next is Polling ==> (phase is Settling && news is ClockRead) || (phase is Waiting
            && news is TimedOut),
        next is Waiting ==> phase is Settling && news is ClockRead,
        next is Shutdown ==> news is ShutdownRequested,
{
}

/// When a directory is found quiet, the whole quiet period has passed since the last activity:
/// by the clock, or because the rest of it was waited for. The clock is taken not to lie before
/// that activity, and the timer not to end early.
pub proof fn quiet_period_is_kept(
    last_activity: int,
    read_at: int,
    timed_out_at: int,
    quiet_period: int,
    next: WaitPhase,
)
    requires
        is_next(
            WaitPhase::Settling { last_activity },
            WaitNews::ClockRead { now: read_at },
            quiet_period,
            next,
        ),
        last_activity <= read_at,
        next matches WaitPhase::Waiting { remaining } ==> timed_out_at >= read_at + remaining,
    ensures
        next is Polling || next is Waiting,
        next is Polling ==> read_at - last_activity >= quiet_period,
        next is Waiting ==> timed_out_at - last_activity >= quiet_period,
{
}

/// The rest of the quiet period is waited for and no more: it ends when the whole period has
/// passed since the last activity.
pub proof fn no_longer_than_needed(
    last_activity: int,
    now: int,
    quiet_period: int,
    remaining: int,
)
    requires
        last_activity <= now,
        settled(last_activity, now, quiet_period) == (WaitPhase::Waiting { remaining }),
    ensures
        0 < remaining <= quiet_period,
        now + remaining == last_activity + quiet_period,
{
}

/// Activity starts the quiet period anew, at whatever point of the wait it is seen.
pub proof fn activity_restarts_the_period(
    phase: WaitPhase,
    active_at: int,
    quiet_period: int,
    next: WaitPhase,
    after: WaitPhase,
)
    requires
        quiet_period > 0,
        !has_ended(phase),
        is_next(phase, WaitNews::Activity { now: active_at }, quiet_period, next),
        is_next(next, WaitNews::ClockRead { now: active_at }, quiet_period, after),
    ensures
        after == (WaitPhase::Waiting { remaining: quiet_period }),
{
}

/// Clips that were all settled when the wait began are taken without another wait, where nothing
/// is queued: by listing, dating, a look at the clock, a look at the queue, and listing again.
pub proof fn settled_clips_are_taken_at_once(
    phases: Seq<WaitPhase>,
    existing: Seq<Seq<u8>>,
    readings: Seq<MtimeView>,
    now: int,
    inputs: Seq<Seq<u8>>,
    quiet_period: int,
)
    requires
        quiet_period >= 0,
        existing.len() > 0,
        inputs.len() > 0,
        are_of(readings, existing),
        forall|i: int|
            0 <= i < readings.len() ==> ((#[trigger] readings[i]).time() matches Ok(at) && at
                + quiet_period <= now),
        is_run(
            phases,
            seq![
                WaitNews::Listed { inputs: existing },
                WaitNews::MtimesRead { readings },
                WaitNews::ClockRead { now },
                WaitNews::QueueEmpty,
                WaitNews::Listed { inputs },
            ],
            quiet_period,
        ),
    ensures
        phases[5] == (WaitPhase::Batch { inputs }),
{
    let news = seq![
        WaitNews::Listed { inputs: existing },
        WaitNews::MtimesRead { readings },
        WaitNews::ClockRead { now },
        WaitNews::QueueEmpty,
        WaitNews::Listed { inputs },
    ];
    assert(is_next(phases[0], news[0], quiet_period, phases[1]));
    assert(is_next(phases[1], news[1], quiet_period, phases[2]));
    assert(is_next(phases[2], news[2], quiet_period, phases[3]));
    assert(is_next(phases[3], news[3], quiet_period, phases[4]));
    assert(is_next(phases[4], news[4], quiet_period, phases[5]));
    if let WaitPhase::Failed { fault } = phases[2] {
        let i = choose|i: int|
            0 <= i < readings.len() && (#[trigger] readings[i]).time() == Err::<int, WatchFault>(
                fault,
            ) && all_read(readings.take(i));
        assert(readings[i].time() is Ok);
    }
}

/// A shutdown that is requested before the wait is over ends it, whatever the wait needs.
pub proof fn shutdown_ends_the_wait(phase: WaitPhase, quiet_period: int, next: WaitPhase)
    requires
        !has_ended(phase),
        is_next(phase, WaitNews::ShutdownRequested, quiet_period, next),
    ensures
        next is Shutdown,
{
}

/// The search for the newest time has one finding.
pub proof fn newest_is_unique(
    readings: Seq<MtimeView>,
    a: Result<int, WatchFault>,
    b: Result<int, WatchFault>,
)
    requires
        is_newest(readings, a),
        is_newest(readings, b),
    ensures
        a == b,
{
    if readings.len() > 0 && a is Err && b is Err {
        let i = choose|i: int|
            0 <= i < readings.len() && (#[trigger] readings[i]).time() == a && all_read(
                readings.take(i),
            );
        let j = choose|j: int|
            0 <= j < readings.len() && (#[trigger] readings[j]).time() == b && all_read(
                readings.take(j),
            );
        if i < j {
            assert(readings.take(j)[i].time() is Ok);
        } else if j < i {
            assert(readings.take(i)[j].time() is Ok);
        }
    }
}

/// Whether phases are what a wait needed, one after the other, as news came in.
pub open spec fn is_run(
    phases: Seq<WaitPhase>,
    news: Seq<WaitNews>,
    quiet_period: int,
) -> bool {
    &&& phases.len() == news.len() + 1
    &&& phases[0] is Listing
    &&& forall|i: int|
        0 <= i < news.len() ==> is_next(
            phases[i],
            #[trigger] news[i],
            quiet_period,
            phases[i + 1],
        )
}

/// The news that brought a run into the phase that it has after `n` pieces of news.
pub open spec fn entered_by(phases: Seq<WaitPhase>, n: int) -> int
    decreases n,
{
    if n <= 0 || phases[n - 1] != phases[n] {
        n - 1
    } else {
        entered_by(phases, n - 1)
    }
}

/// Whether news came in at the given times: the clock shows the time at which it is read and at
/// which something happens, it never goes back, and a timer does not end before it is due.
pub open spec fn keeps_time(
    phases: Seq<WaitPhase>,
    news: Seq<WaitNews>,
    times: Seq<int>,
) -> bool {
    &&& times.len() == news.len()
    &&& forall|i: int, j: int| 0 <= i <= j < times.len() ==> times[i] <= times[j]
    &&& forall|i: int|
        0 <= i < news.len() ==> match #[trigger] news[i] {
            WaitNews::ClockRead { now } => now == times[i],
            WaitNews::Activity { now } => now == times[i],
            WaitNews::TimedOut => phases[i] matches WaitPhase::Waiting { remaining } ==> times[i]
                >= times[entered_by(phases, i)] + remaining,
            _ => true,
        }
}

/// Whether all the activity among the first `n` pieces of news lies back by the quiet period at
/// a time.
pub open spec fn was_quiet(
    news: Seq<WaitNews>,
    times: Seq<int>,
    quiet_period: int,
    n: int,
    at: int,
) -> bool {
    forall|i: int| 0 <= i < n && #[trigger] news[i] is Activity ==> at - times[i] >= quiet_period
}

/// When a wait ends with a batch, all the activity that was seen since it began lies back by the
/// quiet period at least.
pub proof fn batches_follow_quiet(
    phases: Seq<WaitPhase>,
    news: Seq<WaitNews>,
    times: Seq<int>,
    quiet_period: int,
    n: int,
)
    requires
        is_run(phases, news, quiet_period),
        keeps_time(phases, news, times),
        0 < n < phases.len(),
        phases[n] is Batch,
        phases[n - 1] !is Batch,
    ensures
        was_quiet(news, times, quiet_period, n, times[n - 1]),
{
    let m = n - 1;
    assert(is_next(phases[m], news[m], quiet_period, phases[m + 1]));
    activity_is_covered(phases, news, times, quiet_period, m);
    assert forall|i: int| 0 <= i < n && #[trigger] news[i] is Activity implies times[m] - times[i]
        >= quiet_period by {
        assert(i < m);
        assert(times[m - 1] <= times[m]);
    }
}

/// What a wait knows of the activity before it: a wait that is about to read the clock goes by a
/// time that no recent activity lies behind, the rest of a quiet period covers all activity once
/// it is over, and any other wait has only activity behind it that lies back by the quiet period.
spec fn covers_activity(
    phases: Seq<WaitPhase>,
    news: Seq<WaitNews>,
    times: Seq<int>,
    quiet_period: int,
    n: int,
) -> bool {
    match phases[n] {
        WaitPhase::Settling { last_activity } => forall|i: int|
            0 <= i < n && #[trigger] news[i] is Activity ==> times[i] <= last_activity || times[n
                - 1] - times[i] >= quiet_period,
        WaitPhase::Waiting { remaining } => {
            &&& 0 <= entered_by(phases, n) < n
            &&& was_quiet(
                news,
                times,
                quiet_period,
                n,
                times[entered_by(phases, n)] + remaining,
            )
        },
        _ => has_ended(phases[n]) || was_quiet(news, times, quiet_period, n, times[n - 1]),
    }
}

proof fn activity_is_covered(
    phases: Seq<WaitPhase>,
    news: Seq<WaitNews>,
    times: Seq<int>,
    quiet_period: int,
    n: int,
)
    requires
        is_run(phases, news, quiet_period),
        keeps_time(phases, news, times),
        0 <= n < phases.len(),
    ensures
        covers_activity(phases, news, times, quiet_period, n),
    decreases n,
{
    if n > 0 {
        let m = n - 1;
        assert(is_next(phases[m], news[m], quiet_period, phases[m + 1]));
        activity_is_covered(phases, news, times, quiet_period, m);
        assert(m > 0 ==> times[m - 1] <= times[m]);
        assert(forall|i: int| 0 <= i < n ==> #[trigger] times[i] <= times[m]);
        if let WaitPhase::Waiting { remaining } = phases[m] {
            let e = entered_by(phases, m);
            assert(news[m] is TimedOut ==> times[m] >= times[e] + remaining);
        }
        if has_ended(phases[m]) {
            assert(phases[n] == phases[m]);
        } else if news[m] is Activity {
            assert(phases[n] == (WaitPhase::Settling { last_activity: times[m] }));
        } else {
            assert forall|i: int| 0 <= i < n && #[trigger] news[i] is Activity implies i < m by {}
        }
    }
}

/// How long it has been quiet is the time since the last activity, and no time at all where the
/// clock shows a time before it.
pub proof fn quiet_is_time_since_activity(last_activity: int, now: int, later: int)
    requires
        last_activity <= now <= later,
    ensures
        quiet_since(last_activity, now) == now - last_activity,
        quiet_since(last_activity, later) - quiet_since(last_activity, now) == later - now,
        quiet_since(now, last_activity) == 0,
{
}

/// What each answer leads a wait to, exactly.
pub proof fn answers_lead_a_wait_on(
    inputs: Seq<Seq<u8>>,
    remaining: int,
    last_activity: int,
    now: int,
    quiet_period: int,
    next: WaitPhase,
)
    ensures
        inputs.len() > 0 ==> (is_next(
            WaitPhase::Listing,
            WaitNews::Listed { inputs },
            quiet_period,
            next,
        ) <==> next == (WaitPhase::Dating { existing: inputs })),
        is_next(
            WaitPhase::Listing,
            WaitNews::Listed { inputs: Seq::empty() },
            quiet_period,
            next,
        ) <==> next == WaitPhase::Idle,
        last_activity <= now && now - last_activity >= quiet_period ==> (is_next(
            WaitPhase::Settling { last_activity },
            WaitNews::ClockRead { now },
            quiet_period,
            next,
        ) <==> next == WaitPhase::Polling),
        last_activity <= now && now - last_activity < quiet_period ==> (is_next(
            WaitPhase::Settling { last_activity },
            WaitNews::ClockRead { now },
            quiet_period,
            next,
        ) <==> next == (WaitPhase::Waiting { remaining: quiet_period - (now - last_activity) })),
        now < last_activity && quiet_period > 0 ==> (is_next(
            WaitPhase::Settling { last_activity },
            WaitNews::ClockRead { now },
            quiet_period,
            next,
        ) <==> next == (WaitPhase::Waiting { remaining: quiet_period })),
        is_next(WaitPhase::Waiting { remaining }, WaitNews::TimedOut, quiet_period, next) <==> next
            == WaitPhase::Polling,
        is_next(WaitPhase::Polling, WaitNews::QueueEmpty, quiet_period, next) <==> next
            == WaitPhase::Closing,
        inputs.len() > 0 ==> (is_next(
            WaitPhase::Closing,
            WaitNews::Listed { inputs },
            quiet_period,
            next,
        ) <==> next == (WaitPhase::Batch { inputs })),
        is_next(
            WaitPhase::Closing,
            WaitNews::Listed { inputs: Seq::empty() },
            quiet_period,
            next,
        ) <==> next == WaitPhase::Listing,
{
}

/// Activity, a shutdown and a fault of the watcher mean the same to every wait that is not over,
/// and nothing to one that is.
pub proof fn interruptions_mean_the_same_everywhere(
    phase: WaitPhase,
    now: int,
    reason: Seq<char>,
    quiet_period: int,
    news: WaitNews,
    next: WaitPhase,
)
    ensures
        phase is Batch || phase is Shutdown || phase is Failed ==> (is_next(
            phase,
            news,
            quiet_period,
            next,
        ) <==> next == phase),
        !(phase is Batch || phase is Shutdown || phase is Failed) ==> {
            &&& is_next(phase, WaitNews::ShutdownRequested, quiet_period, next) <==> next
                == WaitPhase::Shutdown
            &&& is_next(phase, WaitNews::Activity { now }, quiet_period, next) <==> next == (
            WaitPhase::Settling { last_activity: now })
            &&& is_next(phase, WaitNews::ChannelClosed, quiet_period, next) <==> next == (
            WaitPhase::Failed { fault: WatchFault::ChannelClosed })
            &&& is_next(phase, WaitNews::WatcherFailed { reason }, quiet_period, next) <==> next
                == (WaitPhase::Failed { fault: WatchFault::WatcherFailed { reason } })
        },
{
}

/// An answer that nobody asked for changes nothing.
pub proof fn unasked_answers_change_no_wait(
    phase: WaitPhase,
    news: WaitNews,
    quiet_period: int,
    next: WaitPhase,
)
    requires
        is_next(phase, news, quiet_period, next),
        match news {
            WaitNews::Listed { .. } => phase !is Listing && phase !is Closing,
            WaitNews::MtimesRead { .. } => phase !is Dating,
            WaitNews::ClockRead { .. } => phase !is Settling,
            WaitNews::TimedOut => phase !is Waiting,
            WaitNews::QueueEmpty => phase !is Polling,
            _ => false,
        },
    ensures
        next == phase,
{
}

/// Clips are dated by the newest of their times, where there is a reading for each of them and
/// all could be read; by the first that could not, the wait fails; and readings of other clips
/// are not taken for an answer.
pub proof fn clips_are_dated_by_their_newest_time(
    existing: Seq<Seq<u8>>,
    readings: Seq<MtimeView>,
    quiet_period: int,
    next: WaitPhase,
)
    requires
        is_next(
            WaitPhase::Dating { existing },
            WaitNews::MtimesRead { readings },
            quiet_period,
            next,
        ),
        existing.len() > 0,
    ensures
        ({
            let complete = readings.len() == existing.len() && forall|i: int|
                0 <= i < existing.len() ==> match #[trigger] readings[i] {
                    MtimeView::Read { path, .. } => path == existing[i],
                    MtimeView::Unread { path, .. } => path == existing[i],
                };
            &&& !complete ==> next == (WaitPhase::Dating { existing })
            &&& complete && (forall|i: int| 0 <= i < readings.len() ==> #[trigger] readings[i] is Read)
                ==> (next matches WaitPhase::Settling { last_activity } && {
                &&& exists|i: int|
                    0 <= i < readings.len() && (#[trigger] readings[i] matches MtimeView::Read {
                        at,
                        ..
                    } && at == last_activity)
                &&& forall|i: int|
                    0 <= i < readings.len() ==> (#[trigger] readings[i] matches MtimeView::Read {
                        at,
                        ..
                    } && at <= last_activity)
            })
        }),
{
    if are_of(readings, existing) {
        assert forall|i: int| 0 <= i < existing.len() implies match #[trigger] readings[i] {
            MtimeView::Read { path, .. } => path == existing[i],
            MtimeView::Unread { path, .. } => path == existing[i],
        } by {
            assert(readings[i].clip() == existing[i]);
        }
        if forall|i: int| 0 <= i < readings.len() ==> #[trigger] readings[i] is Read {
            if let WaitPhase::Failed { fault } = next {
                let i = choose|i: int|
                    0 <= i < readings.len() && (#[trigger] readings[i]).time() == Err::<
                        int,
                        WatchFault,
                    >(fault) && all_read(readings.take(i));
                assert(readings[i] is Read);
            }
            if let WaitPhase::Settling { last_activity } = next {
                let k = choose|k: int|
                    0 <= k < readings.len() && (#[trigger] readings[k]).time() == Ok::<
                        int,
                        WatchFault,
                    >(last_activity);
                assert(readings[k] is Read);
                assert forall|i: int| 0 <= i < readings.len() implies (#[trigger] readings[i] matches MtimeView::Read { at, .. } && at <= last_activity) by {
                    assert(readings[i].time() is Ok);
                }
            }
        }
    } else {
        let complete = readings.len() == existing.len() && forall|i: int|
            0 <= i < existing.len() ==> match #[trigger] readings[i] {
                MtimeView::Read { path, .. } => path == existing[i],
                MtimeView::Unread { path, .. } => path == existing[i],
            };
        if complete {
            assert forall|i: int| 0 <= i < existing.len() implies (#[trigger] readings[i]).clip()
                == existing[i] by {
                assert(readings[i] is Read || readings[i] is Unread);
            }
        }
    }
}

/// Where some clip's time could not be read, the wait fails with the first such clip and the
/// reason given for it.
pub proof fn unread_clips_fail_the_wait(
    existing: Seq<Seq<u8>>,
    readings: Seq<MtimeView>,
    k: int,
    reason: Seq<char>,
    quiet_period: int,
    next: WaitPhase,
)
    requires
        is_next(
            WaitPhase::Dating { existing },
            WaitNews::MtimesRead { readings },
            quiet_period,
            next,
        ),
        readings.len() == existing.len(),
        forall|i: int|
            0 <= i < existing.len() ==> match #[trigger] readings[i] {
                MtimeView::Read { path, .. } => path == existing[i],
                MtimeView::Unread { path, .. } => path == existing[i],
            },
        0 <= k < readings.len(),
        forall|i: int| 0 <= i < k ==> #[trigger] readings[i] is Read,
        readings[k] == (MtimeView::Unread { path: existing[k], reason }),
    ensures
        next == (WaitPhase::Failed {
            fault: WatchFault::MtimeUnread { path: existing[k], reason },
        }),
{
    assert forall|i: int| 0 <= i < existing.len() implies (#[trigger] readings[i]).clip()
        == existing[i] by {
        assert(readings[i] is Read || readings[i] is Unread);
    }
    assert(readings[k].time() is Err);
    if let WaitPhase::Failed { fault } = next {
        let i = choose|i: int|
            0 <= i < readings.len() && (#[trigger] readings[i]).time() == Err::<int, WatchFault>(
                fault,
            ) && all_read(readings.take(i));
        if i < k {
            assert(readings[i] is Read);
        } else if k < i {
            assert(readings.take(i)[k].time() is Ok);
        }
    }
}

/// A wait gets on: clips that have not settled yet are waited for, for what is left of the quiet
/// period and no longer, and are then taken, where nothing happens meanwhile and nothing is
/// queued. However long the rest is, the end of the timer is the end of the wait.
pub proof fn unsettled_clips_are_taken_after_the_rest(
    phases: Seq<WaitPhase>,
    existing: Seq<Seq<u8>>,
    readings: Seq<MtimeView>,
    newest: int,
    now: int,
    inputs: Seq<Seq<u8>>,
    quiet_period: int,
)
    requires
        existing.len() > 0,
        inputs.len() > 0,
        are_of(readings, existing),
        is_newest(readings, Ok(newest)),
        newest <= now < newest + quiet_period,
        is_run(
            phases,
            seq![
                WaitNews::Listed { inputs: existing },
                WaitNews::MtimesRead { readings },
                WaitNews::ClockRead { now },
                WaitNews::TimedOut,
                WaitNews::QueueEmpty,
                WaitNews::Listed { inputs },
            ],
            quiet_period,
        ),
    ensures
        phases[3] == (WaitPhase::Waiting { remaining: newest + quiet_period - now }),
        phases[6] == (WaitPhase::Batch { inputs }),
{
    let news = seq![
        WaitNews::Listed { inputs: existing },
        WaitNews::MtimesRead { readings },
        WaitNews::ClockRead { now },
        WaitNews::TimedOut,
        WaitNews::QueueEmpty,
        WaitNews::Listed { inputs },
    ];
    assert(is_next(phases[0], news[0], quiet_period, phases[1]));
    assert(is_next(phases[1], news[1], quiet_period, phases[2]));
    assert(is_next(phases[2], news[2], quiet_period, phases[3]));
    assert(is_next(phases[3], news[3], quiet_period, phases[4]));
    assert(is_next(phases[4], news[4], quiet_period, phases[5]));
    assert(is_next(phases[5], news[5], quiet_period, phases[6]));
    match phases[2] {
        WaitPhase::Settling { last_activity } => {
            newest_is_unique(readings, Ok(last_activity), Ok(newest));
        },
        WaitPhase::Failed { fault } => {
            newest_is_unique(readings, Err(fault), Ok(newest));
        },
        _ => {},
    }
}

/// A wait gets on after activity too, at whatever point it comes: once the directory has been
/// quiet for the whole period behind it, its clips are taken.
pub proof fn active_directories_are_taken_after_the_period(
    phase: WaitPhase,
    phases: Seq<WaitPhase>,
    active_at: int,
    now: int,
    inputs: Seq<Seq<u8>>,
    quiet_period: int,
)
    requires
        !(phase is Batch || phase is Shutdown || phase is Failed),
        active_at <= now < active_at + quiet_period,
        inputs.len() > 0,
        phases.len() == 5,
        is_next(phase, WaitNews::Activity { now: active_at }, quiet_period, phases[0]),
        is_next(phases[0], WaitNews::ClockRead { now }, quiet_period, phases[1]),
        is_next(phases[1], WaitNews::TimedOut, quiet_period, phases[2]),
        is_next(phases[2], WaitNews::QueueEmpty, quiet_period, phases[3]),
        is_next(phases[3], WaitNews::Listed { inputs }, quiet_period, phases[4]),
    ensures
        phases[1] == (WaitPhase::Waiting { remaining: active_at + quiet_period - now }),
        phases[4] == (WaitPhase::Batch { inputs }),
{
}

/// What a wait needs next is settled by what it needed and what happened.
pub proof fn waits_go_one_way(
    phase: WaitPhase,
    news: WaitNews,
    quiet_period: int,
    a: WaitPhase,
    b: WaitPhase,
)
    requires
        is_next(phase, news, quiet_period, a),
        is_next(phase, news, quiet_period, b),
    ensures
        a == b,
{
    if let (WaitPhase::Dating { existing }, WaitNews::MtimesRead { readings }) = (phase, news) {
        if are_of(readings, existing) {
            let x = match a {
                WaitPhase::Settling { last_activity } => Ok(last_activity),
                WaitPhase::Failed { fault } => Err(fault),
                _ => Ok(0),
            };
            let y = match b {
                WaitPhase::Settling { last_activity } => Ok(last_activity),
                WaitPhase::Failed { fault } => Err(fault),
                _ => Ok(0),
            };
            newest_is_unique(readings, x, y);
        }
    }
}

/// The views of a wait hold what they are views of.
pub proof fn wait_views_are_faithful(reading: MtimeReading, state: WaitState, event: WaitEvent)
    ensures
        match reading {
            MtimeReading::Read { path, at } => reading@ == (MtimeView::Read {
                path: path@,
                at: at as int,
            }),
            MtimeReading::Unread { path, reason } => reading@ == (MtimeView::Unread {
                path: path@,
                reason: reason@,
            }),
        },
        match state {
            WaitState::Listing => state@ == WaitPhase::Listing,
            WaitState::Idle => state@ == WaitPhase::Idle,
            WaitState::Dating { existing } => state@ == (WaitPhase::Dating {
                existing: paths::path_bytes(existing@),
            }),
            WaitState::Settling { last_activity } => state@ == (WaitPhase::Settling {
                last_activity: last_activity as int,
            }),
            WaitState::Waiting { remaining } => state@ == (WaitPhase::Waiting {
                remaining: remaining as int,
            }),
            WaitState::Polling => state@ == WaitPhase::Polling,
            WaitState::Closing => state@ == WaitPhase::Closing,
            WaitState::Finished { outcome: WaitOutcome::Batch(inputs) } => state@
                == (WaitPhase::Batch { inputs: paths::path_bytes(inputs@) }),
            WaitState::Finished { outcome: WaitOutcome::Shutdown } => state@ == WaitPhase::Shutdown,
            WaitState::Failed { error } => state@ == (WaitPhase::Failed { fault: error@ }),
        },
        match event {
            WaitEvent::Listed { inputs } => event@ == (WaitNews::Listed {
                inputs: paths::path_bytes(inputs@),
            }),
            WaitEvent::MtimesRead { readings } => event@ == (WaitNews::MtimesRead {
                readings: mtime_views(readings@),
            }),
            WaitEvent::ClockRead { now } => event@ == (WaitNews::ClockRead { now: now as int }),
            WaitEvent::Activity { now } => event@ == (WaitNews::Activity { now: now as int }),
            WaitEvent::TimedOut => event@ == WaitNews::TimedOut,
            WaitEvent::QueueEmpty => event@ == WaitNews::QueueEmpty,
            WaitEvent::ShutdownRequested => event@ == WaitNews::ShutdownRequested,
            WaitEvent::ChannelClosed => event@ == WaitNews::ChannelClosed,
            WaitEvent::WatcherFailed { reason } => event@ == (WaitNews::WatcherFailed {
                reason: reason@,
            }),
        },
{
}

/// Readings are viewed one by one.
pub proof fn readings_are_viewed_one_by_one(readings: Seq<MtimeReading>, i: int)
    ensures
        mtime_views(readings).len() == readings.len(),
        0 <= i < readings.len() ==> mtime_views(readings)[i] == readings[i]@,
{
}

/// The search for the newest time finds a time that was read and that none lies behind; the fault
/// of the first clip that has no time; or that there are no clips.
pub proof fn newest_times_are_not_surpassed(
    readings: Seq<MtimeView>,
    found: Result<int, WatchFault>,
    i: int,
)
    requires
        is_newest(readings, found),
    ensures
        readings.len() == 0 <==> found == Err::<int, WatchFault>(WatchFault::NoInputFiles),
        found matches Ok(newest) ==> (0 <= i < readings.len() ==> (
        readings[i] matches MtimeView::Read { at, .. } && at <= newest)),
        found matches Ok(newest) ==> exists|k: int|
            0 <= k < readings.len() && (#[trigger] readings[k] matches MtimeView::Read { at, .. }
                && at == newest),
        found matches Err(WatchFault::MtimeUnread { path, reason }) ==> exists|k: int|
            0 <= k < readings.len() && #[trigger] readings[k] == (MtimeView::Unread { path, reason })
                && forall|m: int| 0 <= m < k ==> #[trigger] readings[m] is Read,
        readings.len() > 0 && found is Err ==> found->Err_0 is MtimeUnread,
{
    if readings.len() > 0 {
        if 0 <= i < readings.len() && found is Ok {
            assert(readings[i].time() is Ok);
        }
        if let Ok(newest) = found {
            let k = choose|k: int|
                0 <= k < readings.len() && (#[trigger] readings[k]).time() == found;
            assert(readings[k] is Read);
        }
        if let Err(fault) = found {
            let k = choose|k: int|
                0 <= k < readings.len() && (#[trigger] readings[k]).time() == found && all_read(
                    readings.take(k),
                );
            assert forall|m: int| 0 <= m < k implies #[trigger] readings[m] is Read by {
                assert(readings.take(k)[m].time() is Ok);
            }
            assert(readings[k] is Unread);
        }
    }
}

/// A wait is over with a batch, a shutdown or a failure, and at no other point.
pub proof fn waits_end_in_three_ways(phase: WaitPhase)
    ensures
        has_ended(phase) <==> match phase {
            WaitPhase::Batch { .. } => true,
            WaitPhase::Shutdown => true,
            WaitPhase::Failed { .. } => true,
            _ => false,
        },
{
}

} // verus!
