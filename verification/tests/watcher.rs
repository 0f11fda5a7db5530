use motovlog::errors::WatchError;
use motovlog::paths::UnixPath;
use motovlog::watcher::{
    elapsed, listed, newest_mtime, MtimeReading, WaitEvent, WaitOutcome, WaitState,
};

const SECOND: i128 = 1_000_000_000;
const QUIET: u128 = 300_000_000_000;

fn clip() -> Vec<UnixPath> {
    vec![UnixPath::from_text("in/DJI_20250102.mp4")]
}

fn paths(names: &[&str]) -> Vec<UnixPath> {
    names.iter().map(|name| UnixPath::from_text(name)).collect()
}

fn read(name: &str, at: i128) -> MtimeReading {
    MtimeReading::Read { path: UnixPath::from_text(name), at }
}

fn unread(name: &str) -> MtimeReading {
    MtimeReading::Unread { path: UnixPath::from_text(name), reason: "gone".to_string() }
}

fn unended() -> Vec<WaitState> {
    vec![
        WaitState::Listing,
        WaitState::Idle,
        WaitState::Dating { existing: clip() },
        WaitState::Settling { last_activity: 3 },
        WaitState::Waiting { remaining: 5 },
        WaitState::Polling,
        WaitState::Closing,
    ]
}

#[test]
fn newest_time_is_the_greatest() {
    assert_eq!(newest_mtime(&[read("a", 5), read("b", 9), read("c", -3)]), Ok(9));
    assert_eq!(newest_mtime(&[read("a", -3)]), Ok(-3));
}

#[test]
fn first_unread_time_is_reported() {
    let error = newest_mtime(&[read("x", 5), unread("a"), unread("b")]).unwrap_err();
    assert_eq!(error.message(), "failed to read mtime of a: gone");
    let error = newest_mtime(&[]).unwrap_err();
    assert_eq!(error, WatchError::NoInputFiles);
    assert_eq!(error.message(), "no input files");
}

#[test]
fn directories_are_listed_by_their_clips() {
    assert_eq!(
        listed(paths(&["in/b.mp4", "in/notes.txt", "in/a.MP4"])),
        WaitEvent::Listed { inputs: paths(&["in/a.MP4", "in/b.mp4"]) }
    );
}

#[test]
fn elapsed_time_is_never_negative() {
    assert_eq!(elapsed(5, 9), 4);
    assert_eq!(elapsed(9, 5), 0);
    assert_eq!(elapsed(-4, 3), 7);
    assert_eq!(elapsed(-9, -5), 4);
    assert_eq!(elapsed(i128::MIN, i128::MAX), u128::MAX);
    assert_eq!(elapsed(i128::MAX, i128::MIN), 0);
}

#[test]
fn empty_directories_are_watched_without_a_timer() {
    let state = WaitState::Listing.step(WaitEvent::Listed { inputs: Vec::new() }, QUIET);
    assert_eq!(state, WaitState::Idle);
    let state = state.step(WaitEvent::TimedOut, QUIET);
    assert_eq!(state, WaitState::Idle);
    let state = state.step(WaitEvent::Activity { now: 7 }, QUIET);
    assert_eq!(state, WaitState::Settling { last_activity: 7 });
}

#[test]
fn existing_clips_are_dated_by_their_newest_change() {
    let clips = || paths(&["in/a.mp4", "in/b.mp4"]);
    let state = WaitState::Listing.step(WaitEvent::Listed { inputs: clips() }, QUIET);
    assert_eq!(state, WaitState::Dating { existing: clips() });
    for readings in [
        vec![read("in/a.mp4", 3)],
        vec![read("in/b.mp4", 3), read("in/a.mp4", 8)],
    ] {
        let state = WaitState::Dating { existing: clips() };
        assert_eq!(
            state.step(WaitEvent::MtimesRead { readings }, QUIET),
            WaitState::Dating { existing: clips() }
        );
    }
    let state = state.step(
        WaitEvent::MtimesRead { readings: vec![read("in/a.mp4", 8), read("in/b.mp4", 3)] },
        QUIET,
    );
    assert_eq!(state, WaitState::Settling { last_activity: 8 });
}

#[test]
fn unread_times_fail_the_wait() {
    let state = WaitState::Dating { existing: clip() }.step(
        WaitEvent::MtimesRead { readings: vec![unread("in/DJI_20250102.mp4")] },
        QUIET,
    );
    match &state {
        WaitState::Failed { error } => assert_eq!(
            error.message(),
            "failed to read mtime of in/DJI_20250102.mp4: gone"
        ),
        other => panic!("{other:?}"),
    }
}

#[test]
fn settled_clips_are_not_waited_for() {
    let state = WaitState::Settling { last_activity: 0 };
    assert_eq!(
        state.step(WaitEvent::ClockRead { now: 300 * SECOND }, QUIET),
        WaitState::Polling
    );
    let mut state = WaitState::Listing;
    for event in [
        WaitEvent::Listed { inputs: clip() },
        WaitEvent::MtimesRead { readings: vec![read("in/DJI_20250102.mp4", 0)] },
        WaitEvent::ClockRead { now: 300 * SECOND },
        WaitEvent::QueueEmpty,
        WaitEvent::Listed { inputs: clip() },
    ] {
        state = state.step(event, QUIET);
    }
    assert_eq!(
        state,
        WaitState::Finished { outcome: WaitOutcome::Batch(clip()) }
    );
}

#[test]
fn queued_activity_holds_settled_clips_back() {
    let mut state = WaitState::Listing;
    for event in [
        WaitEvent::Listed { inputs: clip() },
        WaitEvent::MtimesRead { readings: vec![read("in/DJI_20250102.mp4", 0)] },
        WaitEvent::ClockRead { now: 300 * SECOND },
        WaitEvent::Activity { now: 300 * SECOND },
        WaitEvent::ClockRead { now: 300 * SECOND },
    ] {
        state = state.step(event, QUIET);
    }
    assert_eq!(state, WaitState::Waiting { remaining: QUIET });
}

#[test]
fn rest_of_the_period_is_waited_for() {
    let state = WaitState::Settling { last_activity: 0 };
    let state = state.step(WaitEvent::ClockRead { now: 299 * SECOND }, QUIET);
    assert_eq!(state, WaitState::Waiting { remaining: 1_000_000_000 });
    let state = state.step(WaitEvent::TimedOut, QUIET);
    assert_eq!(state, WaitState::Polling);
    assert_eq!(state.step(WaitEvent::QueueEmpty, QUIET), WaitState::Closing);
}

#[test]
fn clock_before_the_last_activity_waits_the_whole_period() {
    let state = WaitState::Settling { last_activity: 10 };
    assert_eq!(
        state.step(WaitEvent::ClockRead { now: 4 }, QUIET),
        WaitState::Waiting { remaining: QUIET }
    );
}

#[test]
fn activity_restarts_the_period() {
    for state in unended() {
        let state = state.step(WaitEvent::Activity { now: 50 }, QUIET);
        assert_eq!(state, WaitState::Settling { last_activity: 50 });
        assert_eq!(
            state.step(WaitEvent::ClockRead { now: 50 }, QUIET),
            WaitState::Waiting { remaining: QUIET }
        );
    }
}

#[test]
fn quiet_directories_yield_a_batch() {
    assert_eq!(
        WaitState::Closing.step(WaitEvent::Listed { inputs: clip() }, QUIET),
        WaitState::Finished { outcome: WaitOutcome::Batch(clip()) }
    );
}

#[test]
fn vanished_clips_start_the_wait_anew() {
    assert_eq!(
        WaitState::Closing.step(WaitEvent::Listed { inputs: Vec::new() }, QUIET),
        WaitState::Listing
    );
}

#[test]
fn shutdown_ends_the_wait() {
    for state in unended() {
        assert!(!state.is_over());
        let state = state.step(WaitEvent::ShutdownRequested, QUIET);
        assert!(state.is_over());
        assert_eq!(state, WaitState::Finished { outcome: WaitOutcome::Shutdown });
    }
}

#[test]
fn ended_waits_stay_as_they_are() {
    let taken = || WaitState::Finished { outcome: WaitOutcome::Batch(clip()) };
    assert_eq!(taken().step(WaitEvent::ShutdownRequested, QUIET), taken());
    assert_eq!(taken().step(WaitEvent::Activity { now: 1 }, QUIET), taken());
    let failed = || WaitState::Failed { error: WatchError::ChannelClosed };
    assert_eq!(failed().step(WaitEvent::ShutdownRequested, QUIET), failed());
}

#[test]
fn watcher_faults_fail_the_wait() {
    let closed = WaitState::Idle.step(WaitEvent::ChannelClosed, QUIET);
    match &closed {
        WaitState::Failed { error } => {
            assert_eq!(error.message(), "filesystem watcher channel closed")
        }
        other => panic!("{other:?}"),
    }
    let failed = WaitState::Waiting { remaining: 5 }
        .step(WaitEvent::WatcherFailed { reason: "lost".to_string() }, QUIET);
    match &failed {
        WaitState::Failed { error } => {
            assert_eq!(error.message(), "filesystem watcher error: lost")
        }
        other => panic!("{other:?}"),
    }
}

#[test]
fn session_is_taken_after_the_quiet_period() {
    let mut state = WaitState::Listing.step(WaitEvent::Listed { inputs: Vec::new() }, QUIET);
    for now in [0, 100 * SECOND, 399 * SECOND] {
        state = state.step(WaitEvent::Activity { now }, QUIET);
        state = state.step(WaitEvent::ClockRead { now }, QUIET);
        assert_eq!(state, WaitState::Waiting { remaining: QUIET });
    }
    state = state.step(WaitEvent::TimedOut, QUIET);
    state = state.step(WaitEvent::QueueEmpty, QUIET);
    state = state.step(WaitEvent::Listed { inputs: clip() }, QUIET);
    assert_eq!(
        state,
        WaitState::Finished { outcome: WaitOutcome::Batch(clip()) }
    );
}
