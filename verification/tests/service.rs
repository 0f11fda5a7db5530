use motovlog::errors::PipelineError;
use motovlog::moving::{move_batch, MoveEvent, MoveState};
use motovlog::paths::UnixPath;
use motovlog::pipeline::BatchOutcome;
use motovlog::service::{Archive, MoveReason, ServiceEvent, ServiceState};
use motovlog::stamp::{failure_stamp, LocalTime};
use motovlog::watcher::WaitOutcome;

fn path(text: &str) -> UnixPath {
    UnixPath::from_text(text)
}

fn archive() -> Archive {
    Archive { processed_dir: path("processed"), failed_dir: path("failed") }
}

fn batch() -> Vec<UnixPath> {
    vec![path("in/a.mp4"), path("in/b.mp4")]
}

fn processing() -> ServiceState {
    ServiceState::Waiting.step(
        &archive(),
        ServiceEvent::WaitEnded { outcome: WaitOutcome::Batch(batch()) },
    )
}

#[test]
fn encoded_batches_are_archived() {
    for (outcome, expected) in [
        (BatchOutcome::Uploaded { date: "20250102".to_string() }, MoveReason::Uploaded),
        (BatchOutcome::UploadFailed { date: "20250102".to_string() }, MoveReason::UploadFailed),
    ] {
        let state = processing().step(&archive(), ServiceEvent::BatchEnded { result: Ok(outcome) });
        match &state {
            ServiceState::Moving { reason, files: MoveState::CreateDir { plan } } => {
                assert_eq!(*reason, expected);
                assert_eq!(plan.dest_dir, path("processed"));
                assert_eq!(plan.moves[0].to, path("processed/a.mp4"));
                assert_eq!(plan.moves.len(), 2);
            }
            other => panic!("{other:?}"),
        }
    }
}

#[test]
fn failed_batches_get_a_stamped_directory() {
    let state = processing().step(
        &archive(),
        ServiceEvent::BatchEnded { result: Err(PipelineError::NoInputFiles) },
    );
    assert_eq!(state, ServiceState::Stamping { batch: batch() });
    let state = state.step(
        &archive(),
        ServiceEvent::Stamped { stamp: "20250102T030405".to_string() },
    );
    match &state {
        ServiceState::Moving { reason, files: MoveState::CreateDir { plan } } => {
            assert_eq!(*reason, MoveReason::BatchFailed);
            assert_eq!(plan.dest_dir, path("failed/20250102T030405"));
            assert_eq!(plan.moves[1].to, path("failed/20250102T030405/b.mp4"));
        }
        other => panic!("{other:?}"),
    }
}

#[test]
fn failed_moves_are_reported_by_their_reason() {
    assert_eq!(
        MoveReason::Uploaded.failure_report(&path("processed"), "full"),
        "batch processed but failed to archive clips to processed: full"
    );
    assert_eq!(
        MoveReason::UploadFailed.failure_report(&path("processed"), "full"),
        "additionally failed to archive clips to processed: full"
    );
    assert_eq!(
        MoveReason::BatchFailed.failure_report(&path("failed/x"), "full"),
        "additionally failed to move clips to failed/x: full"
    );
}

#[test]
fn failed_batches_lie_below_the_time_of_the_failure() {
    let stamp = failure_stamp(at(2025, 1, 2, 3, 4, 5)).unwrap();
    let state = ServiceState::Stamping { batch: batch() }
        .step(&archive(), ServiceEvent::Stamped { stamp });
    match &state {
        ServiceState::Moving { files: MoveState::CreateDir { plan }, .. } => {
            assert_eq!(plan.moves.len(), 2);
            assert_eq!(plan.moves[0].to, path("failed/20250102T030405/a.mp4"));
            assert_eq!(plan.moves[1].to, path("failed/20250102T030405/b.mp4"));
        }
        other => panic!("{other:?}"),
    }
}

#[test]
fn events_are_drained_after_a_move() {
    for last in [MoveEvent::Renamed, MoveEvent::NotRenamed { reason: "full".to_string() }] {
        let mut state = ServiceState::Moving {
            reason: MoveReason::Uploaded,
            files: MoveState::CreateDir { plan: move_batch(&batch(), &path("p")) },
        };
        for event in [MoveEvent::DirCreated, MoveEvent::Renamed, last] {
            state = state.step(&archive(), ServiceEvent::MoveEnded);
            assert!(matches!(state, ServiceState::Moving { .. }));
            state = state.step(&archive(), ServiceEvent::MoveStepped { event });
        }
        let state = state.step(&archive(), ServiceEvent::MoveEnded);
        assert_eq!(state, ServiceState::Draining);
        assert_eq!(
            state.step(&archive(), ServiceEvent::Drained),
            ServiceState::Waiting
        );
    }
}

#[test]
fn service_stops_between_batches() {
    let shutdown = || ServiceEvent::WaitEnded { outcome: WaitOutcome::Shutdown };
    assert_eq!(
        ServiceState::Waiting.step(&archive(), shutdown()),
        ServiceState::Stopped
    );
    assert_eq!(
        processing().step(&archive(), shutdown()),
        ServiceState::Processing { batch: batch() }
    );
}

fn at(year: i32, month: u32, day: u32, hour: u32, minute: u32, second: u32) -> LocalTime {
    LocalTime { year, month, day, hour, minute, second }
}

#[test]
fn stamps_are_padded() {
    assert_eq!(
        failure_stamp(at(2025, 1, 2, 3, 4, 5)),
        Some("20250102T030405".to_string())
    );
    assert_eq!(
        failure_stamp(at(987, 12, 31, 23, 59, 59)),
        Some("09871231T235959".to_string())
    );
    assert_eq!(
        failure_stamp(at(0, 10, 20, 0, 0, 0)),
        Some("00001020T000000".to_string())
    );
}

#[test]
fn unusual_years_are_signed() {
    assert_eq!(
        failure_stamp(at(12345, 1, 2, 3, 4, 5)),
        Some("+123450102T030405".to_string())
    );
    assert_eq!(
        failure_stamp(at(-5, 1, 2, 3, 4, 5)),
        Some("-00050102T030405".to_string())
    );
    assert_eq!(
        failure_stamp(at(-262143, 1, 1, 0, 0, 0)),
        Some("-2621430101T000000".to_string())
    );
    assert_eq!(
        failure_stamp(at(262142, 12, 31, 0, 0, 0)),
        Some("+2621421231T000000".to_string())
    );
}

#[test]
fn impossible_times_have_no_stamp() {
    assert_eq!(failure_stamp(at(2025, 2, 29, 0, 0, 0)), None);
    assert!(failure_stamp(at(2024, 2, 29, 0, 0, 0)).is_some());
    assert_eq!(failure_stamp(at(1900, 2, 29, 0, 0, 0)), None);
    assert!(failure_stamp(at(2000, 2, 29, 0, 0, 0)).is_some());
    assert_eq!(failure_stamp(at(2025, 4, 31, 0, 0, 0)), None);
    assert_eq!(failure_stamp(at(2025, 13, 1, 0, 0, 0)), None);
    assert_eq!(failure_stamp(at(2025, 0, 1, 0, 0, 0)), None);
    assert_eq!(failure_stamp(at(2025, 1, 0, 0, 0, 0)), None);
    assert_eq!(failure_stamp(at(2025, 1, 1, 24, 0, 0)), None);
    assert_eq!(failure_stamp(at(2025, 1, 1, 0, 60, 0)), None);
    assert_eq!(failure_stamp(at(2025, 1, 1, 0, 0, 60)), None);
    assert_eq!(failure_stamp(at(262143, 1, 1, 0, 0, 0)), None);
    assert_eq!(failure_stamp(at(-262144, 1, 1, 0, 0, 0)), None);
}
