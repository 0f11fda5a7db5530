use motovlog::errors::MoveError;
use motovlog::moving::{move_batch, Move, MoveEvent, MoveState};
use motovlog::paths::UnixPath;

fn path(text: &str) -> UnixPath {
    UnixPath::from_text(text)
}

fn batch() -> Vec<UnixPath> {
    vec![path("in/a.mp4"), path("in/b.mp4")]
}

fn start(inputs: &[UnixPath]) -> MoveState {
    MoveState::CreateDir { plan: move_batch(inputs, &path("p")) }
}

/// Runs a move, and gives the targets of the renames that were made.
fn run(inputs: &[UnixPath], events: Vec<MoveEvent>) -> (Vec<String>, MoveState) {
    let mut state = start(inputs);
    let mut made = Vec::new();
    for event in events {
        if let (MoveState::Rename { file, .. }, MoveEvent::Renamed) = (&state, &event) {
            made.push(file.to.display());
        }
        state = state.step(event);
    }
    (made, state)
}

fn full() -> String {
    "full".to_string()
}

fn report(state: &MoveState) -> String {
    match state {
        MoveState::Failed { dest_dir, error } => {
            assert_eq!(*dest_dir, path("p"));
            error.message()
        }
        other => panic!("{other:?}"),
    }
}

#[test]
fn clips_keep_their_names() {
    let plan = move_batch(&batch(), &path("processed/"));
    assert_eq!(
        plan.moves,
        vec![
            Move { from: path("in/a.mp4"), to: path("processed/a.mp4") },
            Move { from: path("in/b.mp4"), to: path("processed/b.mp4") },
        ]
    );
    assert_eq!(plan.nameless, None);
}

#[test]
fn clips_are_moved_one_after_the_other() {
    let (made, state) = run(
        &batch(),
        vec![MoveEvent::DirCreated, MoveEvent::Renamed, MoveEvent::Renamed],
    );
    assert_eq!(made, ["p/a.mp4", "p/b.mp4"]);
    assert_eq!(state, MoveState::Moved);
    assert!(state.is_over());
    assert_eq!(run(&[], vec![MoveEvent::DirCreated]).1, MoveState::Moved);
}

#[test]
fn nothing_is_moved_behind_a_nameless_path() {
    let inputs = [path("in/a.mp4"), path("in/.."), path("in/b.mp4")];
    let plan = move_batch(&inputs, &path("p"));
    assert_eq!(
        plan.moves,
        vec![Move { from: path("in/a.mp4"), to: path("p/a.mp4") }]
    );
    let (made, state) = run(
        &inputs,
        vec![MoveEvent::DirCreated, MoveEvent::Renamed, MoveEvent::Renamed],
    );
    assert_eq!(made, ["p/a.mp4"]);
    assert_eq!(report(&state), "input path has no file name: in/..");
}

#[test]
fn nothing_is_moved_without_a_directory() {
    let (made, state) = run(
        &batch(),
        vec![MoveEvent::DirNotCreated { reason: full() }, MoveEvent::Renamed],
    );
    assert!(made.is_empty());
    assert_eq!(report(&state), "failed to create p: full");
}

#[test]
fn first_failed_rename_stops_the_move() {
    let (made, state) = run(
        &batch(),
        vec![
            MoveEvent::DirCreated,
            MoveEvent::NotRenamed { reason: full() },
            MoveEvent::Renamed,
        ],
    );
    assert!(made.is_empty());
    assert_eq!(report(&state), "failed to move in/a.mp4 to p: full");
    let (made, state) = run(
        &batch(),
        vec![
            MoveEvent::DirCreated,
            MoveEvent::Renamed,
            MoveEvent::NotRenamed { reason: full() },
        ],
    );
    assert_eq!(made, ["p/a.mp4"]);
    assert!(state.is_over());
    assert_eq!(
        state,
        MoveState::Failed {
            dest_dir: path("p"),
            error: MoveError::NotRenamed {
                path: path("in/b.mp4"),
                dest_dir: path("p"),
                reason: full(),
            },
        }
    );
}

#[test]
fn moves_wait_for_their_answers() {
    assert_eq!(start(&batch()).step(MoveEvent::Renamed), start(&batch()));
    assert!(!start(&batch()).is_over());
    assert!(!start(&batch()).step(MoveEvent::DirCreated).is_over());
}
