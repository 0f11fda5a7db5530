use motovlog::encode::FfmpegRun;
use motovlog::errors::PipelineError;
use motovlog::gpu::GpuArch;
use motovlog::paths::UnixPath;
use motovlog::pipeline::{output_path, process_batch, BatchEvent, BatchOutcome, BatchState};
use motovlog::publish::{playlist_entry, video_title, video_upload};

fn path(text: &str) -> UnixPath {
    UnixPath::from_text(text)
}

fn start() -> BatchState {
    process_batch(
        &[path("in/DJI_20250103000000.mp4"), path("in/DJI_20250102000000.mp4")],
        &path("output"),
        &path("luts/x.cube"),
        GpuArch::TuringOrNewer,
    )
}

fn created() -> BatchEvent {
    BatchEvent::ListCreated { path: path("/tmp/list") }
}

fn resolved(absolute: &str) -> BatchEvent {
    BatchEvent::InputResolved { absolute: path(absolute) }
}

fn written() -> BatchState {
    start()
        .step(created())
        .step(resolved("/in/DJI_20250103000000.mp4"))
        .step(BatchEvent::EntryWritten)
        .step(resolved("/in/DJI_20250102000000.mp4"))
        .step(BatchEvent::EntryWritten)
}

fn ran(success: bool) -> BatchEvent {
    BatchEvent::Encoded {
        run: FfmpegRun::Streamed { success, status: "exit status: 1".to_string() },
    }
}

fn encoded() -> BatchState {
    written().step(ran(true))
}

#[test]
fn output_is_named_by_date() {
    assert_eq!(
        output_path(&path("output"), "20250102"),
        path("output/Motovlog - 20250102.mp4")
    );
    assert_eq!(
        output_path(&path("output/"), "20250102"),
        path("output/Motovlog - 20250102.mp4")
    );
    assert_eq!(output_path(&path(""), "x"), path("Motovlog - x.mp4"));
}

#[test]
fn output_lies_directly_in_the_directory() {
    let output = output_path(&path("a/b/"), "20250102");
    assert_eq!(
        output.file_name(),
        Some(b"Motovlog - 20250102.mp4".to_vec())
    );
}

#[test]
fn dates_have_files_of_their_own() {
    assert_ne!(
        output_path(&path("output"), "20250102"),
        output_path(&path("output"), "20250103")
    );
}

#[test]
fn videos_are_private() {
    let video = video_upload("20250102");
    assert_eq!(video.title, "Motovlog - 20250102");
    assert_eq!(video.title, video_title("20250102"));
    assert_eq!(video.category_id, "2");
    assert_eq!(video.privacy_status, "private");
    assert!(!video.contains_synthetic_media);
    assert_eq!(video.mime_type, "video/mp4");
}

#[test]
fn playlist_entries_name_the_video() {
    let entry = playlist_entry("abc", "PL1");
    assert_eq!(entry.playlist_id, "PL1");
    assert_eq!(entry.kind, "youtube#video");
    assert_eq!(entry.video_id, "abc");
}

#[test]
fn batch_runs_through_the_pipeline() {
    let state = start();
    match &state {
        BatchState::CreateList { job } => {
            assert_eq!(job.inputs.len(), 2);
            assert_eq!(job.date, "20250102");
            assert_eq!(job.output, path("output/Motovlog - 20250102.mp4"));
            assert_eq!(job.gpu_arch, GpuArch::TuringOrNewer);
        }
        other => panic!("{other:?}"),
    }
    let state = state.step(created());
    match &state {
        BatchState::ResolveInput { list, input, rest, .. } => {
            assert_eq!(*list, path("/tmp/list"));
            assert_eq!(*input, path("in/DJI_20250103000000.mp4"));
            assert_eq!(*rest, vec![path("in/DJI_20250102000000.mp4")]);
        }
        other => panic!("{other:?}"),
    }
    let state = state.step(resolved("/in/it's.mp4"));
    match &state {
        BatchState::WriteEntry { list, line, rest, .. } => {
            assert_eq!(*list, path("/tmp/list"));
            assert_eq!(line, "file '/in/it'\\''s.mp4'\n");
            assert_eq!(*rest, vec![path("in/DJI_20250102000000.mp4")]);
        }
        other => panic!("{other:?}"),
    }
    let state = state.step(BatchEvent::EntryWritten);
    match &state {
        BatchState::ResolveInput { input, rest, .. } => {
            assert_eq!(*input, path("in/DJI_20250102000000.mp4"));
            assert_eq!(*rest, vec![]);
        }
        other => panic!("{other:?}"),
    }
    let state = state.step(resolved("/in/b.mp4"));
    match &state {
        BatchState::WriteEntry { line, .. } => assert_eq!(line, "file '/in/b.mp4'\n"),
        other => panic!("{other:?}"),
    }
    let state = state.step(BatchEvent::EntryWritten);
    match &state {
        BatchState::Encode { list, args, .. } => {
            assert_eq!(*list, path("/tmp/list"));
            assert_eq!(args[6], b"/tmp/list".to_vec());
            assert_eq!(
                args[args.len() - 1],
                b"output/Motovlog - 20250102.mp4".to_vec()
            );
        }
        other => panic!("{other:?}"),
    }
    let state = state.step(ran(true));
    match &state {
        BatchState::Upload { video, .. } => assert_eq!(video.title, "Motovlog - 20250102"),
        other => panic!("{other:?}"),
    }
    let state = state.step(BatchEvent::Uploaded { video_id: Some("abc".to_string()) });
    match &state {
        BatchState::AddToPlaylist { entry, .. } => {
            assert_eq!(entry.video_id, "abc");
            assert_eq!(entry.playlist_id, "PLrDx50RI8LwOsr-hccwOgM_BbTUxux5lf");
        }
        other => panic!("{other:?}"),
    }
    assert_eq!(
        state.step(BatchEvent::PlaylistUpdated),
        BatchState::Done { outcome: BatchOutcome::Uploaded { date: "20250102".to_string() } }
    );
}

#[test]
fn playlist_failure_does_not_fail_the_batch() {
    let state = encoded()
        .step(BatchEvent::Uploaded { video_id: Some("abc".to_string()) })
        .step(BatchEvent::PlaylistNotUpdated);
    assert_eq!(
        state,
        BatchState::Done { outcome: BatchOutcome::Uploaded { date: "20250102".to_string() } }
    );
}

#[test]
fn upload_failure_does_not_fail_the_batch() {
    let failed = BatchState::Done {
        outcome: BatchOutcome::UploadFailed { date: "20250102".to_string() },
    };
    assert_eq!(encoded().step(BatchEvent::UploadFailed), failed);
    assert_eq!(encoded().step(BatchEvent::Uploaded { video_id: None }), failed);
}

#[test]
fn encode_failure_fails_the_batch() {
    let state = written().step(ran(false));
    match &state {
        BatchState::Failed { error } => {
            assert_eq!(error.message(), "ffmpeg exited with exit status: 1")
        }
        other => panic!("{other:?}"),
    }
}

#[test]
fn list_failures_fail_the_batch() {
    let not_created = start().step(BatchEvent::ListNotCreated { reason: "full".to_string() });
    match &not_created {
        BatchState::Failed { error } => assert_eq!(
            error.message(),
            "failed to create concat list temp file: full"
        ),
        other => panic!("{other:?}"),
    }
    let not_written = start()
        .step(created())
        .step(resolved("/in/a.mp4"))
        .step(BatchEvent::EntryNotWritten { reason: "full".to_string() });
    match &not_written {
        BatchState::Failed { error } => {
            assert_eq!(error.message(), "failed to write concat list: full")
        }
        other => panic!("{other:?}"),
    }
    let unresolved = start()
        .step(created())
        .step(resolved("/in/a.mp4"))
        .step(BatchEvent::EntryWritten)
        .step(BatchEvent::InputNotResolved { reason: "gone".to_string() });
    match &unresolved {
        BatchState::Failed { error } => assert_eq!(
            error.message(),
            "failed to resolve path in/DJI_20250102000000.mp4: gone"
        ),
        other => panic!("{other:?}"),
    }
    let broken = UnixPath { bytes: b"/\xff".to_vec() };
    assert_eq!(
        start()
            .step(created())
            .step(BatchEvent::InputResolved { absolute: broken.duplicate() }),
        BatchState::Failed { error: PipelineError::NonUtf8Input { path: broken } }
    );
}

#[test]
fn lut_is_checked_before_the_clips() {
    let lut = UnixPath { bytes: vec![0xff] };
    let state = process_batch(&[], &path("output"), &lut, GpuArch::PascalOrOlder);
    assert_eq!(
        state,
        BatchState::Failed {
            error: PipelineError::NonUtf8Lut { path: UnixPath { bytes: vec![0xff] } }
        }
    );
    let state = process_batch(&[], &path("output"), &path("lut"), GpuArch::PascalOrOlder);
    assert_eq!(state, BatchState::Failed { error: PipelineError::NoInputFiles });
}

#[test]
fn unexpected_events_change_nothing() {
    assert_eq!(start().step(BatchEvent::UploadFailed), start());
    assert_eq!(encoded().step(BatchEvent::EntryWritten), encoded());
    let done = encoded().step(BatchEvent::UploadFailed);
    assert_eq!(
        done.step(BatchEvent::Uploaded { video_id: Some("abc".to_string()) }),
        encoded().step(BatchEvent::UploadFailed)
    );
}
