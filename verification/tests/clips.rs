use motovlog::clips::{collect_inputs, date_in_name, date_of_clip, earliest_date, is_clip_path};
use motovlog::errors::PipelineError;
use motovlog::paths::UnixPath;

fn path(text: &str) -> UnixPath {
    UnixPath::from_text(text)
}

fn paths(texts: &[&str]) -> Vec<UnixPath> {
    texts.iter().map(|text| path(text)).collect()
}

#[test]
fn clips_have_the_extension_mp4() {
    assert!(is_clip_path(&path("input/a.mp4")));
    assert!(is_clip_path(&path("input/a.MP4")));
    assert!(is_clip_path(&path("input/a.b.Mp4")));
    assert!(is_clip_path(&path("input/a.mP4/")));
    assert!(!is_clip_path(&path("input/.mp4")));
    assert!(!is_clip_path(&path("input/mp4")));
    assert!(!is_clip_path(&path("input/a.mp4v")));
    assert!(!is_clip_path(&path("input/a.mp")));
    assert!(!is_clip_path(&path("input/a.mp3")));
    assert!(!is_clip_path(&path("input.mp4/a")));
    assert!(is_clip_path(&UnixPath { bytes: b"\xff.mp4".to_vec() }));
    assert!(!is_clip_path(&UnixPath { bytes: b"a.mp\xff".to_vec() }));
}

#[test]
fn inputs_are_filtered_and_sorted() {
    let entries = paths(&["in/b.mp4", "in/notes.txt", "in/a.MP4", "in/c", "in/B.mp4"]);
    assert_eq!(
        collect_inputs(entries),
        paths(&["in/B.mp4", "in/a.MP4", "in/b.mp4"])
    );
    assert_eq!(collect_inputs(Vec::new()), Vec::new());
}

#[test]
fn dates_follow_the_prefix() {
    assert_eq!(
        date_in_name("DJI_20250102030405_0001_D.mp4"),
        Some("20250102".to_string())
    );
    assert_eq!(date_in_name("DJI_20250102"), Some("20250102".to_string()));
    assert_eq!(date_in_name("DJI_2025010"), None);
    assert_eq!(date_in_name("dji_20250102030405.mp4"), None);
    assert_eq!(date_in_name("DJI20250102.mp4"), None);
    assert_eq!(date_in_name(""), None);
}

#[test]
fn dates_are_digits() {
    assert_eq!(date_in_name("DJI_abcdefgh"), None);
    assert_eq!(date_in_name("DJI_2024.mp4"), None);
    assert_eq!(date_in_name("DJI_2025010_123.mp4"), None);
    assert_eq!(date_in_name("DJI_123456é.mp4"), None);
    assert_eq!(date_in_name("DJI_1234567é.mp4"), None);
    assert_eq!(date_in_name("DJI_éééé"), None);
    assert_eq!(date_in_name("DJI_٢٠٢٥٠١٠٢.mp4"), None);
}

#[test]
fn clips_without_a_date_fail_the_batch() {
    let inputs = paths(&["in/DJI_20250103000000_1.mp4", "in/DJI_2024.mp4"]);
    let error = earliest_date(&inputs).unwrap_err();
    assert_eq!(error.message(), "filename doesn't match DJI_YYYYMMDD...: DJI_2024.mp4");
    assert_eq!(
        error,
        PipelineError::UndatedFileName { name: "DJI_2024.mp4".to_string() }
    );
}

#[test]
fn earliest_date_is_the_least() {
    let inputs = paths(&[
        "in/DJI_20250103000000_1.mp4",
        "in/DJI_20250101235959_2.mp4",
        "in/DJI_20250102000000_3.mp4",
    ]);
    assert_eq!(earliest_date(&inputs), Ok("20250101".to_string()));
    let reversed: Vec<UnixPath> = inputs.into_iter().rev().collect();
    assert_eq!(earliest_date(&reversed), Ok("20250101".to_string()));
}

#[test]
fn first_undated_clip_is_reported() {
    let inputs = paths(&[
        "in/DJI_20250103000000.mp4",
        "in/GOPR0001.mp4",
        "in/other.mp4",
    ]);
    let error = earliest_date(&inputs).unwrap_err();
    assert_eq!(
        error,
        PipelineError::UndatedFileName { name: "GOPR0001.mp4".to_string() }
    );
    assert_eq!(
        error.message(),
        "filename doesn't match DJI_YYYYMMDD...: GOPR0001.mp4"
    );
}

#[test]
fn clips_need_utf8_names() {
    let broken = UnixPath { bytes: b"in/DJI_20250103\xff.mp4".to_vec() };
    let error = date_of_clip(&broken).unwrap_err();
    assert_eq!(error.message(), "non-UTF8 filename: in/DJI_20250103\u{fffd}.mp4");
    assert_eq!(
        date_of_clip(&path("in/..")),
        Err(PipelineError::NonUtf8FileName { path: path("in/..") })
    );
}

#[test]
fn no_clips_have_no_date() {
    assert_eq!(earliest_date(&[]), Err(PipelineError::NoInputFiles));
    assert_eq!(PipelineError::NoInputFiles.message(), "no input files");
}

#[test]
fn clips_stand_in_the_order_of_capture() {
    let entries = paths(&[
        "in/DJI_20250102100000_0003.mp4",
        "in/DJI_20250101235959_0009.mp4",
        "in/DJI_20250102095959_0010.mp4",
    ]);
    assert_eq!(
        collect_inputs(entries),
        paths(&[
            "in/DJI_20250101235959_0009.mp4",
            "in/DJI_20250102095959_0010.mp4",
            "in/DJI_20250102100000_0003.mp4",
        ])
    );
}
