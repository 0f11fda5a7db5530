use motovlog::errors::ProbeError;
use motovlog::gpu::{arch_from_probe_stderr, detect_gpu_arch, probe_args, GpuArch, ProbeRun};

#[test]
fn pascal_logs_unsupported_warning() {
    assert_eq!(
        arch_from_probe_stderr("[hevc_nvenc @ 0x0] Temporal AQ not supported\n"),
        GpuArch::PascalOrOlder
    );
}

#[test]
fn turing_and_ampere_accept_the_flag() {
    assert_eq!(arch_from_probe_stderr(""), GpuArch::TuringOrNewer);
    assert_eq!(
        arch_from_probe_stderr("[hevc_nvenc @ 0x0] Temporal AQ enabled.\n"),
        GpuArch::TuringOrNewer
    );
}

#[test]
fn marker_is_found_at_either_end() {
    assert_eq!(
        arch_from_probe_stderr("Temporal AQ not supported"),
        GpuArch::PascalOrOlder
    );
    assert_eq!(
        arch_from_probe_stderr("a\nb Temporal AQ not supported"),
        GpuArch::PascalOrOlder
    );
    assert_eq!(
        arch_from_probe_stderr("Temporal AQ not supporte"),
        GpuArch::TuringOrNewer
    );
    assert_eq!(
        arch_from_probe_stderr("Temporal AQ not Temporal AQ not supported"),
        GpuArch::PascalOrOlder
    );
}

fn detected(success: bool, stderr: &[u8]) -> GpuArch {
    detect_gpu_arch(ProbeRun::Ran { success, stderr: stderr.to_vec() }).unwrap()
}

#[test]
fn probe_output_is_decoded_with_replacement() {
    let mut log = vec![0xff, 0xfe, b' '];
    log.extend_from_slice(b"Temporal AQ not supported\n\x80");
    assert_eq!(detected(true, &log), GpuArch::PascalOrOlder);
    assert_eq!(
        detected(true, b"Temporal AQ not \xffsupported"),
        GpuArch::TuringOrNewer
    );
    assert_eq!(detected(true, b""), GpuArch::TuringOrNewer);
}

#[test]
fn exit_status_of_the_probe_is_irrelevant() {
    for success in [true, false] {
        assert_eq!(detected(success, b"Temporal AQ not supported"), GpuArch::PascalOrOlder);
        assert_eq!(detected(success, b"no such device"), GpuArch::TuringOrNewer);
    }
}

#[test]
fn probe_needs_ffmpeg() {
    let error = detect_gpu_arch(ProbeRun::NotRun { reason: "not found".to_string() }).unwrap_err();
    assert_eq!(error.message(), "failed to run ffmpeg (is it installed?): not found");
    assert_eq!(error, ProbeError::FfmpegNotRun { reason: "not found".to_string() });
}

#[test]
fn probe_encodes_one_frame() {
    let args: Vec<String> = probe_args()
        .into_iter()
        .map(|arg| String::from_utf8(arg).unwrap())
        .collect();
    assert_eq!(
        args.join(" "),
        "-loglevel warning -f lavfi -i color=black:size=64x64:duration=0.1:rate=1 \
         -c:v hevc_nvenc -temporal_aq 1 -frames:v 1 -f null -"
    );
}

#[test]
fn only_turing_has_temporal_aq() {
    assert!(GpuArch::TuringOrNewer.has_temporal_aq());
    assert!(!GpuArch::PascalOrOlder.has_temporal_aq());
}
