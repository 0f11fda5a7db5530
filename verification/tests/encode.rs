use motovlog::encode::{build_video_filter, check_encode, concat_entry, ffmpeg_args, FfmpegRun};
use motovlog::errors::PipelineError;
use motovlog::gpu::GpuArch;
use motovlog::paths::UnixPath;

fn path(text: &str) -> UnixPath {
    UnixPath::from_text(text)
}

#[test]
fn filter_crops_and_applies_the_lut() {
    assert_eq!(
        build_video_filter(&path("luts/it's.cube")).unwrap(),
        r"crop=iw:iw*9/16,lut3d=file='luts/it'\''s.cube',setparams=color_primaries=bt709:color_trc=bt709:colorspace=bt709:range=tv"
    );
}

#[test]
fn filter_needs_a_utf8_lut() {
    let lut = UnixPath { bytes: b"a\xffb".to_vec() };
    let error = build_video_filter(&lut).unwrap_err();
    assert_eq!(error.message(), "LUT path is not valid UTF-8: a\u{fffd}b");
    assert_eq!(error, PipelineError::NonUtf8Lut { path: lut });
}

#[test]
fn clips_get_a_line_each() {
    assert_eq!(concat_entry(&path("/in/a.mp4")).unwrap(), "file '/in/a.mp4'\n");
    assert_eq!(
        concat_entry(&path("/in/it's.mp4")).unwrap(),
        "file '/in/it'\\''s.mp4'\n"
    );
    assert_eq!(
        concat_entry(&path(r"/in/a\b.mp4")).unwrap(),
        "file '/in/a\\b.mp4'\n"
    );
}

/// Reads the paths of a concat list by ffmpeg's quoting rules.
fn read_list(list: &str) -> Vec<String> {
    let mut paths = Vec::new();
    let mut rest = list;
    while !rest.is_empty() {
        rest = rest.strip_prefix("file ").unwrap();
        let (mut path, mut quoted, mut end) = (String::new(), false, None);
        let mut chars = rest.char_indices();
        while let Some((place, c)) = chars.next() {
            if c == '\'' {
                quoted = !quoted;
            } else if c == '\\' && !quoted {
                path.push(chars.next().unwrap().1);
            } else if c == '\n' && !quoted {
                end = Some(place);
                break;
            } else {
                path.push(c);
            }
        }
        paths.push(path);
        rest = &rest[end.unwrap() + 1..];
    }
    paths
}

#[test]
fn lists_read_back_as_the_paths() {
    let clips = ["/in/a.mp4", "/in/it's.mp4", r"/in/b\c.mp4", r"/\'", "/é", "/a\nfile '/b"];
    let mut list = String::new();
    for clip in clips {
        list += &concat_entry(&path(clip)).unwrap();
    }
    assert_eq!(read_list(&list), clips);
}

#[test]
fn clips_need_utf8_paths() {
    let broken = UnixPath { bytes: b"/\xff".to_vec() };
    let error = concat_entry(&broken).unwrap_err();
    assert_eq!(error.message(), "path is not valid UTF-8: /\u{fffd}");
    assert_eq!(error, PipelineError::NonUtf8Input { path: broken });
}

fn words(arch: GpuArch) -> Vec<String> {
    ffmpeg_args(&path("/tmp/list"), "FILTER", &path("out/v.mp4"), arch)
        .into_iter()
        .map(|arg| String::from_utf8(arg).unwrap())
        .collect()
}

#[test]
fn turing_encodes_with_temporal_aq() {
    assert_eq!(
        words(GpuArch::TuringOrNewer).join(" "),
        "-y -f concat -safe 0 -i /tmp/list -map 0:v:0 -map 0:a:0 -vf FILTER -c:v hevc_nvenc \
         -preset p7 -rc vbr -b:v 68M -rc-lookahead 20 -spatial_aq 1 -temporal_aq 1 \
         -multipass fullres -pix_fmt p010le -c:a copy out/v.mp4"
    );
}

#[test]
fn pascal_encodes_without_temporal_aq() {
    let mut turing = words(GpuArch::TuringOrNewer);
    let place = turing.iter().position(|word| word == "-temporal_aq").unwrap();
    turing.drain(place..place + 2);
    assert_eq!(words(GpuArch::PascalOrOlder), turing);
}

#[test]
fn paths_are_passed_as_bytes() {
    let output = UnixPath { bytes: b"out/\xff.mp4".to_vec() };
    let args = ffmpeg_args(&path("l"), "f", &output, GpuArch::PascalOrOlder);
    assert_eq!(args[args.len() - 1], b"out/\xff.mp4".to_vec());
}

#[test]
fn successful_runs_are_encodes() {
    assert_eq!(
        check_encode(FfmpegRun::Streamed { success: true, status: "exit status: 0".to_string() }),
        Ok(())
    );
    assert_eq!(
        check_encode(FfmpegRun::Captured {
            success: true,
            status: "exit status: 0".to_string(),
            stderr: b"noise".to_vec(),
        }),
        Ok(())
    );
}

#[test]
fn failed_runs_are_reported() {
    let streamed = check_encode(FfmpegRun::Streamed {
        success: false,
        status: "exit status: 1".to_string(),
    });
    assert_eq!(
        streamed.unwrap_err().message(),
        "ffmpeg exited with exit status: 1"
    );
    let captured = check_encode(FfmpegRun::Captured {
        success: false,
        status: "exit status: 1".to_string(),
        stderr: b"bad\xff\n".to_vec(),
    });
    assert_eq!(
        captured.unwrap_err().message(),
        "ffmpeg exited with exit status: 1\nbad\u{fffd}\n"
    );
    let missing = check_encode(FfmpegRun::NotStarted { reason: "no such file".to_string() });
    assert_eq!(
        missing.unwrap_err().message(),
        "failed to run ffmpeg: no such file"
    );
}
