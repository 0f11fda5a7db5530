use motovlog::order::bytes_before;
use motovlog::paths::UnixPath;
use motovlog::sorting::sort_paths;
use std::path::Path;

const SAMPLES: [&str; 40] = [
    "", "/", "//", ".", "./", "..", "../", "/.", "/..", "a", "a/", "/a", "a/b", "a//b", "a/./b",
    "a/../b", "./a", ".//a", "a/.", "a/..", "a/./", "/a/b.c", "a.b.c", ".hidden", ".hidden.mp4",
    "..mp4", "...", "a.", ".a.", "x/y.mp4/", "x/y.MP4/.", "dir.ext/file", "é/ü.mp4", "a-b", "a b/c",
    "a/b/c", "a/b-c", "a!/b", "./..", "/./a",
];

fn path(text: &str) -> UnixPath {
    UnixPath::from_text(text)
}

#[test]
fn file_names_are_those_of_std() {
    for text in SAMPLES {
        let expected = Path::new(text)
            .file_name()
            .map(|name| name.to_str().unwrap().as_bytes().to_vec());
        assert_eq!(path(text).file_name(), expected, "{text:?}");
    }
}

#[test]
fn extensions_are_those_of_std() {
    for text in SAMPLES {
        let expected = Path::new(text)
            .extension()
            .map(|ext| ext.to_str().unwrap().as_bytes().to_vec());
        assert_eq!(path(text).extension(), expected, "{text:?}");
    }
}

#[test]
fn joins_are_those_of_std() {
    for dir in SAMPLES {
        for name in SAMPLES {
            let expected = Path::new(dir).join(name);
            assert_eq!(
                path(dir).join(name.as_bytes()),
                path(expected.to_str().unwrap()),
                "{dir:?} {name:?}"
            );
        }
    }
}

#[test]
fn order_is_that_of_std() {
    for a in SAMPLES {
        for b in SAMPLES {
            assert_eq!(
                path(a).before(&path(b)),
                Path::new(a) < Path::new(b),
                "{a:?} {b:?}"
            );
        }
    }
}

#[test]
fn sorting_is_that_of_std() {
    let mut expected: Vec<&Path> = SAMPLES.iter().map(Path::new).collect();
    expected.sort();
    let sorted = sort_paths(SAMPLES.iter().map(|text| path(text)).collect());
    let expected: Vec<UnixPath> = expected
        .into_iter()
        .map(|p| path(p.to_str().unwrap()))
        .collect();
    assert_eq!(sorted, expected);
}

#[test]
fn sorting_ignores_the_listing_order() {
    let listed = ["c/x.mp4", "c/b.mp4", "c/a.mp4", "c/aa.mp4"];
    let forward = sort_paths(listed.iter().map(|text| path(text)).collect());
    let backward = sort_paths(listed.iter().rev().map(|text| path(text)).collect());
    assert_eq!(forward, backward);
    assert_eq!(forward[0], path("c/a.mp4"));
    assert_eq!(forward[1], path("c/aa.mp4"));
    assert_eq!(forward[3], path("c/x.mp4"));
}

#[test]
fn texts_need_valid_bytes() {
    let broken = UnixPath { bytes: vec![b'a', 0xff, b'b'] };
    assert_eq!(broken.to_text(), None);
    assert_eq!(broken.display(), "a\u{fffd}b");
    assert_eq!(path("é").to_text(), Some("é".to_string()));
    assert_eq!(path("é").display(), "é");
}

#[test]
fn joined_names_are_file_names() {
    assert_eq!(
        path("out/").join(b"name.mp4").file_name(),
        Some(b"name.mp4".to_vec())
    );
    assert_eq!(path("").join(b"name").file_name(), Some(b"name".to_vec()));
}

#[test]
fn bytes_are_ordered_lexicographically() {
    assert!(bytes_before(b"", b"a"));
    assert!(bytes_before(b"ab", b"b"));
    assert!(bytes_before(b"a", b"ab"));
    assert!(!bytes_before(b"ab", b"ab"));
    assert!(!bytes_before(b"b", b"ab"));
    assert!(bytes_before(b"a\x7f", b"a\x80"));
}
