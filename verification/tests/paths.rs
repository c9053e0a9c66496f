use std::path::Path;

use dewduct::paths::{file_name, join};

const SAMPLES: [&str; 24] = [
    "",
    "/",
    "//",
    ".",
    "..",
    "./",
    "a",
    "a/",
    "a//",
    "a/.",
    "a/./",
    "a/..",
    "/a",
    "/.",
    "./a",
    "../a",
    "a/b",
    "a//b",
    "/tmp/app_cache/chan123/160.jpg",
    "tmp/foo.txt",
    "foo.txt/.//",
    "a/.b",
    "a/..b",
    "a/b/./.",
];

#[test]
fn file_name_agrees_with_the_standard_library() {
    for sample in SAMPLES {
        let expected = Path::new(sample).file_name().map(|n| n.to_str().unwrap().to_string());
        assert_eq!(file_name(sample), expected, "the name of {:?}", sample);
    }
}

#[test]
fn file_name_of_known_paths() {
    assert_eq!(file_name("/tmp/app_cache/chan123/160.jpg"), Some("160.jpg".to_string()));
    assert_eq!(file_name("/usr/bin/"), Some("bin".to_string()));
    assert_eq!(file_name("foo.txt/."), Some("foo.txt".to_string()));
    assert_eq!(file_name("foo.txt/.."), None);
    assert_eq!(file_name("/"), None);
    assert_eq!(file_name(""), None);
    assert_eq!(file_name("übung/größe.jpg"), Some("größe.jpg".to_string()));
}

#[test]
fn join_agrees_with_the_standard_library() {
    for base in SAMPLES {
        for path in SAMPLES {
            let expected = Path::new(base).join(path);
            assert_eq!(join(base, path), expected.to_str().unwrap(), "{:?} and {:?}", base, path);
        }
    }
}

#[test]
fn join_of_known_paths() {
    assert_eq!(join("/tmp/app_cache", "chan123/160.jpg"), "/tmp/app_cache/chan123/160.jpg");
    assert_eq!(join("/tmp/app_cache/", "x"), "/tmp/app_cache/x");
    assert_eq!(join("/tmp/app_cache", "/etc/passwd"), "/etc/passwd");
    assert_eq!(join("", "x"), "x");
    assert_eq!(join("x", ""), "x/");
    assert_eq!(join("", ""), "");
}
