use std::collections::HashMap;

use dewduct::cache::{cache_dir, DewCache};
use dewduct::error::{Cause, Error, FetchError};
use dewduct::fetch::{judge, Action, Event, Stage, Step, ATTEMPTS};

/// A store in memory and a network that answers from a script.
struct Surroundings {
    files: HashMap<String, Vec<u8>>,
    script: Vec<Result<Vec<u8>, String>>,
    calls: usize,
}

impl Surroundings {
    fn new(script: Vec<Result<Vec<u8>, String>>) -> Self {
        Surroundings { files: HashMap::new(), script, calls: 0 }
    }

    fn perform(&mut self, action: Action) -> Event {
        match action {
            Action::Probe { path } => {
                Event::Probed { size: self.files.get(&path).map(|bytes| bytes.len() as u64) }
            }
            Action::Load { path } => Event::Loaded { contents: self.files.get(&path).cloned() },
            Action::Retrieve { attempt, .. } => {
                self.calls += 1;
                assert_eq!(attempt as usize, self.calls);
                if self.calls > self.script.len() {
                    panic!("the network was asked once too often");
                }
                Event::Retrieved { outcome: self.script[self.calls - 1].clone() }
            }
            Action::Persist { path, contents } => {
                self.files.insert(path, contents);
                Event::Persisted
            }
        }
    }

    fn fetch(&mut self, cache: &DewCache, fname: &str, url: &str) -> Result<Vec<u8>, FetchError> {
        self.calls = 0;
        let mut step = cache.fetch_remote(fname, url);
        loop {
            match step {
                Step::Continue { fetch, action } => {
                    let event = self.perform(action);
                    step = fetch.step(event);
                }
                Step::Finished { result } => return result,
            }
        }
    }
}

fn jpeg() -> Vec<u8> {
    vec![0xFF, 0xD8, 0xFF, 0xE0, 0, 16, 74, 70, 73, 70, 0, 1, 1, 0, 0, 1, 0]
}

#[test]
fn miss_then_hit_returns_the_same_bytes() {
    let cache = DewCache::new("/tmp/app_cache".to_string());
    let mut world = Surroundings::new(vec![Ok(jpeg())]);
    let first = world.fetch(&cache, "chan123/160.jpg", "https://example.org/160.jpg");
    assert_eq!(first, Ok(jpeg()));
    assert_eq!(jpeg().len(), 17);
    assert_eq!(world.calls, 1);
    assert_eq!(world.files.get("/tmp/app_cache/chan123/160.jpg"), Some(&jpeg()));
    assert_eq!(world.files.len(), 1);

    world.script = vec![];
    let second = world.fetch(&cache, "chan123/160.jpg", "https://example.org/160.jpg");
    assert_eq!(second, Ok(jpeg()));
    assert_eq!(world.calls, 0);
}

#[test]
fn retry_then_success() {
    let cache = DewCache::new("/tmp/app_cache".to_string());
    let mut world = Surroundings::new(vec![
        Err("timed out".to_string()),
        Err("connection reset".to_string()),
        Ok(b"ok".to_vec()),
    ]);
    let got = world.fetch(&cache, "a/b", "https://example.org/b");
    assert_eq!(got, Ok(b"ok".to_vec()));
    assert_eq!(world.calls, 3);
    assert_eq!(world.files.get("/tmp/app_cache/a/b"), Some(&b"ok".to_vec()));
}

#[test]
fn always_failing_retrieval_is_tried_four_times() {
    let cache = DewCache::new("/var/cache/dew".to_string());
    let mut world = Surroundings::new(vec![
        Err("one".to_string()),
        Err("two".to_string()),
        Err("three".to_string()),
        Err("four".to_string()),
    ]);
    let got = world.fetch(&cache, "x.jpg", "https://example.org/x");
    assert_eq!(world.calls, 4);
    assert_eq!(
        got,
        Err(FetchError {
            url: "https://example.org/x".to_string(),
            cause: Cause::Transport { message: "four".to_string() },
        })
    );
    assert!(world.files.is_empty());
}

#[test]
fn empty_answers_fail_and_leave_no_file() {
    let cache = DewCache::new("/var/cache/dew".to_string());
    let mut world = Surroundings::new(vec![Ok(vec![]), Ok(vec![]), Ok(vec![]), Ok(vec![])]);
    let got = world.fetch(&cache, "vid42/320.jpg", "https://example.org/320");
    assert_eq!(world.calls, 4);
    let error = got.unwrap_err();
    assert_eq!(error.url, "https://example.org/320");
    assert_eq!(error.cause, Cause::Empty { err: Error::NoThumbnails { id: "320.jpg".to_string() } });
    assert_eq!(error.message(), "failed to fetch url `https://example.org/320`");
    assert_eq!(error.cause.message(), "no thumbnails found for vid ID 320.jpg video");
    assert!(world.files.is_empty());
}

#[test]
fn empty_file_is_treated_as_absent() {
    let cache = DewCache::new("/var/cache/dew".to_string());
    let mut world = Surroundings::new(vec![Ok(vec![1, 2, 3])]);
    world.files.insert("/var/cache/dew/e".to_string(), vec![]);
    let got = world.fetch(&cache, "e", "u");
    assert_eq!(got, Ok(vec![1, 2, 3]));
    assert_eq!(world.calls, 1);
    assert_eq!(world.files.get("/var/cache/dew/e"), Some(&vec![1, 2, 3]));
}

#[test]
fn entries_live_under_the_root() {
    let cache = DewCache::new("/tmp/app_cache".to_string());
    assert_eq!(cache.dir(), "/tmp/app_cache");
    assert_eq!(cache_dir(&cache, "chan123/160.jpg"), "/tmp/app_cache/chan123/160.jpg");
    assert_eq!(cache_dir(&cache, ""), "/tmp/app_cache/");
    assert_eq!(cache_dir(&cache, "/elsewhere/x"), "/elsewhere/x");
    let slashed = DewCache::new("/tmp/app_cache/".to_string());
    assert_eq!(cache_dir(&slashed, "a"), "/tmp/app_cache/a");
    assert_eq!(DewCache::in_tmp_dir("/tmp").dir(), "/tmp/dewduct");
}

#[test]
fn concrete_scenario_survives_a_failing_network() {
    let cache = DewCache::new("/tmp/app_cache".to_string());
    let mut world = Surroundings::new(vec![Ok(jpeg())]);
    assert_eq!(world.fetch(&cache, "chan123/160.jpg", "https://example.org/a"), Ok(jpeg()));
    world.script = vec![Err("down".to_string()); 4];
    assert_eq!(world.fetch(&cache, "chan123/160.jpg", "https://example.org/a"), Ok(jpeg()));
    assert_eq!(world.calls, 0);
    assert_eq!(world.files.get("/tmp/app_cache/chan123/160.jpg"), Some(&jpeg()));
}

#[test]
fn the_steps_of_a_miss_in_order() {
    let cache = DewCache::new("/tmp/app_cache".to_string());
    let path = "/tmp/app_cache/chan123/160.jpg".to_string();
    let url = "https://example.org/a".to_string();
    let Step::Continue { fetch, action } = cache.fetch_remote("chan123/160.jpg", &url) else {
        panic!("a lookup starts with a question");
    };
    assert_eq!(action, Action::Probe { path: path.clone() });
    assert_eq!(fetch.path(), &path);
    assert_eq!(fetch.url(), &url);
    assert_eq!(fetch.stage(), &Stage::CheckLocal);
    let Step::Continue { fetch, action } = fetch.step(Event::Probed { size: None }) else {
        panic!("a miss goes to the network");
    };
    assert_eq!(action, Action::Retrieve { path: path.clone(), url: url.clone(), attempt: 1 });
    assert_eq!(fetch.stage(), &Stage::FetchRemote { attempt: 1 });
    let Step::Continue { fetch, action } = fetch.step(Event::Retrieved { outcome: Ok(jpeg()) })
    else {
        panic!("content is written before it is returned");
    };
    assert_eq!(action, Action::Persist { path: path.clone(), contents: jpeg() });
    assert_eq!(fetch.stage(), &Stage::Persist { contents: jpeg() });
    let Step::Finished { result } = fetch.step(Event::Persisted) else {
        panic!("the write is the last step");
    };
    assert_eq!(result, Ok(jpeg()));
}

#[test]
fn the_steps_of_a_hit_in_order() {
    let cache = DewCache::new("/c".to_string());
    let Step::Continue { fetch, .. } = cache.fetch_remote("k", "u") else {
        panic!("a lookup starts with a question");
    };
    let Step::Continue { fetch, action } = fetch.step(Event::Probed { size: Some(3) }) else {
        panic!("a valid entry is read");
    };
    assert_eq!(action, Action::Load { path: "/c/k".to_string() });
    let Step::Finished { result } = fetch.step(Event::Loaded { contents: Some(vec![7, 8, 9]) })
    else {
        panic!("what was read is returned");
    };
    assert_eq!(result, Ok(vec![7, 8, 9]));
}

#[test]
fn an_entry_that_cannot_be_read_counts_as_a_miss() {
    let cache = DewCache::new("/c".to_string());
    let Step::Continue { fetch, .. } = cache.fetch_remote("k", "u") else {
        panic!("a lookup starts with a question");
    };
    let Step::Continue { fetch, .. } = fetch.step(Event::Probed { size: Some(3) }) else {
        panic!("a valid entry is read");
    };
    let Step::Continue { fetch, action } = fetch.step(Event::Loaded { contents: None }) else {
        panic!("a failed read is no failure of the lookup");
    };
    assert_eq!(
        action,
        Action::Retrieve { path: "/c/k".to_string(), url: "u".to_string(), attempt: 1 }
    );
    assert_eq!(fetch.stage(), &Stage::FetchRemote { attempt: 1 });
}

#[test]
fn an_entry_of_zero_bytes_is_not_read() {
    let cache = DewCache::new("/c".to_string());
    let Step::Continue { fetch, .. } = cache.fetch_remote("k", "u") else {
        panic!("a lookup starts with a question");
    };
    let Step::Continue { action, .. } = fetch.step(Event::Probed { size: Some(0) }) else {
        panic!("an empty entry goes to the network");
    };
    assert_eq!(
        action,
        Action::Retrieve { path: "/c/k".to_string(), url: "u".to_string(), attempt: 1 }
    );
}

#[test]
fn an_event_that_answers_nothing_is_ignored() {
    let cache = DewCache::new("/c".to_string());
    let Step::Continue { fetch, .. } = cache.fetch_remote("k", "u") else {
        panic!("a lookup starts with a question");
    };
    let Step::Continue { fetch, action } = fetch.step(Event::Persisted) else {
        panic!("the lookup still waits");
    };
    assert_eq!(action, Action::Probe { path: "/c/k".to_string() });
    assert_eq!(fetch.stage(), &Stage::CheckLocal);
    let Step::Continue { fetch, .. } = fetch.step(Event::Probed { size: None }) else {
        panic!("a miss goes to the network");
    };
    let Step::Continue { fetch, action } = fetch.step(Event::Loaded { contents: Some(vec![1]) })
    else {
        panic!("the lookup still waits");
    };
    assert_eq!(
        action,
        Action::Retrieve { path: "/c/k".to_string(), url: "u".to_string(), attempt: 1 }
    );
    assert_eq!(fetch.stage(), &Stage::FetchRemote { attempt: 1 });
}

#[test]
fn the_last_failure_is_the_one_reported() {
    let cache = DewCache::new("/c".to_string());
    let mut world = Surroundings::new(vec![
        Err("first".to_string()),
        Ok(vec![]),
        Err("third".to_string()),
        Ok(vec![]),
    ]);
    let error = world.fetch(&cache, "dir/name.jpg", "U").unwrap_err();
    assert_eq!(world.calls, 4);
    assert_eq!(
        error,
        FetchError {
            url: "U".to_string(),
            cause: Cause::Empty { err: Error::NoThumbnails { id: "name.jpg".to_string() } },
        }
    );
    let mut world = Surroundings::new(vec![
        Ok(vec![]),
        Ok(vec![]),
        Ok(vec![]),
        Err("fourth".to_string()),
    ]);
    let error = world.fetch(&cache, "dir/name.jpg", "U").unwrap_err();
    assert_eq!(error.cause, Cause::Transport { message: "fourth".to_string() });
    assert_eq!(error.cause.message(), "fourth");
}

#[test]
fn success_on_the_last_attempt_still_counts() {
    let cache = DewCache::new("/c".to_string());
    let mut world = Surroundings::new(vec![
        Err("1".to_string()),
        Err("2".to_string()),
        Err("3".to_string()),
        Ok(vec![42]),
    ]);
    assert_eq!(world.fetch(&cache, "k", "u"), Ok(vec![42]));
    assert_eq!(world.calls, 4);
    assert_eq!(world.files.get("/c/k"), Some(&vec![42]));
}

#[test]
fn judging_an_attempt() {
    assert_eq!(judge("/c/vid/320.jpg", Ok(vec![1])), Ok(vec![1]));
    assert_eq!(
        judge("/c/vid/320.jpg", Ok(vec![])),
        Err(Cause::Empty { err: Error::NoThumbnails { id: "320.jpg".to_string() } })
    );
    assert_eq!(
        judge("/", Ok(vec![])),
        Err(Cause::Empty { err: Error::NoThumbnails { id: "/".to_string() } })
    );
    assert_eq!(
        judge("/c/vid/320.jpg", Err("refused".to_string())),
        Err(Cause::Transport { message: "refused".to_string() })
    );
    assert_eq!(ATTEMPTS, 4);
}

#[test]
fn the_text_of_errors() {
    let err = Error::NoThumbnails { id: "dQw4w9WgXcQ".to_string() };
    assert_eq!(err.message(), "no thumbnails found for vid ID dQw4w9WgXcQ video");
    let error = FetchError {
        url: "https://i.example/vi/x/1.jpg".to_string(),
        cause: Cause::Empty { err },
    };
    assert_eq!(error.message(), "failed to fetch url `https://i.example/vi/x/1.jpg`");
    assert_eq!(error.cause.message(), "no thumbnails found for vid ID dQw4w9WgXcQ video");
}
