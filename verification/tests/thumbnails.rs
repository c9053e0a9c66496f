use dewduct::cache::DewCache;
use dewduct::error::Error;
use dewduct::fetch::{Action, Step};
use dewduct::thumbnail::{
    channel_thumbnail, fetch_thumbnail, narrowest_from, normalize_thumbnail_url, thumbnail_fname,
    video_thumbnail, widest, Thumbnail, CHANNEL_WIDTH, VIDEO_WIDTH,
};

fn sized(widths: &[u32]) -> Vec<Thumbnail> {
    widths
        .iter()
        .enumerate()
        .map(|(i, w)| Thumbnail { url: format!("https://t/{}", i), width: *w, height: *w / 2 })
        .collect()
}

#[test]
fn links_get_their_scheme() {
    assert_eq!(normalize_thumbnail_url("//yt3.ggpht.com/a".to_string()), "https://yt3.ggpht.com/a");
    assert_eq!(normalize_thumbnail_url("https://i.ytimg.com/b".to_string()), "https://i.ytimg.com/b");
    assert_eq!(normalize_thumbnail_url("https:".to_string()), "https:");
    assert_eq!(normalize_thumbnail_url("http://x".to_string()), "https:http://x");
    assert_eq!(normalize_thumbnail_url("".to_string()), "https:");
    assert_eq!(normalize_thumbnail_url("http".to_string()), "https:http");
}

#[test]
fn a_thumbnail_is_made_with_its_link_normalized() {
    let thumb = Thumbnail::new("//yt3.ggpht.com/a".to_string(), 176, 176);
    assert_eq!(
        thumb,
        Thumbnail { url: "https://yt3.ggpht.com/a".to_string(), width: 176, height: 176 }
    );
    assert_eq!(thumb.clone(), thumb);
}

#[test]
fn the_narrowest_that_is_wide_enough() {
    assert_eq!(VIDEO_WIDTH, 320);
    assert_eq!(CHANNEL_WIDTH, 160);
    let thumbs = sized(&[1280, 640, 120, 320, 480, 336]);
    assert_eq!(narrowest_from(&thumbs, 320), Some(3));
    assert_eq!(narrowest_from(&thumbs, 321), Some(5));
    assert_eq!(narrowest_from(&thumbs, 0), Some(2));
    assert_eq!(narrowest_from(&thumbs, 1280), Some(0));
    assert_eq!(narrowest_from(&thumbs, 1281), None);
    assert_eq!(narrowest_from(&sized(&[]), 0), None);
}

#[test]
fn of_equally_narrow_ones_the_first() {
    let thumbs = sized(&[640, 320, 320, 100, 320]);
    assert_eq!(narrowest_from(&thumbs, 320), Some(1));
    let expected = thumbs.iter().enumerate().filter(|(_, t)| t.width >= 320).min_by_key(|(_, t)| t.width);
    assert_eq!(expected.map(|(i, _)| i), Some(1));
}

#[test]
fn of_equally_wide_ones_the_last() {
    let thumbs = sized(&[100, 640, 320, 640, 20]);
    assert_eq!(widest(&thumbs), Some(3));
    let expected = thumbs.iter().enumerate().max_by_key(|(_, t)| t.width);
    assert_eq!(expected.map(|(i, _)| i), Some(3));
    assert_eq!(widest(&sized(&[7])), Some(0));
    assert_eq!(widest(&sized(&[])), None);
}

#[test]
fn the_thumbnail_of_a_video() {
    assert_eq!(video_thumbnail("vid", &sized(&[1280, 336, 320, 120])), Ok(2));
    assert_eq!(
        video_thumbnail("vid", &sized(&[319, 120])),
        Err(Error::NoThumbnails { id: "vid".to_string() })
    );
    assert_eq!(
        video_thumbnail("vid", &sized(&[])),
        Err(Error::NoThumbnails { id: "vid".to_string() })
    );
}

#[test]
fn the_thumbnail_of_a_channel() {
    assert_eq!(channel_thumbnail("UC1", &sized(&[32, 48, 176, 512, 160])), Ok(4));
    assert_eq!(channel_thumbnail("UC1", &sized(&[32, 88, 48, 88])), Ok(3));
    assert_eq!(channel_thumbnail("UC1", &sized(&[159])), Ok(0));
    assert_eq!(
        channel_thumbnail("UC1", &sized(&[])),
        Err(Error::NoThumbnails { id: "UC1".to_string() })
    );
}

#[test]
fn where_a_thumbnail_is_kept() {
    let cache = DewCache::new("/tmp/dewduct".to_string());
    assert_eq!(thumbnail_fname(&cache, "chan123", 160), "/tmp/dewduct/chan123/160.jpg");
    assert_eq!(thumbnail_fname(&cache, "v", 0), "/tmp/dewduct/v/0.jpg");
    assert_eq!(thumbnail_fname(&cache, "v", u32::MAX), "/tmp/dewduct/v/4294967295.jpg");
    assert_eq!(thumbnail_fname(&cache, "", 90), "/tmp/dewduct/90.jpg");
    let mut expected = std::path::PathBuf::from("/tmp/dewduct");
    expected.push("chan123");
    expected.push(160.to_string());
    expected.set_extension("jpg");
    assert_eq!(thumbnail_fname(&cache, "chan123", 160), expected.to_str().unwrap());
}

#[test]
fn the_lookup_of_a_thumbnail_starts_at_its_file() {
    let cache = DewCache::new("/tmp/dewduct".to_string());
    let thumb = Thumbnail::new("//i.example/vi/abc/mq.jpg".to_string(), 320, 180);
    let Step::Continue { fetch, action } = fetch_thumbnail(&cache, "abc", &thumb) else {
        panic!("a lookup starts with a question");
    };
    assert_eq!(action, Action::Probe { path: "/tmp/dewduct/abc/180.jpg".to_string() });
    assert_eq!(fetch.url(), "https://i.example/vi/abc/mq.jpg");
}
