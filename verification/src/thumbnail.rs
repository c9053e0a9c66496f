//! Thumbnails of videos and channels: which of the sizes on offer is shown,
//! and where the cache keeps it.

use vstd::prelude::*;
use vstd::string::*;
use crate::cache::{cache_dir, DewCache};
use crate::error::{Error, ErrorView};
use crate::fetch::{begun, Step};
use crate::paths::{is_absolute, join, joined};
use crate::text::{chars_of, decimal, push_decimal, starts_with};

verus! {

/// One size of a picture, and where it is served.
#[derive(Debug, PartialEq, Eq)]
pub struct Thumbnail {
    pub url: String,
    pub width: u32,
    pub height: u32,
}

/// A [`Thumbnail`] as a plain value.
pub struct ThumbnailView {
    pub url: Seq<char>,
    pub width: u32,
    pub height: u32,
}

impl View for Thumbnail {
    type V = ThumbnailView;

    open spec fn view(&self) -> ThumbnailView {
        ThumbnailView { url: self.url@, width: self.width, height: self.height }
    }
}

impl Clone for Thumbnail {
    fn clone(&self) -> (out: Self)
        ensures
            out@ == self@,
    {
        Thumbnail { url: self.url.clone(), width: self.width, height: self.height }
    }
}

/// The narrowest picture that is shown for a video.
pub const VIDEO_WIDTH: u32 = 320;

/// The narrowest picture that is shown for a channel, where one that wide is
/// on offer.
pub const CHANNEL_WIDTH: u32 = 160;

/// A link with its scheme: links are sometimes served from `//` on.
pub open spec fn normalized_url(url: Seq<char>) -> Seq<char> {
    if "https:"@.is_prefix_of(url) {
        url
    } else {
        "https:"@ + url
    }
}

/// Puts the scheme in front of a link that lacks it.
pub fn normalize_thumbnail_url(s: String) -> (out: String)
    ensures
        out@ == normalized_url(s@),
{
    let scheme = "https:";
    if starts_with(&chars_of(s.as_str()), &chars_of(scheme)) {
        s
    } else {
        let mut out = scheme.to_owned();
        out.append(s.as_str());
        out
    }
}

impl Thumbnail {
    /// A thumbnail as it is served: the link gets its scheme where it lacks it.
    pub fn new(url: String, width: u32, height: u32) -> (thumb: Self)
        ensures
            thumb@ == (ThumbnailView { url: normalized_url(url@), width, height }),
    {
        Thumbnail { url: normalize_thumbnail_url(url), width, height }
    }
}

/// `pick` is the first of the narrowest thumbnails that are at least `floor`
/// wide.
pub open spec fn is_narrowest_from(thumbs: Seq<Thumbnail>, floor: u32, pick: int) -> bool {
    &&& 0 <= pick < thumbs.len()
    &&& thumbs[pick].width >= floor
    &&& forall|j: int|
        0 <= j < thumbs.len() && thumbs[j].width >= floor ==> thumbs[pick].width
            <= #[trigger] thumbs[j].width
    &&& forall|j: int|
        0 <= j < pick && thumbs[j].width >= floor ==> thumbs[pick].width
            < #[trigger] thumbs[j].width
}

/// `pick` is the last of the widest thumbnails.
pub open spec fn is_widest(thumbs: Seq<Thumbnail>, pick: int) -> bool {
    &&& 0 <= pick < thumbs.len()
    &&& forall|j: int| 0 <= j < thumbs.len() ==> #[trigger] thumbs[j].width <= thumbs[pick].width
    &&& forall|j: int|
        pick < j < thumbs.len() ==> #[trigger] thumbs[j].width < thumbs[pick].width
}

/// No thumbnail is at least `floor` wide.
pub open spec fn none_from(thumbs: Seq<Thumbnail>, floor: u32) -> bool {
    forall|j: int| 0 <= j < thumbs.len() ==> #[trigger] thumbs[j].width < floor
}

/// There is one pick at most: two thumbnails that are both the first of the
/// narrowest from `floor` on are the same one, and so are two that are both
/// the last of the widest.
pub proof fn lemma_picks_are_unique(thumbs: Seq<Thumbnail>, floor: u32, i: int, j: int)
    ensures
        is_narrowest_from(thumbs, floor, i) && is_narrowest_from(thumbs, floor, j) ==> i == j,
        is_widest(thumbs, i) && is_widest(thumbs, j) ==> i == j,
        is_narrowest_from(thumbs, floor, i) ==> !none_from(thumbs, floor),
{
    if is_narrowest_from(thumbs, floor, i) && is_narrowest_from(thumbs, floor, j) && i != j {
        if i < j {
            assert(thumbs[j].width < thumbs[i].width);
            assert(thumbs[i].width <= thumbs[j].width);
        } else {
            assert(thumbs[i].width < thumbs[j].width);
            assert(thumbs[j].width <= thumbs[i].width);
        }
    }
    if is_widest(thumbs, i) && is_widest(thumbs, j) && i != j {
        if i < j {
            assert(thumbs[j].width < thumbs[i].width);
            assert(thumbs[i].width <= thumbs[j].width);
        } else {
            assert(thumbs[i].width < thumbs[j].width);
            assert(thumbs[j].width <= thumbs[i].width);
        }
    }
    if is_narrowest_from(thumbs, floor, i) {
        assert(thumbs[i].width >= floor);
    }
}

/// The place of the narrowest thumbnail that is at least `floor` wide, the
/// first of them where several are as narrow; `None` where none is that
/// wide.
pub fn narrowest_from(thumbs: &Vec<Thumbnail>, floor: u32) -> (pick: Option<usize>)
    ensures
        match pick {
            Some(i) => is_narrowest_from(thumbs@, floor, i as int),
            None => none_from(thumbs@, floor),
        },
{
    let mut pick: Option<usize> = None;
    let mut i: usize = 0;
    while i < thumbs.len()
        invariant
            i <= thumbs.len(),
            match pick {
                Some(p) => p < i && is_narrowest_from(thumbs@.take(i as int), floor, p as int),
                None => none_from(thumbs@.take(i as int), floor),
            },
        decreases thumbs.len() - i,
    {
        let width = thumbs[i].width;
        let better = width >= floor && match pick {
            Some(p) => width < thumbs[p].width,
            None => true,
        };
        if better {
            pick = Some(i);
        }
        i = i + 1;
    }
    assert(thumbs@.take(i as int) =~= thumbs@);
    pick
}

/// The place of the widest thumbnail, the last of them where several are as
/// wide; `None` where there is no thumbnail.
pub fn widest(thumbs: &Vec<Thumbnail>) -> (pick: Option<usize>)
    ensures
        match pick {
            Some(i) => is_widest(thumbs@, i as int),
            None => thumbs@.len() == 0,
        },
{
    if thumbs.len() == 0 {
        return None;
    }
    let mut pick: usize = 0;
    let mut i: usize = 1;
    while i < thumbs.len()
        invariant
            pick < i <= thumbs.len(),
            forall|j: int| 0 <= j < i ==> #[trigger] thumbs@[j].width <= thumbs@[pick as int].width,
            forall|j: int| pick < j < i ==> #[trigger] thumbs@[j].width < thumbs@[pick as int].width,
        decreases thumbs.len() - i,
    {
        if thumbs[i].width >= thumbs[pick].width {
            pick = i;
        }
        i = i + 1;
    }
    Some(pick)
}


/// Picks the thumbnail that is shown for the video `id`: the narrowest that is
/// at least [`VIDEO_WIDTH`] wide. A video without one has no thumbnail.
pub fn video_thumbnail(id: &str, thumbs: &Vec<Thumbnail>) -> (pick: Result<usize, Error>)
    ensures
        match pick {
            Ok(i) => is_narrowest_from(thumbs@, VIDEO_WIDTH, i as int),
            Err(err) => none_from(thumbs@, VIDEO_WIDTH) && err@ == (ErrorView::NoThumbnails {
                id: id@,
            }),
        },
{
    match narrowest_from(thumbs, VIDEO_WIDTH) {
        Some(i) => Ok(i),
        None => Err(Error::NoThumbnails { id: id.to_owned() }),
    }
}

/// Picks the thumbnail that is shown for the channel `id`: the narrowest that
/// is at least [`CHANNEL_WIDTH`] wide, or the widest there is where none is
/// that wide. Only a channel with no thumbnail at all has none.
pub fn channel_thumbnail(id: &str, thumbs: &Vec<Thumbnail>) -> (pick: Result<usize, Error>)
    ensures
        match pick {
            Ok(i) => is_narrowest_from(thumbs@, CHANNEL_WIDTH, i as int) || (none_from(
                thumbs@,
                CHANNEL_WIDTH,
            ) && is_widest(thumbs@, i as int)),
            Err(err) => thumbs@.len() == 0 && err@ == (ErrorView::NoThumbnails { id: id@ }),
        },
{
    match narrowest_from(thumbs, CHANNEL_WIDTH) {
        Some(i) => Ok(i),
        None => match widest(thumbs) {
            Some(i) => Ok(i),
            None => Err(Error::NoThumbnails { id: id.to_owned() }),
        },
    }
}

/// Where the cache rooted at `root` keeps the thumbnail of height `height` of
/// the item `id`: in the directory of the item, under the height as its name.
pub open spec fn thumbnail_path(root: Seq<char>, id: Seq<char>, height: u32) -> Seq<char> {
    joined(joined(root, id), decimal(height as nat) + ".jpg"@)
}

/// The file of `cache` that holds the thumbnail of height `height` of the item
/// `id`.
pub fn thumbnail_fname(cache: &DewCache, id: &str, height: u32) -> (fname: String)
    ensures
        fname@ == thumbnail_path(cache@, id@, height),
{
    let dir = cache_dir(cache, id);
    let mut name = String::new();
    push_decimal(&mut name, height as u64);
    name.append(".jpg");
    assert(name@ =~= decimal(height as nat) + ".jpg"@);
    join(dir.as_str(), name.as_str())
}


/// Begins the lookup of the picture `thumb` of the item `id` in `cache`. The
/// entry is named by the whole path of the file, so in a cache with an
/// absolute root it is that file.
pub fn fetch_thumbnail(cache: &DewCache, id: &str, thumb: &Thumbnail) -> (next: Step)
    ensures
        next@ == begun(cache@, thumbnail_path(cache@, id@, thumb.height), thumb.url@),
        is_absolute(cache@) ==> joined(cache@, thumbnail_path(cache@, id@, thumb.height))
            == thumbnail_path(cache@, id@, thumb.height),
{
    let fname = thumbnail_fname(cache, id, thumb.height);
    cache.fetch_remote(fname.as_str(), thumb.url.as_str())
}

} // verus!
