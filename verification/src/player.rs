//! What the player is started with.

use vstd::prelude::*;
use vstd::string::*;

verus! {

/// The argument that keeps the player to pictures of at most 480 lines.
pub const PLAYER_FORMAT: &'static str = "--ytdl-format=best[height<=480]";

/// The address at which the video `id` is watched.
pub fn watch_url(id: &str) -> (url: String)
    ensures
        url@ == "https://youtube.com/watch?v="@ + id@,
{
    let mut url = "https://youtube.com/watch?v=".to_owned();
    url.append(id);
    url
}

} // verus!
