//! The rules of DewDuct, a desktop client for Invidious, apart from its
//! windows: the cache that keeps pictures on disk, and what is worked out
//! around it.
//!
//! The heart is the asset cache. [`cache`] holds the cache and the paths of
//! its entries, [`fetch`] the lookup of one entry as a machine that leaves
//! disk and network to whoever drives it, and [`lookup`] what such a lookup
//! comes to as a whole, with what is proved of it. [`thumbnail`] picks the
//! picture to show and names its file, [`labels`] writes the short texts
//! beside a video, [`subscriptions`] reads lists of subscriptions, [`search`]
//! builds queries, and [`player`] the address a video is played from.

pub mod cache;
pub mod error;
pub mod fetch;
pub mod labels;
pub mod lookup;
pub mod paths;
pub mod player;
pub mod search;
pub mod subscriptions;
pub mod text;
pub mod thumbnail;
