//! The asset cache: a directory under which every entry lives, each at the
//! cache's root joined with the entry's relative path.

use vstd::prelude::*;
use vstd::string::*;
use crate::paths::{is_absolute, join, joined};

verus! {

/// The directory under the system's temporary directory that holds the cache
/// when no other root is given.
pub const PKGNAME: &'static str = "dewduct";

/// A cache rooted at one directory. The root never changes.
pub struct DewCache {
    /// Root location of the cache files.
    dir: String,
}

impl View for DewCache {
    type V = Seq<char>;

    /// The root, as a path.
    closed spec fn view(&self) -> Seq<char> {
        self.dir@
    }
}

impl Clone for DewCache {
    fn clone(&self) -> (out: Self)
        ensures
            out@ == self@,
    {
        DewCache { dir: self.dir.clone() }
    }
}

impl DewCache {
    /// A cache rooted at `dir`.
    pub fn new(dir: String) -> (cache: Self)
        ensures
            cache@ == dir@,
    {
        DewCache { dir }
    }

    /// The cache at its usual place: the directory named after the package
    /// under `tmp_dir`, the system's directory for temporary files.
    pub fn in_tmp_dir(tmp_dir: &str) -> (cache: Self)
        ensures
            cache@ == joined(tmp_dir@, PKGNAME@),
    {
        DewCache { dir: join(tmp_dir, PKGNAME) }
    }

    /// The root of the cache.
    pub fn dir(&self) -> (dir: &String)
        ensures
            dir@ == self@,
    {
        &self.dir
    }
}

/// Where the entry `fname` of `cache` lives: the root joined with `fname`. An
/// entry with a relative name lives under the root.
pub fn cache_dir(cache: &DewCache, fname: &str) -> (dir: String)
    ensures
        dir@ == joined(cache@, fname@),
        !is_absolute(fname@) ==> cache@.is_prefix_of(dir@),
{
    join(cache.dir().as_str(), fname)
}

} // verus!
