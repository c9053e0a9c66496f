//! Paths of cache entries, written as strings with `/` between components.

use vstd::prelude::*;
use vstd::string::*;
use crate::text::{chars_of, string_of};

verus! {

/// A path that starts at the root of the file system.
pub open spec fn is_absolute(path: Seq<char>) -> bool {
    path.len() > 0 && path[0] == '/'
}

/// `path` seen from `base`: an absolute `path` stands for itself, any other one
/// is appended to `base`, with a separator between them where `base` does not
/// end in one.
pub open spec fn joined(base: Seq<char>, path: Seq<char>) -> Seq<char> {
    if is_absolute(path) {
        path
    } else if base.len() > 0 && base.last() != '/' {
        base.push('/') + path
    } else {
        base + path
    }
}

/// Joins `path` to `base`.
pub fn join(base: &str, path: &str) -> (out: String)
    ensures
        out@ == joined(base@, path@),
{
    if !path.is_empty() && path.get_char(0) == '/' {
        return path.to_owned();
    }
    let mut out = base.to_owned();
    let n = base.unicode_len();
    if n > 0 && base.get_char(n - 1) != '/' {
        out.push('/');
    }
    out.append(path);
    out
}


/// Where the last component of `p` starts: just behind its last separator.
pub open spec fn component_start(p: Seq<char>) -> int
    decreases p.len(),
{
    if p.len() == 0 || p.last() == '/' {
        p.len() as int
    } else {
        component_start(p.drop_last())
    }
}

/// The name that a path ends in. Separators at the end and components `.` are
/// passed over from the right; a path that then ends in `..`, or has nothing
/// left, has no name.
pub open spec fn final_component(p: Seq<char>) -> Option<Seq<char>>
    decreases p.len(),
{
    if p.len() == 0 {
        None
    } else if p.last() == '/' {
        final_component(p.drop_last())
    } else {
        let name = p.subrange(component_start(p), p.len() as int);
        if name == seq!['.'] {
            final_component(p.drop_last())
        } else if name == seq!['.', '.'] {
            None
        } else {
            Some(name)
        }
    }
}

/// The last component of a path holds no separator.
proof fn lemma_component_start(p: Seq<char>)
    ensures
        0 <= component_start(p) <= p.len(),
        forall|i: int| component_start(p) <= i < p.len() ==> p[i] != '/',
    decreases p.len(),
{
    if p.len() > 0 && p.last() != '/' {
        lemma_component_start(p.drop_last());
        assert forall|i: int| component_start(p) <= i < p.len() implies p[i] != '/' by {
            if i < p.len() - 1 {
                assert(p.drop_last()[i] == p[i]);
            }
        }
    }
}

/// The name that a path ends in is a name: it is not empty, holds no
/// separator, and is neither `.` nor `..`.
pub proof fn lemma_final_component_is_a_name(p: Seq<char>)
    ensures
        final_component(p) matches Some(name) ==> name.len() > 0 && !name.contains('/') && name
            != seq!['.'] && name != seq!['.', '.'],
    decreases p.len(),
{
    if p.len() > 0 {
        lemma_final_component_is_a_name(p.drop_last());
        if p.last() != '/' {
            lemma_component_start(p);
            lemma_component_start(p.drop_last());
            let name = p.subrange(component_start(p), p.len() as int);
            assert forall|i: int| 0 <= i < name.len() implies name[i] != '/' by {
                assert(name[i] == p[component_start(p) + i]);
            }
        }
    }
}

/// The start of the component of `p` that ends at `end`.
fn start_of_component(p: &Vec<char>, end: usize) -> (start: usize)
    requires
        0 < end <= p.len(),
        p[end - 1] != '/',
    ensures
        start < end,
        start == component_start(p@.take(end as int)),
{
    let mut start = end - 1;
    assert(p@.take(end as int).drop_last() =~= p@.take(start as int));
    while start > 0 && p[start - 1] != '/'
        invariant
            start < end <= p.len(),
            component_start(p@.take(end as int)) == component_start(p@.take(start as int)),
        decreases start,
    {
        assert(p@.take(start as int).drop_last() =~= p@.take(start - 1));
        start = start - 1;
    }
    start
}

/// The name that `path` ends in, if it has one.
pub fn file_name(path: &str) -> (out: Option<String>)
    ensures
        match out {
            Some(name) => final_component(path@) == Some(name@),
            None => final_component(path@) is None,
        },
{
    let p = chars_of(path);
    let mut end = p.len();
    assert(p@.take(end as int) =~= path@);
    while end > 0
        invariant
            end <= p.len(),
            final_component(path@) == final_component(p@.take(end as int)),
        decreases end,
    {
        assert(p@.take(end as int).drop_last() =~= p@.take(end - 1));
        if p[end - 1] != '/' {
            let start = start_of_component(&p, end);
            assert(p@.take(end as int).subrange(start as int, end as int) =~= p@.subrange(
                start as int,
                end as int,
            ));
            let dot = end - start == 1 && p[start] == '.';
            let dots = end - start == 2 && p[start] == '.' && p[start + 1] == '.';
            proof {
                let name = p@.subrange(start as int, end as int);
                assert(name =~= seq!['.'] ==> name[0] == '.');
                assert(name =~= seq!['.', '.'] ==> name[0] == '.' && name[1] == '.');
                assert(dot <==> name =~= seq!['.']);
                assert(dots <==> name =~= seq!['.', '.']);
            }
            if dots {
                return None;
            }
            if !dot {
                return Some(string_of(&p, start, end));
            }
        }
        end = end - 1;
    }
    None
}

} // verus!
