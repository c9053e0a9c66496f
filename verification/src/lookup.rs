//! What a lookup comes to as a whole, and what holds of every lookup.
//!
//! The surroundings of a lookup are described by a [`World`]: the files that
//! are there and how the network answers. [`lookup`] states in one piece what
//! a lookup returns and leaves behind; [`run`] is the machine of
//! [`crate::fetch`] driven by the same world, and
//! [`lemma_run_is_lookup`] shows that the two agree.

use vstd::prelude::*;
use crate::error::{CauseView, ErrorView, FetchErrorView};
use crate::fetch::{
    advance, begun, entry_id, judged, ActionView, EventView, StageView, StepView, ATTEMPTS,
};
use crate::paths::joined;

verus! {

/// The surroundings of a lookup.
pub struct World {
    /// The entries that are there: for each path its bytes.
    pub files: Map<Seq<char>, Seq<u8>>,
    /// Whether an entry that is there can be read.
    pub readable: bool,
    /// Whether a write goes through.
    pub writable: bool,
    /// The outcome of each attempt to retrieve, by its number, counted from one.
    pub remote: spec_fn(nat) -> Result<Seq<u8>, Seq<char>>,
}

/// What a lookup comes to.
pub struct Lookup {
    /// What the caller gets.
    pub result: Result<Seq<u8>, FetchErrorView>,
    /// How often the content was asked for over the network.
    pub calls: nat,
    /// The entries that are there afterwards.
    pub files: Map<Seq<char>, Seq<u8>>,
}

/// An entry that the cache trusts: one that is there and not empty.
pub open spec fn has_valid_entry(files: Map<Seq<char>, Seq<u8>>, path: Seq<char>) -> bool {
    files.dom().contains(path) && files[path].len() > 0
}

/// A lookup that the cache answers by itself.
pub open spec fn is_hit(world: World, path: Seq<char>) -> bool {
    has_valid_entry(world.files, path) && world.readable
}

/// The files after `bytes` were written to `path`, as far as the world lets
/// them be written.
pub open spec fn persisted(world: World, path: Seq<char>, bytes: Seq<u8>) -> Map<
    Seq<char>,
    Seq<u8>,
> {
    if world.writable {
        world.files.insert(path, bytes)
    } else {
        world.files
    }
}

/// What retrieving comes to from attempt number `attempt` on.
pub open spec fn retrieve_from(world: World, path: Seq<char>, url: Seq<char>, attempt: nat) -> Lookup
    decreases ATTEMPTS - attempt,
{
    match judged(path, (world.remote)(attempt)) {
        Ok(bytes) => Lookup {
            result: Ok(bytes),
            calls: attempt,
            files: persisted(world, path, bytes),
        },
        Err(cause) => if attempt < ATTEMPTS {
            retrieve_from(world, path, url, attempt + 1)
        } else {
            Lookup { result: Err(FetchErrorView { url, cause }), calls: attempt, files: world.files }
        },
    }
}

/// What the lookup of the entry at `path`, served by `url`, comes to in
/// `world`: a valid entry that can be read is returned as it is; otherwise the
/// content is retrieved, and written to the entry once it came.
pub open spec fn lookup(world: World, path: Seq<char>, url: Seq<char>) -> Lookup {
    if is_hit(world, path) {
        Lookup { result: Ok(world.files[path]), calls: 0, files: world.files }
    } else {
        retrieve_from(world, path, url, 1)
    }
}

/// The size that is reported of an entry of `len` bytes.
pub open spec fn reported_size(len: nat) -> u64 {
    if len > u64::MAX {
        u64::MAX
    } else {
        len as u64
    }
}

/// What `world` answers to `action`.
pub open spec fn answer(world: World, action: ActionView) -> EventView {
    match action {
        ActionView::Probe { path } => EventView::Probed {
            size: if world.files.dom().contains(path) {
                Some(reported_size(world.files[path].len()))
            } else {
                None
            },
        },
        ActionView::Load { path } => EventView::Loaded {
            contents: if world.readable && world.files.dom().contains(path) {
                Some(world.files[path])
            } else {
                None
            },
        },
        ActionView::Retrieve { path, url, attempt } => EventView::Retrieved {
            outcome: (world.remote)(attempt),
        },
        ActionView::Persist { path, contents } => EventView::Persisted,
    }
}

/// The world after `action` was performed in it.
pub open spec fn after(world: World, action: ActionView) -> World {
    match action {
        ActionView::Persist { path, contents } => World {
            files: persisted(world, path, contents),
            ..world
        },
        _ => world,
    }
}

/// How many actions a lookup asks for at most: one look at the entry, one
/// read, the attempts, one write.
pub open spec fn max_actions() -> nat {
    (ATTEMPTS + 3) as nat
}

/// The machine driven in `world` from `step` on, for at most `fuel` actions,
/// after `calls` attempts: each action is performed in the world and answered
/// by it. `None` where the fuel does not reach the end.
pub open spec fn run(world: World, step: StepView, calls: nat, fuel: nat) -> Option<Lookup>
    decreases fuel,
{
    match step {
        StepView::Finished { result } => Some(Lookup { result, calls, files: world.files }),
        StepView::Continue { fetch, action } => if fuel == 0 {
            None
        } else {
            run(
                after(world, action),
                advance(fetch, answer(world, action)),
                if action is Retrieve {
                    calls + 1
                } else {
                    calls
                },
                (fuel - 1) as nat,
            )
        },
    }
}


/// The lookup of `path` waiting at `stage`.
pub open spec fn waiting_at(path: Seq<char>, url: Seq<char>, stage: StageView) -> StepView {
    crate::fetch::proceed(crate::fetch::FetchView { path, url, stage }, stage)
}

/// From an attempt on, the machine does what [`retrieve_from`] says.
proof fn lemma_run_retrieves(world: World, path: Seq<char>, url: Seq<char>, attempt: nat, fuel: nat)
    requires
        1 <= attempt <= ATTEMPTS,
        fuel >= ATTEMPTS - attempt + 2,
    ensures
        run(
            world,
            waiting_at(path, url, StageView::FetchRemote { attempt }),
            (attempt - 1) as nat,
            fuel,
        ) == Some(retrieve_from(world, path, url, attempt)),
    decreases ATTEMPTS - attempt,
{
    let step = waiting_at(path, url, StageView::FetchRemote { attempt });
    let action = ActionView::Retrieve { path, url, attempt };
    assert(step == StepView::Continue { fetch: step->fetch, action });
    let next = advance(step->fetch, answer(world, action));
    assert(run(world, step, (attempt - 1) as nat, fuel) == run(
        world,
        next,
        attempt,
        (fuel - 1) as nat,
    ));
    match judged(path, (world.remote)(attempt)) {
        Ok(bytes) => {
            let write = ActionView::Persist { path, contents: bytes };
            assert(next == waiting_at(path, url, StageView::Persist { contents: bytes }));
            let last = advance(next->fetch, answer(world, write));
            assert(last == StepView::Finished { result: Ok(bytes) });
            assert(run(world, next, attempt, (fuel - 1) as nat) == run(
                after(world, write),
                last,
                attempt,
                (fuel - 2) as nat,
            ));
        },
        Err(cause) => {
            if attempt < ATTEMPTS {
                assert(next == waiting_at(
                    path,
                    url,
                    StageView::FetchRemote { attempt: attempt + 1 },
                ));
                lemma_run_retrieves(world, path, url, attempt + 1, (fuel - 1) as nat);
            } else {
                assert(next == StepView::Finished {
                    result: Err(FetchErrorView { url, cause }),
                });
            }
        },
    }
}

/// The machine and the description agree: driven in any world from the start
/// of a lookup, the machine ends within [`max_actions`] actions, and returns
/// and leaves behind what [`lookup`] says.
pub proof fn lemma_run_is_lookup(world: World, root: Seq<char>, fname: Seq<char>, url: Seq<char>)
    ensures
        run(world, begun(root, fname, url), 0, max_actions()) == Some(
            lookup(world, joined(root, fname), url),
        ),
{
    let path = joined(root, fname);
    let fuel = max_actions();
    let start = begun(root, fname, url);
    let probe = ActionView::Probe { path };
    assert(start == waiting_at(path, url, StageView::CheckLocal));
    let probed = advance(start->fetch, answer(world, probe));
    assert(run(world, start, 0, fuel) == run(world, probed, 0, (fuel - 1) as nat));
    if has_valid_entry(world.files, path) {
        let load = ActionView::Load { path };
        assert(probed == waiting_at(path, url, StageView::ReadLocal));
        let loaded = advance(probed->fetch, answer(world, load));
        assert(run(world, probed, 0, (fuel - 1) as nat) == run(
            world,
            loaded,
            0,
            (fuel - 2) as nat,
        ));
        if world.readable {
            assert(loaded == StepView::Finished { result: Ok(world.files[path]) });
        } else {
            assert(loaded == waiting_at(path, url, StageView::FetchRemote { attempt: 1 }));
            lemma_run_retrieves(world, path, url, 1, (fuel - 2) as nat);
        }
    } else {
        assert(probed == waiting_at(path, url, StageView::FetchRemote { attempt: 1 }));
        lemma_run_retrieves(world, path, url, 1, (fuel - 1) as nat);
    }
}


/// While the attempts fail, retrieving goes on to the last one and fails on
/// it, leaving the files alone.
proof fn lemma_all_attempts_fail(world: World, path: Seq<char>, url: Seq<char>, attempt: nat)
    requires
        1 <= attempt <= ATTEMPTS,
        forall|n: nat| attempt <= n <= ATTEMPTS ==> judged(path, #[trigger] (world.remote)(n)) is Err,
    ensures
        retrieve_from(world, path, url, attempt) == (Lookup {
            result: Err(
                FetchErrorView {
                    url,
                    cause: judged(path, (world.remote)(ATTEMPTS as nat))->Err_0,
                },
            ),
            calls: ATTEMPTS as nat,
            files: world.files,
        }),
    decreases ATTEMPTS - attempt,
{
    assert(judged(path, (world.remote)(attempt)) is Err);
    if attempt < ATTEMPTS {
        lemma_all_attempts_fail(world, path, url, attempt + 1);
    }
}

/// Retry bound. Where no valid entry can be read and every attempt to
/// retrieve fails in the transport, the content is asked for exactly
/// [`ATTEMPTS`] times; the lookup then fails with what the last attempt
/// failed on, and no file has changed.
pub proof fn lemma_retry_bound(world: World, path: Seq<char>, url: Seq<char>)
    requires
        !is_hit(world, path),
        forall|n: nat| #[trigger] (world.remote)(n) is Err,
    ensures
        lookup(world, path, url) == (Lookup {
            result: Err(
                FetchErrorView {
                    url,
                    cause: CauseView::Transport {
                        message: (world.remote)(ATTEMPTS as nat)->Err_0,
                    },
                },
            ),
            calls: ATTEMPTS as nat,
            files: world.files,
        }),
{
    assert forall|n: nat| 1 <= n <= ATTEMPTS implies judged(
        path,
        #[trigger] (world.remote)(n),
    ) is Err by {
        assert((world.remote)(n) is Err);
    }
    lemma_all_attempts_fail(world, path, url, 1);
    assert((world.remote)(ATTEMPTS as nat) is Err);
}

/// Empty answers are rejected. Where no valid entry can be read and every
/// attempt brings zero bytes, the lookup fails after [`ATTEMPTS`] attempts,
/// naming the entry, and leaves no file behind: the files are what they were.
pub proof fn lemma_empty_answers_are_rejected(world: World, path: Seq<char>, url: Seq<char>)
    requires
        !is_hit(world, path),
        forall|n: nat| #[trigger] (world.remote)(n) == Ok::<Seq<u8>, Seq<char>>(Seq::empty()),
    ensures
        lookup(world, path, url) == (Lookup {
            result: Err(
                FetchErrorView {
                    url,
                    cause: CauseView::Empty {
                        err: ErrorView::NoThumbnails { id: entry_id(path) },
                    },
                },
            ),
            calls: ATTEMPTS as nat,
            files: world.files,
        }),
{
    assert forall|n: nat| 1 <= n <= ATTEMPTS implies judged(
        path,
        #[trigger] (world.remote)(n),
    ) is Err by {
        assert((world.remote)(n) == Ok::<Seq<u8>, Seq<char>>(Seq::empty()));
    }
    lemma_all_attempts_fail(world, path, url, 1);
    assert((world.remote)(ATTEMPTS as nat) == Ok::<Seq<u8>, Seq<char>>(Seq::empty()));
}

/// Retrieving stops at the first attempt that brings content.
proof fn lemma_stops_at_success(
    world: World,
    path: Seq<char>,
    url: Seq<char>,
    attempt: nat,
    success: nat,
)
    requires
        1 <= attempt <= success <= ATTEMPTS,
        forall|n: nat| attempt <= n < success ==> judged(path, #[trigger] (world.remote)(n)) is Err,
        judged(path, (world.remote)(success)) is Ok,
    ensures
        retrieve_from(world, path, url, attempt) == (Lookup {
            result: Ok(judged(path, (world.remote)(success))->Ok_0),
            calls: success,
            files: persisted(world, path, judged(path, (world.remote)(success))->Ok_0),
        }),
    decreases success - attempt,
{
    if attempt < success {
        assert(judged(path, (world.remote)(attempt)) is Err);
        lemma_stops_at_success(world, path, url, attempt + 1, success);
    }
}

/// Retry, then success. Where no valid entry can be read, the attempts before
/// number `success` fail, and that one brings `bytes`, at least one of them:
/// the lookup returns `bytes` after exactly `success` attempts, and has
/// written them to the entry, whatever was or was not there before. Where
/// the write went through, the entry is valid from then on.
pub proof fn lemma_first_content_wins(
    world: World,
    path: Seq<char>,
    url: Seq<char>,
    success: nat,
    bytes: Seq<u8>,
)
    requires
        !is_hit(world, path),
        1 <= success <= ATTEMPTS,
        forall|n: nat|
            1 <= n < success ==> (#[trigger] (world.remote)(n) is Err || (world.remote)(n)
                == Ok::<Seq<u8>, Seq<char>>(Seq::empty())),
        (world.remote)(success) == Ok::<Seq<u8>, Seq<char>>(bytes),
        bytes.len() > 0,
    ensures
        lookup(world, path, url) == (Lookup {
            result: Ok(bytes),
            calls: success,
            files: persisted(world, path, bytes),
        }),
        world.writable ==> has_valid_entry(lookup(world, path, url).files, path) && lookup(
            world,
            path,
            url,
        ).files[path] == bytes,
{
    assert forall|n: nat| 1 <= n < success implies judged(
        path,
        #[trigger] (world.remote)(n),
    ) is Err by {
        assert((world.remote)(n) is Err || (world.remote)(n) == Ok::<Seq<u8>, Seq<char>>(
            Seq::empty(),
        ));
    }
    lemma_stops_at_success(world, path, url, 1, success);
}

/// A lookup that succeeds with a write that goes through leaves a valid
/// entry that holds what it returned.
proof fn lemma_success_leaves_entry(world: World, path: Seq<char>, url: Seq<char>, attempt: nat)
    requires
        world.writable,
        attempt <= ATTEMPTS,
        retrieve_from(world, path, url, attempt).result is Ok,
    ensures
        has_valid_entry(retrieve_from(world, path, url, attempt).files, path),
        retrieve_from(world, path, url, attempt).files[path] == retrieve_from(
            world,
            path,
            url,
            attempt,
        ).result->Ok_0,
    decreases ATTEMPTS - attempt,
{
    if judged(path, (world.remote)(attempt)) is Err && attempt < ATTEMPTS {
        lemma_success_leaves_entry(world, path, url, attempt + 1);
    }
}

/// The hit path is idempotent. After a lookup that returned `bytes` in a
/// world where writes go through, a second lookup of the same entry, in any
/// world that holds the files the first one left and lets them be read,
/// returns the same bytes without a single attempt to retrieve, whatever the
/// network would answer, and changes no file.
pub proof fn lemma_second_lookup_is_local(
    world: World,
    later: World,
    path: Seq<char>,
    url: Seq<char>,
    later_url: Seq<char>,
)
    requires
        world.writable,
        lookup(world, path, url).result is Ok,
        later.files == lookup(world, path, url).files,
        later.readable,
    ensures
        lookup(later, path, later_url) == (Lookup {
            result: lookup(world, path, url).result,
            calls: 0,
            files: later.files,
        }),
{
    if !is_hit(world, path) {
        lemma_success_leaves_entry(world, path, url, 1);
    }
}

/// What retrieving returns, and after how many attempts, depends on the
/// network alone.
proof fn lemma_retrieving_ignores_files(
    world: World,
    other: World,
    path: Seq<char>,
    url: Seq<char>,
    attempt: nat,
)
    requires
        world.remote == other.remote,
        attempt <= ATTEMPTS,
    ensures
        retrieve_from(world, path, url, attempt).result == retrieve_from(
            other,
            path,
            url,
            attempt,
        ).result,
        retrieve_from(world, path, url, attempt).calls == retrieve_from(
            other,
            path,
            url,
            attempt,
        ).calls,
        attempt <= retrieve_from(world, path, url, attempt).calls <= ATTEMPTS,
    decreases ATTEMPTS - attempt,
{
    if judged(path, (world.remote)(attempt)) is Err && attempt < ATTEMPTS {
        lemma_retrieving_ignores_files(world, other, path, url, attempt + 1);
    }
}

/// An empty entry counts as none. Where the entry is there and holds zero
/// bytes, the content is retrieved, and the lookup returns what it would
/// return, after as many attempts, if the entry were not there at all.
pub proof fn lemma_empty_entry_is_absent(world: World, path: Seq<char>, url: Seq<char>)
    requires
        world.files.dom().contains(path),
        world.files[path].len() == 0,
    ensures
        lookup(world, path, url).calls >= 1,
        lookup(world, path, url).result == lookup(
            World { files: world.files.remove(path), ..world },
            path,
            url,
        ).result,
        lookup(world, path, url).calls == lookup(
            World { files: world.files.remove(path), ..world },
            path,
            url,
        ).calls,
{
    let without = World { files: world.files.remove(path), ..world };
    lemma_retrieving_ignores_files(world, without, path, url, 1);
}

/// Files under retrieving: only the entry at `path` can change, and only by
/// being written.
proof fn lemma_retrieving_keeps_files(world: World, path: Seq<char>, url: Seq<char>, attempt: nat)
    requires
        attempt <= ATTEMPTS,
    ensures
        retrieve_from(world, path, url, attempt).files == world.files || retrieve_from(
            world,
            path,
            url,
            attempt,
        ).files == world.files.insert(path, retrieve_from(world, path, url, attempt).result->Ok_0),
        retrieve_from(world, path, url, attempt).result is Err ==> retrieve_from(
            world,
            path,
            url,
            attempt,
        ).files == world.files,
        retrieve_from(world, path, url, attempt).result matches Ok(bytes) ==> bytes.len() > 0,
    decreases ATTEMPTS - attempt,
{
    if judged(path, (world.remote)(attempt)) is Err && attempt < ATTEMPTS {
        lemma_retrieving_keeps_files(world, path, url, attempt + 1);
    }
}

/// What every lookup keeps to. It asks for the content at most [`ATTEMPTS`]
/// times. It never removes an entry and never touches another entry than its
/// own. Where it fails, no file has changed; where it changes its entry, the
/// entry then holds the bytes that it returns, which are not empty.
pub proof fn lemma_lookup_is_tidy(world: World, path: Seq<char>, url: Seq<char>)
    ensures
        lookup(world, path, url).calls <= ATTEMPTS,
        world.files.dom().subset_of(lookup(world, path, url).files.dom()),
        forall|other: Seq<char>|
            other != path && world.files.dom().contains(other) ==> lookup(
                world,
                path,
                url,
            ).files[other] == world.files[other],
        forall|other: Seq<char>|
            other != path && lookup(world, path, url).files.dom().contains(other)
                ==> world.files.dom().contains(other),
        lookup(world, path, url).result is Err ==> lookup(world, path, url).files == world.files,
        lookup(world, path, url).files != world.files ==> (lookup(world, path, url).result
            matches Ok(bytes) && bytes.len() > 0 && lookup(world, path, url).files[path] == bytes),
{
    if !is_hit(world, path) {
        lemma_retrieving_keeps_files(world, path, url, 1);
        lemma_retrieving_ignores_files(world, world, path, url, 1);
    }
}

} // verus!
