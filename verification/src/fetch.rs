//! One lookup in the cache, as a machine that never touches the disk or the
//! network itself. It asks for one [`Action`] at a time; whoever drives it
//! performs the action and reports what came of it as an [`Event`].
//!
//! A lookup first asks for the size of the entry. An entry that is there and
//! not empty is read and returned. In every other case the content is
//! retrieved, at most [`ATTEMPTS`] times, and what is retrieved is written to
//! the entry before it is returned.

use vstd::prelude::*;
use vstd::string::*;
use crate::cache::{cache_dir, DewCache};
use crate::error::{Cause, CauseView, Error, ErrorView, FetchError, FetchErrorView};
use crate::paths::{file_name, final_component, joined};

verus! {

/// How often the content of one entry is asked for at most: once, and three
/// more times while the attempts fail.
pub const ATTEMPTS: u8 = 4;

/// What the driver reports back.
#[derive(Debug, PartialEq, Eq)]
pub enum Event {
    /// The entry was looked at: `size` is its length in bytes, `None` where
    /// there is no entry or it cannot be looked at.
    Probed { size: Option<u64> },
    /// The entry was read: `contents` is what it holds, `None` where it could
    /// not be read.
    Loaded { contents: Option<Vec<u8>> },
    /// One attempt to retrieve the content ended: with the bytes that came, or
    /// with what the transport said of its failure.
    Retrieved { outcome: Result<Vec<u8>, String> },
    /// The write to the entry ended, well or not.
    Persisted,
}

/// An [`Event`] as a plain value.
pub enum EventView {
    Probed { size: Option<u64> },
    Loaded { contents: Option<Seq<u8>> },
    Retrieved { outcome: Result<Seq<u8>, Seq<char>> },
    Persisted,
}

/// The outcome of an attempt as a plain value.
pub open spec fn outcome_view(outcome: Result<Vec<u8>, String>) -> Result<Seq<u8>, Seq<char>> {
    match outcome {
        Ok(bytes) => Ok(bytes@),
        Err(message) => Err(message@),
    }
}

impl View for Event {
    type V = EventView;

    open spec fn view(&self) -> EventView {
        match *self {
            Event::Probed { size } => EventView::Probed { size },
            Event::Loaded { contents } => EventView::Loaded {
                contents: match contents {
                    Some(bytes) => Some(bytes@),
                    None => None,
                },
            },
            Event::Retrieved { outcome } => EventView::Retrieved { outcome: outcome_view(outcome) },
            Event::Persisted => EventView::Persisted,
        }
    }
}

/// What the driver is asked to do.
#[derive(Debug, PartialEq, Eq)]
pub enum Action {
    /// Look at the entry at `path` and report its size.
    Probe { path: String },
    /// Read the entry at `path` and report what it holds.
    Load { path: String },
    /// Retrieve the content for the entry at `path` from `url` and report the
    /// outcome. This is attempt number `attempt`, counted from one.
    Retrieve { path: String, url: String, attempt: u8 },
    /// Create the directories above `path` that are missing, write `contents`
    /// to `path`, and report that this ended. A failure is the driver's to
    /// note: the lookup succeeds without the write.
    Persist { path: String, contents: Vec<u8> },
}

/// An [`Action`] as a plain value.
pub enum ActionView {
    Probe { path: Seq<char> },
    Load { path: Seq<char> },
    Retrieve { path: Seq<char>, url: Seq<char>, attempt: nat },
    Persist { path: Seq<char>, contents: Seq<u8> },
}

impl View for Action {
    type V = ActionView;

    open spec fn view(&self) -> ActionView {
        match *self {
            Action::Probe { path } => ActionView::Probe { path: path@ },
            Action::Load { path } => ActionView::Load { path: path@ },
            Action::Retrieve { path, url, attempt } => ActionView::Retrieve {
                path: path@,
                url: url@,
                attempt: attempt as nat,
            },
            Action::Persist { path, contents } => ActionView::Persist {
                path: path@,
                contents: contents@,
            },
        }
    }
}

/// Where a lookup stands: which answer it waits for.
#[derive(Debug, PartialEq, Eq)]
pub enum Stage {
    /// The size of the entry.
    CheckLocal,
    /// The contents of the entry.
    ReadLocal,
    /// The outcome of attempt number `attempt`.
    FetchRemote { attempt: u8 },
    /// The end of the write of `contents`, which were retrieved.
    Persist { contents: Vec<u8> },
}

/// A [`Stage`] as a plain value.
pub enum StageView {
    CheckLocal,
    ReadLocal,
    FetchRemote { attempt: nat },
    Persist { contents: Seq<u8> },
}

impl View for Stage {
    type V = StageView;

    open spec fn view(&self) -> StageView {
        match *self {
            Stage::CheckLocal => StageView::CheckLocal,
            Stage::ReadLocal => StageView::ReadLocal,
            Stage::FetchRemote { attempt } => StageView::FetchRemote { attempt: attempt as nat },
            Stage::Persist { contents } => StageView::Persist { contents: contents@ },
        }
    }
}

/// A lookup under way.
#[derive(Debug)]
pub struct Fetch {
    /// Where the entry lives.
    path: String,
    /// Where its content is retrieved from.
    url: String,
    stage: Stage,
}

/// A [`Fetch`] as a plain value.
pub struct FetchView {
    pub path: Seq<char>,
    pub url: Seq<char>,
    pub stage: StageView,
}

impl View for Fetch {
    type V = FetchView;

    closed spec fn view(&self) -> FetchView {
        FetchView { path: self.path@, url: self.url@, stage: self.stage@ }
    }
}

/// How a lookup goes on.
#[derive(Debug)]
pub enum Step {
    /// The lookup waits: perform `action` and hand the event to `fetch`.
    Continue { fetch: Fetch, action: Action },
    /// The lookup is over, with the content or with the last failure.
    Finished { result: Result<Vec<u8>, FetchError> },
}

/// A [`Step`] as a plain value.
pub enum StepView {
    Continue { fetch: FetchView, action: ActionView },
    Finished { result: Result<Seq<u8>, FetchErrorView> },
}

/// The result of a lookup as a plain value.
pub open spec fn result_view(result: Result<Vec<u8>, FetchError>) -> Result<
    Seq<u8>,
    FetchErrorView,
> {
    match result {
        Ok(bytes) => Ok(bytes@),
        Err(error) => Err(error@),
    }
}

impl View for Step {
    type V = StepView;

    open spec fn view(&self) -> StepView {
        match *self {
            Step::Continue { fetch, action } => StepView::Continue {
                fetch: fetch@,
                action: action@,
            },
            Step::Finished { result } => StepView::Finished { result: result_view(result) },
        }
    }
}

/// An entry counts only if it is there and holds at least one byte: a write
/// that was cut short leaves nothing that is trusted.
pub open spec fn is_valid_entry(size: Option<u64>) -> bool {
    size matches Some(n) && n != 0
}

/// The name under which a failure speaks of the entry at `path`: the name that
/// the path ends in, or the whole path where it ends in none.
pub open spec fn entry_id(path: Seq<char>) -> Seq<char> {
    match final_component(path) {
        Some(name) => name,
        None => path,
    }
}

/// What one attempt for the entry at `path` comes to: bytes only if at least
/// one came. An empty answer is a failure like any other.
pub open spec fn judged(path: Seq<char>, outcome: Result<Seq<u8>, Seq<char>>) -> Result<
    Seq<u8>,
    CauseView,
> {
    match outcome {
        Ok(bytes) => if bytes.len() == 0 {
            Err(CauseView::Empty { err: ErrorView::NoThumbnails { id: entry_id(path) } })
        } else {
            Ok(bytes)
        },
        Err(message) => Err(CauseView::Transport { message }),
    }
}

/// The verdict on an attempt as a plain value.
pub open spec fn verdict_view(verdict: Result<Vec<u8>, Cause>) -> Result<Seq<u8>, CauseView> {
    match verdict {
        Ok(bytes) => Ok(bytes@),
        Err(cause) => Err(cause@),
    }
}

/// Judges the outcome of one attempt for the entry at `path`.
pub fn judge(path: &str, outcome: Result<Vec<u8>, String>) -> (verdict: Result<Vec<u8>, Cause>)
    ensures
        verdict_view(verdict) == judged(path@, outcome_view(outcome)),
{
    match outcome {
        Ok(bytes) => {
            if bytes.len() == 0 {
                let id = match file_name(path) {
                    Some(name) => name,
                    None => path.to_owned(),
                };
                Err(Cause::Empty { err: Error::NoThumbnails { id } })
            } else {
                Ok(bytes)
            }
        },
        Err(message) => Err(Cause::Transport { message }),
    }
}

/// The action that a lookup waits on.
pub open spec fn pending(fetch: FetchView) -> ActionView {
    match fetch.stage {
        StageView::CheckLocal => ActionView::Probe { path: fetch.path },
        StageView::ReadLocal => ActionView::Load { path: fetch.path },
        StageView::FetchRemote { attempt } => ActionView::Retrieve {
            path: fetch.path,
            url: fetch.url,
            attempt,
        },
        StageView::Persist { contents } => ActionView::Persist { path: fetch.path, contents },
    }
}

/// The lookup `fetch` moved to `stage`, asking for what that stage waits on.
pub open spec fn proceed(fetch: FetchView, stage: StageView) -> StepView {
    let next = FetchView { stage, ..fetch };
    StepView::Continue { fetch: next, action: pending(next) }
}

/// The start of a lookup of `fname` in the cache rooted at `root`.
pub open spec fn begun(root: Seq<char>, fname: Seq<char>, url: Seq<char>) -> StepView {
    proceed(
        FetchView { path: joined(root, fname), url, stage: StageView::CheckLocal },
        StageView::CheckLocal,
    )
}

/// How the lookup `fetch` goes on after `event`. An event that does not answer
/// what the lookup waits on changes nothing: the same action is asked again.
pub open spec fn advance(fetch: FetchView, event: EventView) -> StepView {
    match (fetch.stage, event) {
        (StageView::CheckLocal, EventView::Probed { size }) => if is_valid_entry(size) {
            proceed(fetch, StageView::ReadLocal)
        } else {
            proceed(fetch, StageView::FetchRemote { attempt: 1 })
        },
        (StageView::ReadLocal, EventView::Loaded { contents: Some(bytes) }) => StepView::Finished {
            result: Ok(bytes),
        },
        (StageView::ReadLocal, EventView::Loaded { contents: None }) => proceed(
            fetch,
            StageView::FetchRemote { attempt: 1 },
        ),
        (StageView::FetchRemote { attempt }, EventView::Retrieved { outcome }) => match judged(
            fetch.path,
            outcome,
        ) {
            Ok(bytes) => proceed(fetch, StageView::Persist { contents: bytes }),
            Err(cause) => if attempt < ATTEMPTS {
                proceed(fetch, StageView::FetchRemote { attempt: attempt + 1 })
            } else {
                StepView::Finished { result: Err(FetchErrorView { url: fetch.url, cause }) }
            },
        },
        (StageView::Persist { contents }, EventView::Persisted) => StepView::Finished {
            result: Ok(contents),
        },
        _ => proceed(fetch, fetch.stage),
    }
}

/// What holds of a lookup at every step: its attempts are numbered from one to
/// [`ATTEMPTS`], and what it has written is not empty.
pub open spec fn is_sound(fetch: FetchView) -> bool {
    match fetch.stage {
        StageView::FetchRemote { attempt } => 1 <= attempt <= ATTEMPTS,
        StageView::Persist { contents } => contents.len() > 0,
        _ => true,
    }
}

/// Every step keeps a lookup sound: a lookup starts sound, and from a sound
/// lookup no event leads to one that is not. So the content is never asked for
/// more than [`ATTEMPTS`] times, whatever events come in, and an empty answer is
/// never written.
pub proof fn lemma_steps_keep_sound(fetch: FetchView, event: EventView)
    requires
        is_sound(fetch),
    ensures
        advance(fetch, event) matches StepView::Continue { fetch: next, action } ==> is_sound(next)
            && action == pending(next) && next.path == fetch.path && next.url == fetch.url,
{
}

/// Whether `event` answers the action that `fetch` waits on.
pub open spec fn answers(event: EventView, fetch: FetchView) -> bool {
    match fetch.stage {
        StageView::CheckLocal => event is Probed,
        StageView::ReadLocal => event is Loaded,
        StageView::FetchRemote { .. } => event is Retrieved,
        StageView::Persist { .. } => event is Persisted,
    }
}

/// How many actions a lookup asks for at most before it ends, the one that it
/// waits on included.
pub open spec fn actions_left(fetch: FetchView) -> nat {
    match fetch.stage {
        StageView::CheckLocal => (ATTEMPTS + 3) as nat,
        StageView::ReadLocal => (ATTEMPTS + 2) as nat,
        StageView::FetchRemote { attempt } => (ATTEMPTS - attempt + 2) as nat,
        StageView::Persist { .. } => 1,
    }
}

/// No lookup goes on for ever: every event that answers what a sound lookup
/// waits on either ends the lookup or leaves it with fewer actions to ask
/// for. An event that answers nothing leaves the lookup where it is.
pub proof fn lemma_answers_bring_the_end_nearer(fetch: FetchView, event: EventView)
    requires
        is_sound(fetch),
    ensures
        answers(event, fetch) ==> (advance(fetch, event) matches StepView::Continue {
            fetch: next,
            ..
        } ==> actions_left(next) < actions_left(fetch)),
        !answers(event, fetch) ==> advance(fetch, event) == proceed(fetch, fetch.stage),
{
}

/// The lookup of `path` at `stage`, and the action it waits on.
fn waiting(path: String, url: String, stage: Stage) -> (next: Step)
    requires
        is_sound(FetchView { path: path@, url: url@, stage: stage@ }),
    ensures
        next@ == proceed(
            FetchView { path: path@, url: url@, stage: stage@ },
            stage@,
        ),
{
    let action = match &stage {
        Stage::CheckLocal => Action::Probe { path: path.clone() },
        Stage::ReadLocal => Action::Load { path: path.clone() },
        Stage::FetchRemote { attempt } => Action::Retrieve {
            path: path.clone(),
            url: url.clone(),
            attempt: *attempt,
        },
        Stage::Persist { contents } => Action::Persist {
            path: path.clone(),
            contents: contents.clone(),
        },
    };
    Step::Continue { fetch: Fetch { path, url, stage }, action }
}

impl DewCache {
    /// Begins the lookup of the entry `fname`, whose content `url` serves. The
    /// first thing asked for is the size of the entry at the root joined with
    /// `fname`.
    pub fn fetch_remote(&self, fname: &str, url: &str) -> (next: Step)
        ensures
            next@ == begun(self@, fname@, url@),
            next@ matches StepView::Continue { fetch, .. } && is_sound(fetch),
    {
        waiting(cache_dir(self, fname), url.to_owned(), Stage::CheckLocal)
    }
}

impl Fetch {
    #[verifier::type_invariant]
    spec fn sound(self) -> bool {
        is_sound(self@)
    }

    /// Where the entry lives.
    pub fn path(&self) -> (path: &String)
        ensures
            path@ == self@.path,
    {
        &self.path
    }

    /// Where the content is retrieved from.
    pub fn url(&self) -> (url: &String)
        ensures
            url@ == self@.url,
    {
        &self.url
    }

    /// Where the lookup stands.
    pub fn stage(&self) -> (stage: &Stage)
        ensures
            stage@ == self@.stage,
            is_sound(self@),
    {
        proof {
            use_type_invariant(self);
        }
        &self.stage
    }

    /// Takes the lookup one step on: `event` is what came of the action that
    /// was asked for.
    pub fn step(self, event: Event) -> (next: Step)
        ensures
            next@ == advance(self@, event@),
            next@ matches StepView::Continue { fetch, .. } ==> is_sound(fetch),
    {
        proof {
            use_type_invariant(&self);
        }
        let Fetch { path, url, stage } = self;
        match (stage, event) {
            (Stage::CheckLocal, Event::Probed { size }) => {
                let valid = match size {
                    Some(n) => n != 0,
                    None => false,
                };
                if valid {
                    waiting(path, url, Stage::ReadLocal)
                } else {
                    waiting(path, url, Stage::FetchRemote { attempt: 1 })
                }
            },
            (Stage::ReadLocal, Event::Loaded { contents: Some(bytes) }) => Step::Finished {
                result: Ok(bytes),
            },
            (Stage::ReadLocal, Event::Loaded { contents: None }) => waiting(
                path,
                url,
                Stage::FetchRemote { attempt: 1 },
            ),
            (Stage::FetchRemote { attempt }, Event::Retrieved { outcome }) => {
                match judge(path.as_str(), outcome) {
                    Ok(bytes) => waiting(path, url, Stage::Persist { contents: bytes }),
                    Err(cause) => {
                        if attempt < ATTEMPTS {
                            waiting(path, url, Stage::FetchRemote { attempt: attempt + 1 })
                        } else {
                            Step::Finished { result: Err(FetchError { url, cause }) }
                        }
                    },
                }
            },
            (Stage::Persist { contents }, Event::Persisted) => Step::Finished {
                result: Ok(contents),
            },
            (stage, _) => waiting(path, url, stage),
        }
    }
}

} // verus!
