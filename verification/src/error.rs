//! What can go wrong while content is looked for.

use vstd::prelude::*;
use vstd::string::*;

verus! {

/// Nothing usable was found for an item.
#[derive(Debug, PartialEq, Eq)]
pub enum Error {
    /// No thumbnail could be had for the item `id`.
    NoThumbnails { id: String },
}

/// An [`Error`] as a plain value.
pub enum ErrorView {
    NoThumbnails { id: Seq<char> },
}

impl View for Error {
    type V = ErrorView;

    open spec fn view(&self) -> ErrorView {
        match *self {
            Error::NoThumbnails { id } => ErrorView::NoThumbnails { id: id@ },
        }
    }
}

/// The text of an [`Error`].
pub open spec fn err_text(err: ErrorView) -> Seq<char> {
    match err {
        ErrorView::NoThumbnails { id } => "no thumbnails found for vid ID "@ + id + " video"@,
    }
}

impl Error {
    /// The error in words.
    pub fn message(&self) -> (text: String)
        ensures
            text@ == err_text(self@),
    {
        match self {
            Error::NoThumbnails { id } => {
                let mut text = "no thumbnails found for vid ID ".to_owned();
                text.append(id.as_str());
                text.append(" video");
                text
            },
        }
    }
}

/// Why the last attempt to retrieve content failed.
#[derive(Debug, PartialEq, Eq)]
pub enum Cause {
    /// The transfer itself failed; `message` is what the transport said.
    Transport { message: String },
    /// The transfer went through and brought no bytes.
    Empty { err: Error },
}

/// A [`Cause`] as a plain value.
pub enum CauseView {
    Transport { message: Seq<char> },
    Empty { err: ErrorView },
}

impl View for Cause {
    type V = CauseView;

    open spec fn view(&self) -> CauseView {
        match *self {
            Cause::Transport { message } => CauseView::Transport { message: message@ },
            Cause::Empty { err } => CauseView::Empty { err: err@ },
        }
    }
}

/// The text of a [`Cause`].
pub open spec fn cause_text(cause: CauseView) -> Seq<char> {
    match cause {
        CauseView::Transport { message } => message,
        CauseView::Empty { err } => err_text(err),
    }
}

impl Cause {
    /// The cause in words.
    pub fn message(&self) -> (text: String)
        ensures
            text@ == cause_text(self@),
    {
        match self {
            Cause::Transport { message } => message.clone(),
            Cause::Empty { err } => err.message(),
        }
    }
}

/// Content could not be retrieved, after every attempt allowed.
#[derive(Debug, PartialEq, Eq)]
pub struct FetchError {
    /// Where the content was asked for.
    pub url: String,
    /// What the last attempt failed on.
    pub cause: Cause,
}

/// A [`FetchError`] as a plain value.
pub struct FetchErrorView {
    pub url: Seq<char>,
    pub cause: CauseView,
}

impl View for FetchError {
    type V = FetchErrorView;

    open spec fn view(&self) -> FetchErrorView {
        FetchErrorView { url: self.url@, cause: self.cause@ }
    }
}

/// The text of a [`FetchError`], without its cause.
pub open spec fn fetch_error_text(url: Seq<char>) -> Seq<char> {
    "failed to fetch url `"@ + url + "`"@
}

impl FetchError {
    /// The error in words; the cause has its own text.
    pub fn message(&self) -> (text: String)
        ensures
            text@ == fetch_error_text(self.url@),
    {
        let mut text = "failed to fetch url `".to_owned();
        text.append(self.url.as_str());
        text.append("`");
        text
    }
}

} // verus!
