//! Errors, shaped so the message names the fix.

use crate::text::{append_decimal, debug_form, debug_quoted, decimal};
use vstd::prelude::*;
use vstd::string::*;

verus! {

/// What can be wrong with a backup specification or a repository's answer.
#[derive(Debug)]
pub enum Error {
    Destination { url: String, detail: String },
    NoDestinations,
    TooManyRepositories { max: usize, given: usize },
    Info(String),
    Invalid(String),
}

/// [`Error`], over text.
pub enum ErrorView {
    Destination { url: Seq<char>, detail: Seq<char> },
    NoDestinations,
    TooManyRepositories { max: nat, given: nat },
    Info(Seq<char>),
    Invalid(Seq<char>),
}

impl View for Error {
    type V = ErrorView;

    open spec fn view(&self) -> ErrorView {
        match *self {
            Error::Destination { url, detail } => ErrorView::Destination {
                url: url@,
                detail: detail@,
            },
            Error::NoDestinations => ErrorView::NoDestinations,
            Error::TooManyRepositories { max, given } => ErrorView::TooManyRepositories {
                max: max as nat,
                given: given as nat,
            },
            Error::Info(m) => ErrorView::Info(m@),
            Error::Invalid(m) => ErrorView::Invalid(m@),
        }
    }
}

/// What an error says.
pub open spec fn error_text(e: ErrorView) -> Seq<char> {
    match e {
        ErrorView::Destination { url, detail } => "backup destination "@ + debug_form(url) + ": "@
            + detail,
        ErrorView::NoDestinations => "no backup destination is configured"@,
        ErrorView::TooManyRepositories { max, given } => "pgBackRest supports at most "@ + decimal(
            max,
        ) + " repositories, but "@ + decimal(given) + " destinations are configured"@,
        ErrorView::Info(m) => "could not read pgBackRest's output: "@ + m,
        ErrorView::Invalid(m) => m,
    }
}

impl Error {
    /// The message.
    pub fn to_text(&self) -> (r: String)
        ensures
            r@ == error_text(self@),
    {
        match self {
            Error::Destination { url, detail } => {
                let mut s = "backup destination ".to_owned();
                s.append(debug_quoted(url.as_str()).as_str());
                s.append(": ");
                s.append(detail.as_str());
                s
            },
            Error::NoDestinations => "no backup destination is configured".to_owned(),
            Error::TooManyRepositories { max, given } => {
                let mut s = "pgBackRest supports at most ".to_owned();
                append_decimal(&mut s, *max as u64);
                s.append(" repositories, but ");
                append_decimal(&mut s, *given as u64);
                s.append(" destinations are configured");
                s
            },
            Error::Info(m) => {
                let mut s = "could not read pgBackRest's output: ".to_owned();
                s.append(m.as_str());
                s
            },
            Error::Invalid(m) => m.clone(),
        }
    }
}

/// What each error says: which destination and what is wrong with it, how many
/// repositories there may be and how many there are, and what was read.
pub proof fn what_each_error_says(e: Error, r: String)
    requires
        call_ensures(Error::to_text, (&e,), r),
    ensures
        e matches Error::Destination { url, detail } ==> r@ == "backup destination "@ + debug_form(
            url@,
        ) + ": "@ + detail@,
        e is NoDestinations ==> r@ == "no backup destination is configured"@,
        e matches Error::TooManyRepositories { max, given } ==> r@ == "pgBackRest supports at most "@
            + decimal(max as nat) + " repositories, but "@ + decimal(given as nat)
            + " destinations are configured"@,
        e matches Error::Info(m) ==> r@ == "could not read pgBackRest's output: "@ + m@,
        e matches Error::Invalid(m) ==> r@ == m@,
{
}

} // verus!
