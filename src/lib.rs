//! Deploy notifications: commits of a deployed range, grouped by author and
//! rendered as one chat message per author.

pub mod aggregate;
pub mod cli;
pub mod github;
pub mod heroku;
pub mod pipeline;
pub mod slack;
pub mod text;
pub mod time;

use vstd::prelude::*;

verus! {

/// A remote host's reply to one request, as read off the wire.
#[derive(Debug, Clone, PartialEq, Eq)]
pub enum Reply<T> {
    /// The host could not be reached (connection, name lookup, timeout).
    Unreachable(String),
    /// The host answered: the status, the body, and the body read as the
    /// expected document where it is one.
    Answered { status: u16, body: String, document: Option<T> },
}

/// Whether an HTTP status reports a failure: anything but a success (2xx).
pub open spec fn failure_status(status: u16) -> bool {
    !(200 <= status <= 299)
}

/// Whether an HTTP status reports a failure: anything but a success (2xx).
pub fn is_failure_status(status: u16) -> (r: bool)
    ensures
        r == failure_status(status),
{
    !(200 <= status && status <= 299)
}

/// Why a deploy notification run failed.
#[derive(Debug, Clone, PartialEq, Eq)]
pub enum EveError {
    SlackError(slack::SlackError),
    GitHubError(github::GitHubError),
    /// A commit hash shorter than its abbreviated form.
    MalformedSha(String),
    /// A commit date that is not RFC 3339, or lies too far from now.
    TimestampParse(String),
    /// The run was handed an event that it did not ask for.
    UnexpectedEvent,
}

} // verus!
