//! The runtime's own error taxonomy. Lower-level components return these
//! typed values; only the router and the session driver ever turn one into
//! actor-visible text.

use vstd::prelude::*;
use crate::cache::CacheMiss;

verus! {

/// What can go wrong inside the dispatch core.
#[derive(Clone, Copy, Debug, PartialEq, Eq, Structural)]
pub enum Error {
    /// The event carried neither member nor user author.
    MissingInteractionAuthor,
    /// The cache lacks a member record the platform must have: an
    /// inconsistency, reported rather than silently resolved.
    MemberNotCached(CacheMiss),
    /// A command received options it does not declare.
    InvalidCommandOptions,
}

/// How a raw request can fail to parse into an invocation.
#[derive(Clone, Copy, Debug, PartialEq, Eq, Structural)]
pub enum ParseError {
    /// The message does not start with the configured prefix.
    MissingPrefix,
    /// Nothing (or only whitespace) follows the prefix.
    MissingCommand,
}

impl Error {
    /// A short operator-facing description.
    pub fn describe(&self) -> (r: &'static str)
        ensures
            *self == Error::MissingInteractionAuthor ==> r@
                == "event was expected to contain member or user but contained neither"@,
            (*self matches Error::MemberNotCached(_)) ==> r@ == "missing value in cache"@,
            *self == Error::InvalidCommandOptions ==> r@
                == "received invalid options for command"@,
    {
        match self {
            Error::MissingInteractionAuthor => {
                "event was expected to contain member or user but contained neither"
            },
            Error::MemberNotCached(_) => "missing value in cache",
            Error::InvalidCommandOptions => "received invalid options for command",
        }
    }
}

} // verus!
