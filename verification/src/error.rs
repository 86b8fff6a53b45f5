//! The failures of resolving a link.

use vstd::prelude::*;

verus! {

/// What the code-intelligence service reported as absent.
#[derive(Clone, Copy, Debug, PartialEq, Eq, Structural)]
pub enum Missing {
    /// No repository of the given name.
    Repository,
    /// The repository has no such revision.
    Revision,
    /// The revision has no such file.
    File,
}

/// Why a link could not be turned into a resolved reference.
#[derive(Clone, Copy, Debug, PartialEq, Eq, Structural)]
pub enum LinkError {
    /// The link does not fall into a remote part and a path part around one
    /// `/-/`, or its remote is empty.
    MalformedReference,
    /// The path part holds more than one `?`.
    TooManyQueryMarkers,
    /// The service answered without any data.
    NoData,
    /// The service answered, and what was asked for is not there.
    NotFound(Missing),
    /// The service did not answer in time.
    LookupTimeout,
    /// The request did not reach the service, or its answer did not arrive.
    Transport,
}

/// Whether asking again may succeed where `error` came back.
pub open spec fn retryable(error: LinkError) -> bool {
    error == LinkError::LookupTimeout || error == LinkError::Transport
}

impl LinkError {
    /// Whether the same request may succeed when made again: so for a timeout
    /// and a transport failure, and for nothing else.
    pub fn is_retryable(&self) -> (r: bool)
        ensures
            r == retryable(*self),
    {
        match self {
            LinkError::LookupTimeout => true,
            LinkError::Transport => true,
            _ => false,
        }
    }

    /// The text shown for this error.
    pub open spec fn message_text(self) -> Seq<char> {
        match self {
            LinkError::MalformedReference => "Expected url to be split by /-/"@,
            LinkError::TooManyQueryMarkers => "Too many question marks. Please don't do that"@,
            LinkError::NoData => "No data"@,
            LinkError::NotFound(Missing::Repository) => "No matching repository found"@,
            LinkError::NotFound(Missing::Revision) => "No matching commit found"@,
            LinkError::NotFound(Missing::File) => "No matching File"@,
            LinkError::LookupTimeout => "Lookup timed out"@,
            LinkError::Transport => "Request failed"@,
        }
    }

    /// The text shown for this error.
    pub fn message(&self) -> (r: &'static str)
        ensures
            r@ == self.message_text(),
    {
        match self {
            LinkError::MalformedReference => "Expected url to be split by /-/",
            LinkError::TooManyQueryMarkers => "Too many question marks. Please don't do that",
            LinkError::NoData => "No data",
            LinkError::NotFound(Missing::Repository) => "No matching repository found",
            LinkError::NotFound(Missing::Revision) => "No matching commit found",
            LinkError::NotFound(Missing::File) => "No matching File",
            LinkError::LookupTimeout => "Lookup timed out",
            LinkError::Transport => "Request failed",
        }
    }
}

} // verus!
