//! The two error categories of the pipeline.
//!
//! A [`SearchError`] is fatal: the search phase fails as a whole and no
//! partial list is handed out. A [`FetchError`] concerns one repository
//! only: that repository is left out of the report and the others go on.

use vstd::prelude::*;

verus! {

/// Why the repository search was abandoned.
#[derive(Debug, Clone, Copy, PartialEq, Eq, Structural)]
pub enum SearchError {
    /// The search address built from the language is no absolute URL.
    InvalidSearchUrl,
    /// The request could not be sent or no response came back.
    Transport,
    /// The provider answered with a status other than 200.
    Status(u16),
    /// The response carries no `Link` header.
    MissingLinkHeader,
    /// The `Link` header holds bytes outside visible ASCII.
    UnreadableLinkHeader,
    /// The body is no search page.
    MalformedBody,
}

/// Why the contributors of one repository could not be had.
#[derive(Debug, Clone, Copy, PartialEq, Eq, Structural)]
pub enum FetchError {
    /// The contributors address of the repository is no absolute URL.
    InvalidUrl,
    /// The request could not be sent or no response came back.
    Transport,
    /// The provider answered with a status other than 200.
    Status(u16),
    /// The body is no list of contributors.
    MalformedBody,
}

impl SearchError {
    /// A short description for reports.
    pub fn message(&self) -> (text: &'static str)
        ensures
            text@ == match *self {
                SearchError::InvalidSearchUrl => "search address is not a valid URL"@,
                SearchError::Transport => "search request failed"@,
                SearchError::Status(_) => "search request answered with an invalid status code"@,
                SearchError::MissingLinkHeader => "no \"link\" key in headers"@,
                SearchError::UnreadableLinkHeader => "\"link\" header is not visible ASCII"@,
                SearchError::MalformedBody => "search response body could not be decoded"@,
            },
    {
        match self {
            SearchError::InvalidSearchUrl => "search address is not a valid URL",
            SearchError::Transport => "search request failed",
            SearchError::Status(_) => "search request answered with an invalid status code",
            SearchError::MissingLinkHeader => "no \"link\" key in headers",
            SearchError::UnreadableLinkHeader => "\"link\" header is not visible ASCII",
            SearchError::MalformedBody => "search response body could not be decoded",
        }
    }
}

impl FetchError {
    /// A short description for reports.
    pub fn message(&self) -> (text: &'static str)
        ensures
            text@ == match *self {
                FetchError::InvalidUrl => "contributors address is not a valid URL"@,
                FetchError::Transport => "contributors request failed"@,
                FetchError::Status(_) => "contributors request answered with an invalid status code"@,
                FetchError::MalformedBody => "contributors response body could not be decoded"@,
            },
    {
        match self {
            FetchError::InvalidUrl => "contributors address is not a valid URL",
            FetchError::Transport => "contributors request failed",
            FetchError::Status(_) => "contributors request answered with an invalid status code",
            FetchError::MalformedBody => "contributors response body could not be decoded",
        }
    }
}

} // verus!
