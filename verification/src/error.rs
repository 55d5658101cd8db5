//! The failures that the library reports.

use vstd::prelude::*;

verus! {

/// Why an operation did not produce its result.
#[derive(Clone, Copy, Debug, PartialEq, Eq, Structural)]
pub enum CrawlError {
    /// No usable response was obtained: the connection failed, the request
    /// ran out of time, or the body could not be read.
    Fetch,
    /// The page could not be read: a selector could not be parsed, or the
    /// document is too long for the parser.
    Parse,
    /// The proxy address does not form a proxy URI that the HTTP client
    /// accepts.
    InvalidProxy,
}

impl CrawlError {
    /// A short description of the failure.
    pub fn message(&self) -> (text: &'static str)
        ensures
            text@ == match *self {
                CrawlError::Fetch => "request failed"@,
                CrawlError::Parse => "page could not be parsed"@,
                CrawlError::InvalidProxy => "malformed proxy address"@,
            },
    {
        match self {
            CrawlError::Fetch => "request failed",
            CrawlError::Parse => "page could not be parsed",
            CrawlError::InvalidProxy => "malformed proxy address",
        }
    }
}

} // verus!
