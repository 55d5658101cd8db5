//! Fetching a page, directly or through a proxy.
//!
//! A fetch succeeds when a body was obtained, whatever the status of the
//! response: unlike the validation of a proxy it does not look at the
//! status. That the page cannot be reached is passed on to the caller.

use crate::client::build_request;
use crate::client::proxy_usable;
use crate::client::request_for;
use crate::client::view_of;
use crate::client::Outcome;
use crate::client::Request;
use crate::error::CrawlError;
use crate::validator::probe_request_for;
use vstd::prelude::*;
use vstd::string::StrSliceExecFns;

verus! {

/// The time in seconds that fetching a page may take.
pub const CRAWL_TIMEOUT_SECS: u64 = 10;

/// The number of characters of a page that a preview shows.
pub const PREVIEW_CHARS: usize = 200;

/// Describes the request for a page: a GET to `url` that may take ten
/// seconds and whose body is read, with all traffic routed through the
/// plain HTTP proxy at `proxy` if one is given. A proxy address that does
/// not form a proxy URI is reported as [`CrawlError::InvalidProxy`].
pub fn crawl_request(url: &str, proxy: Option<&str>) -> (r: Result<Request, CrawlError>)
    ensures
        match r {
            Ok(request) => proxy_usable(view_of(proxy)) && request@ == request_for(
                url@,
                view_of(proxy),
                Some(CRAWL_TIMEOUT_SECS),
                true,
            ),
            Err(e) => !proxy_usable(view_of(proxy)) && e == CrawlError::InvalidProxy,
        },
{
    build_request(url, proxy, Some(CRAWL_TIMEOUT_SECS), true)
}

/// What a fetch comes to: the body where the outcome carries one, and
/// the failure otherwise.
pub open spec fn fetched(outcome: Outcome) -> Result<String, CrawlError> {
    match outcome {
        Outcome::Response { status, body: Some(text) } => Ok(text),
        _ => Err(CrawlError::Fetch),
    }
}

/// Concludes a fetch from the outcome of the [`crawl_request`]: the body
/// of the response as it arrived, for every status. Where no response was
/// obtained, or its body could not be read, the failure is passed on as
/// [`CrawlError::Fetch`].
pub fn crawl_with_proxy(outcome: Outcome) -> (r: Result<String, CrawlError>)
    ensures
        r == fetched(outcome),
{
    match outcome {
        Outcome::Response { status: _, body: Some(text) } => Ok(text),
        _ => Err(CrawlError::Fetch),
    }
}

/// A fetch returns the body of the response exactly as it arrived, for a
/// status of 200 as for every other status: it does not look at the
/// status.
pub proof fn lemma_body_is_returned_for_every_status(status: u16, text: String)
    ensures
        fetched(Outcome::Response { status, body: Some(text) }) == Ok::<String, CrawlError>(text),
{
}

/// A fetch fails only where no body was obtained, and then with
/// [`CrawlError::Fetch`].
pub proof fn lemma_fetch_fails_only_without_body(outcome: Outcome)
    ensures
        fetched(outcome) is Err ==> !(outcome is Response && outcome->body is Some),
        fetched(outcome) is Err ==> fetched(outcome) == Err::<String, CrawlError>(
            CrawlError::Fetch,
        ),
        outcome is Failed ==> fetched(outcome) is Err,
{
}

/// A fetch and a probe route their traffic through a proxy in the same
/// way: for one endpoint both requests name the same proxy URI.
pub proof fn lemma_fetch_and_probe_use_the_same_proxy(
    proxy: Seq<char>,
    url: Seq<char>,
    target_url: Seq<char>,
)
    ensures
        request_for(url, Some(proxy), Some(CRAWL_TIMEOUT_SECS), true).proxy_uri
            == probe_request_for(proxy, target_url).proxy_uri,
{
}

/// The characters that a preview of `body` holds.
pub open spec fn preview_of(body: Seq<char>) -> Seq<char> {
    if body.len() <= PREVIEW_CHARS {
        body
    } else {
        body.take(PREVIEW_CHARS as int)
    }
}

/// The start of a page: its first 200 characters, or all of it where it
/// is shorter.
pub fn preview(body: &str) -> (start: &str)
    ensures
        start@ == preview_of(body@),
{
    let n = body.unicode_len();
    if n <= PREVIEW_CHARS {
        body
    } else {
        body.substring_char(0, PREVIEW_CHARS)
    }
}

} // verus!
