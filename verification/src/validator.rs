//! Validation of a proxy: one probe request through it.
//!
//! A proxy is valid for a target when a single GET to the target, sent
//! through the proxy within the time limit, is answered with a status in
//! the success range. That a proxy cannot be reached is an expected outcome
//! of a probe and no error: every failure of the request makes the proxy
//! invalid.

use crate::client::build_request;
use crate::client::is_success_status;
use crate::client::proxy_uri_accepted;
use crate::client::proxy_uri_of;
use crate::client::status_is_success;
use crate::client::Outcome;
use crate::client::Request;
use crate::client::RequestView;
use crate::error::CrawlError;
use vstd::prelude::*;

verus! {

/// The time in seconds that a probe request may take.
pub const PROBE_TIMEOUT_SECS: u64 = 5;

/// The probe request for `proxy` and `target_url`.
pub open spec fn probe_request_for(proxy: Seq<char>, target_url: Seq<char>) -> RequestView {
    RequestView {
        url: target_url,
        proxy_uri: Some(proxy_uri_of(proxy)),
        timeout_secs: Some(PROBE_TIMEOUT_SECS),
        read_body: false,
    }
}

/// Describes the probe request: a GET to `target_url`, with all traffic
/// routed through the plain HTTP proxy at `proxy`, that may take five
/// seconds. A probe tests the proxy and retrieves nothing: the body of
/// the response is not read. A proxy address that does not form a proxy
/// URI is reported as [`CrawlError::InvalidProxy`].
pub fn probe_request(proxy: &str, target_url: &str) -> (r: Result<Request, CrawlError>)
    ensures
        match r {
            Ok(request) => proxy_uri_accepted(proxy_uri_of(proxy@)) && request@
                == probe_request_for(proxy@, target_url@),
            Err(e) => !proxy_uri_accepted(proxy_uri_of(proxy@)) && e == CrawlError::InvalidProxy,
        },
{
    build_request(target_url, Some(proxy), Some(PROBE_TIMEOUT_SECS), false)
}

/// Whether an outcome of the probe request shows the proxy to be valid: a
/// response arrived and its status lies in the success range.
pub open spec fn is_valid(outcome: Outcome) -> bool {
    match outcome {
        Outcome::Response { status, body } => is_success_status(status),
        Outcome::Failed => false,
    }
}

/// Judges the proxy by the outcome of its probe request: valid exactly
/// when a response with a status from 200 to 299 arrived. A request that
/// failed, was refused or ran out of time makes the proxy invalid, as does
/// every other status.
pub fn validate(outcome: &Outcome) -> (valid: bool)
    ensures
        valid == is_valid(*outcome),
{
    match outcome {
        Outcome::Response { status, body: _ } => status_is_success(*status),
        Outcome::Failed => false,
    }
}

/// Validation never takes a failure for success. A request that got no
/// response, because the connection was refused or the time ran out,
/// makes the proxy invalid; so does a response with a status of the 4xx
/// or 5xx range. A proxy is valid only on a response with a status from
/// 200 to 299.
pub proof fn lemma_valid_only_on_success(outcome: Outcome)
    ensures
        outcome is Failed ==> !is_valid(outcome),
        outcome is Response && 400 <= outcome->status <= 599 ==> !is_valid(outcome),
        is_valid(outcome) ==> outcome is Response && 200 <= outcome->status <= 299,
        outcome is Response && 200 <= outcome->status <= 299 ==> is_valid(outcome),
{
}

} // verus!
