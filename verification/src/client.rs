//! Requests and their outcomes.
//!
//! Every operation sends one GET request. The library says which: the URL,
//! the proxy to route it through and the time it may take. The caller
//! sends it with a client built for that one request and reports what
//! came of it as an [`Outcome`].

use crate::error::CrawlError;
use crate::text::join;
use vstd::prelude::*;

verus! {

/// The scheme that a proxy endpoint is given to form a proxy URI.
pub const PROXY_SCHEME: &'static str = "http://";

/// The URI of the plain HTTP proxy at the endpoint `proxy`.
pub open spec fn proxy_uri_of(proxy: Seq<char>) -> Seq<char> {
    PROXY_SCHEME@ + proxy
}

/// Whether `reqwest::Proxy::all` accepts `uri` as the address of a proxy.
pub uninterp spec fn proxy_uri_accepted(uri: Seq<char>) -> bool;

/// `reqwest::Proxy::all`, which parses `uri` as the URL of a proxy for
/// all traffic.
///
/// Trusted: the result tells whether the call returned a proxy rather than
/// an error, which depends on the text of `uri` alone and is what
/// [`proxy_uri_accepted`] names.
#[verifier::external_body]
fn accepts_proxy_uri(uri: &str) -> (accepted: bool)
    ensures
        accepted == proxy_uri_accepted(uri@),
{
    reqwest::Proxy::all(uri).is_ok()
}

/// One GET request, to be sent with a client of its own.
#[derive(Clone, Debug, PartialEq, Eq)]
pub struct Request {
    /// The URL to get.
    pub url: String,
    /// The URI of the proxy that all traffic of the client is routed
    /// through, if any.
    pub proxy_uri: Option<String>,
    /// The time in seconds that the whole request may take; `None` leaves
    /// the limit to the client.
    pub timeout_secs: Option<u64>,
    /// Whether the body of the response is to be read.
    pub read_body: bool,
}

/// What a [`Request`] is, as plain values.
pub struct RequestView {
    pub url: Seq<char>,
    pub proxy_uri: Option<Seq<char>>,
    pub timeout_secs: Option<u64>,
    pub read_body: bool,
}

impl View for Request {
    type V = RequestView;

    open spec fn view(&self) -> RequestView {
        RequestView {
            url: self.url@,
            proxy_uri: match self.proxy_uri {
                Some(uri) => Some(uri@),
                None => None,
            },
            timeout_secs: self.timeout_secs,
            read_body: self.read_body,
        }
    }
}

/// What came of sending a [`Request`].
#[derive(Clone, Debug, PartialEq, Eq)]
pub enum Outcome {
    /// No response was obtained: the connection failed or was refused, or
    /// the time ran out.
    Failed,
    /// A response arrived.
    Response {
        /// The HTTP status code of the response.
        status: u16,
        /// The body decoded as text; `None` where the request did not ask
        /// for it or it could not be read to its end.
        body: Option<String>,
    },
}

/// Whether `status` lies in the success range of HTTP status codes.
pub open spec fn is_success_status(status: u16) -> bool {
    200 <= status <= 299
}

/// Whether `status` lies in the success range, 200 to 299.
pub fn status_is_success(status: u16) -> (success: bool)
    ensures
        success == is_success_status(status),
{
    200 <= status && status <= 299
}

/// The characters of an optional text.
pub open spec fn view_of(text: Option<&str>) -> Option<Seq<char>> {
    match text {
        Some(t) => Some(t@),
        None => None,
    }
}

/// The request that [`build_request`] describes for a proxy whose URI the
/// client accepts, or for no proxy.
pub open spec fn request_for(
    url: Seq<char>,
    proxy: Option<Seq<char>>,
    timeout_secs: Option<u64>,
    read_body: bool,
) -> RequestView {
    RequestView {
        url,
        proxy_uri: match proxy {
            Some(endpoint) => Some(proxy_uri_of(endpoint)),
            None => None,
        },
        timeout_secs,
        read_body,
    }
}

/// Whether the proxy, if there is one, forms a URI that the client
/// accepts.
pub open spec fn proxy_usable(proxy: Option<Seq<char>>) -> bool {
    match proxy {
        Some(endpoint) => proxy_uri_accepted(proxy_uri_of(endpoint)),
        None => true,
    }
}

/// The URI of the plain HTTP proxy at the endpoint `proxy`: the endpoint
/// behind the scheme `http://`.
pub fn proxy_uri(proxy: &str) -> (uri: String)
    ensures
        uri@ == proxy_uri_of(proxy@),
{
    join(PROXY_SCHEME, proxy)
}

/// Describes the GET request to `url`, routed through `proxy` if one is
/// given, that may take `timeout_secs` seconds and whose body is read
/// where `read_body` says so.
///
/// A malformed proxy address is an error of the caller and not a
/// condition of the network: it is reported as
/// [`CrawlError::InvalidProxy`] before anything is sent.
pub fn build_request(
    url: &str,
    proxy: Option<&str>,
    timeout_secs: Option<u64>,
    read_body: bool,
) -> (r: Result<Request, CrawlError>)
    ensures
        match r {
            Ok(request) => proxy_usable(view_of(proxy)) && request@ == request_for(
                url@,
                view_of(proxy),
                timeout_secs,
                read_body,
            ),
            Err(e) => !proxy_usable(view_of(proxy)) && e == CrawlError::InvalidProxy,
        },
{
    let proxy_uri = match proxy {
        Some(endpoint) => {
            let uri = proxy_uri(endpoint);
            if !accepts_proxy_uri(uri.as_str()) {
                return Err(CrawlError::InvalidProxy);
            }
            Some(uri)
        },
        None => None,
    };
    Ok(Request { url: String::from_str(url), proxy_uri, timeout_secs, read_body })
}

} // verus!
