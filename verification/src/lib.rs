//! Acquisition, validation and use of public HTTP proxies.
//!
//! The library holds the decisions of three operations: reading a proxy
//! listing page into `host:port` endpoints, judging the outcome of a probe
//! request sent through a proxy, and concluding a page fetch that may be
//! routed through a proxy. Sending a request is left to the caller: each
//! operation describes the request to send as a [`client::Request`] and is
//! concluded from the [`client::Outcome`] that the caller reports back.

pub mod client;
pub mod crawler;
pub mod error;
pub mod html;
pub mod listing_laws;
pub mod proxy_list;
pub mod text;
pub mod validator;
