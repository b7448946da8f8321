//! The request-execution core of an HTTP API-testing tool.
//!
//! A request description (URL, method, headers, body) is validated and turned
//! into the values that an HTTP client sends; what the client brings back is
//! normalised into a response description or a descriptive error. The network
//! round-trip itself happens outside this crate: everything here is a function
//! from values to values, with its behaviour stated and proved.

pub mod grammar;
pub mod request;
pub mod response;
pub mod transport;
