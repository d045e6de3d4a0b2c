//! The plain request and response values exchanged with an HTTP transport.

use vstd::prelude::*;

verus! {

/// HTTP method of a request.
#[derive(Clone, Copy, Debug, PartialEq, Eq, Structural)]
pub enum Method {
    Get,
    Post,
    Patch,
    Delete,
}

/// A fully-formed request handed to a transport. The `url` already carries
/// the base URL, path, and query string; headers and body are final.
#[derive(Clone, Debug)]
pub struct HttpRequest {
    pub method: Method,
    pub url: String,
    pub headers: Vec<(String, String)>,
    pub body: Option<Vec<u8>>,
}

/// A raw HTTP response. The body is the undecoded bytes.
#[derive(Clone, Debug)]
pub struct HttpResponse {
    pub status: u16,
    pub headers: Vec<(String, String)>,
    pub body: Vec<u8>,
}

/// A transport-level failure (no HTTP response was produced).
#[derive(Clone, Debug)]
pub struct TransportError {
    pub message: String,
    pub timeout: bool,
}

} // verus!
