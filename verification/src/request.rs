//! The parts of an incoming request that the server's decisions read.

use vstd::prelude::*;
use crate::headers::Headers;

verus! {

/// An HTTP request: its target (URL path and query) and its header fields.
pub struct Request {
    pub url: String,
    pub headers: Headers,
}

impl Request {
    /// A request for `url` carrying `headers`.
    pub fn new(url: String, headers: Headers) -> (r: Request)
        ensures
            r.url@ == url@,
            r.headers@ == headers@,
    {
        Request { url, headers }
    }
}

} // verus!
