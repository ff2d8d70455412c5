//! The terminal value a middleware chain produces: at minimum a status code.

use vstd::prelude::*;

verus! {

/// An HTTP response. The core only fixes the numeric status; richer bodies
/// and headers are an extension point of the surrounding server glue.
#[derive(Clone, PartialEq, Eq, Structural, Debug)]
pub struct HttpResponse {
    pub status: u16,
}

impl HttpResponse {
    pub fn new(status: u16) -> (r: HttpResponse)
        ensures
            r.status == status,
    {
        HttpResponse { status }
    }
}

} // verus!
