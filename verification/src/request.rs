//! The immutable structured result of parsing one inbound request.

use vstd::prelude::*;

use crate::content::Content;
use crate::headers::Headers;

verus! {

/// A fully parsed request: path, uppercase verb token, the header mapping,
/// and exactly one body form.
pub struct Request {
    pub path: String,
    pub method: String,
    pub headers: Headers,
    pub content: Content,
}

impl Request {
    pub open spec fn wf(&self) -> bool {
        &&& self.headers.wf()
        &&& self.content.wf()
    }

    pub fn new(path: String, method: String, headers: Headers, content: Content) -> (r: Request)
        ensures
            r.path@ == path@,
            r.method@ == method@,
            r.headers == headers,
            r.content == content,
    {
        Request { path, method, headers, content }
    }

    pub fn path(&self) -> (r: &String)
        ensures
            r == self.path,
    {
        &self.path
    }

    pub fn method(&self) -> (r: &String)
        ensures
            r == self.method,
    {
        &self.method
    }

    pub fn headers(&self) -> (r: &Headers)
        ensures
            r == self.headers,
    {
        &self.headers
    }

    pub fn content(&self) -> (r: &Content)
        ensures
            r == self.content,
    {
        &self.content
    }

    pub open spec fn spec_path(&self) -> Seq<char> {
        self.path@
    }

    pub open spec fn spec_method(&self) -> Seq<char> {
        self.method@
    }

    pub open spec fn spec_headers(&self) -> Headers {
        self.headers
    }

    pub open spec fn spec_content(&self) -> Content {
        self.content
    }
}

} // verus!
