//! The recognized HTTP verbs. An unrecognized verb token is a parse error,
//! never silently accepted.

use vstd::prelude::*;

use crate::text::str_eq;

verus! {

#[derive(Clone, Copy, PartialEq, Eq, Structural, Debug)]
pub enum HttpMethod {
    Get,
    Put,
    Head,
    Post,
    Patch,
    Delete,
}

/// The verb named by an uppercase token, if recognized.
pub open spec fn method_spec(s: Seq<char>) -> Option<HttpMethod> {
    if s == "GET"@ {
        Some(HttpMethod::Get)
    } else if s == "PUT"@ {
        Some(HttpMethod::Put)
    } else if s == "HEAD"@ {
        Some(HttpMethod::Head)
    } else if s == "POST"@ {
        Some(HttpMethod::Post)
    } else if s == "PATCH"@ {
        Some(HttpMethod::Patch)
    } else if s == "DELETE"@ {
        Some(HttpMethod::Delete)
    } else {
        None
    }
}

/// The six verb tokens are pairwise distinct, so each one names its verb.
pub proof fn lemma_method_tokens()
    ensures
        method_spec("GET"@) == Some(HttpMethod::Get),
        method_spec("PUT"@) == Some(HttpMethod::Put),
        method_spec("HEAD"@) == Some(HttpMethod::Head),
        method_spec("POST"@) == Some(HttpMethod::Post),
        method_spec("PATCH"@) == Some(HttpMethod::Patch),
        method_spec("DELETE"@) == Some(HttpMethod::Delete),
{
    reveal_strlit("GET");
    reveal_strlit("PUT");
    reveal_strlit("HEAD");
    reveal_strlit("POST");
    reveal_strlit("PATCH");
    reveal_strlit("DELETE");
    assert("GET"@.len() == 3 && "PUT"@.len() == 3 && "HEAD"@.len() == 4 && "POST"@.len() == 4
        && "PATCH"@.len() == 5 && "DELETE"@.len() == 6);
    assert("GET"@[0] == 'G' && "PUT"@[0] == 'P' && "HEAD"@[0] == 'H' && "POST"@[0] == 'P'
        && "POST"@[1] == 'O' && "PUT"@[1] == 'U');
}

impl HttpMethod {
    pub fn try_from(value: &str) -> (r: Option<HttpMethod>)
        ensures
            r == method_spec(value@),
    {
        if str_eq(value, "GET") {
            Some(HttpMethod::Get)
        } else if str_eq(value, "PUT") {
            Some(HttpMethod::Put)
        } else if str_eq(value, "HEAD") {
            Some(HttpMethod::Head)
        } else if str_eq(value, "POST") {
            Some(HttpMethod::Post)
        } else if str_eq(value, "PATCH") {
            Some(HttpMethod::Patch)
        } else if str_eq(value, "DELETE") {
            Some(HttpMethod::Delete)
        } else {
            None
        }
    }

    /// The canonical uppercase token of the verb.
    pub fn as_token(&self) -> (r: &'static str)
        ensures
            method_spec(r@) == Some(*self),
    {
        proof {
            lemma_method_tokens();
        }
        match *self {
            HttpMethod::Get => "GET",
            HttpMethod::Put => "PUT",
            HttpMethod::Head => "HEAD",
            HttpMethod::Post => "POST",
            HttpMethod::Patch => "PATCH",
            HttpMethod::Delete => "DELETE",
        }
    }
}

} // verus!
