//! The per-dispatch envelope: the parsed request plus named variables that
//! middleware and handlers populate and read during one chain run.

use vstd::prelude::*;

use crate::kvlist::{insert_kv, kv_get, kv_insert, kv_view, kv_wf, lookup_kv};
use crate::request::Request;

verus! {

/// One request's mutable dispatch state. Constructed once after a successful
/// parse, owned by the dispatch loop, and never shared across requests.
pub struct HttpContext {
    pub request: Request,
    pub vars: Vec<(String, String)>,
}

impl HttpContext {
    pub open spec fn wf(&self) -> bool {
        &&& self.request.wf()
        &&& kv_wf(self.spec_vars())
    }

    pub open spec fn spec_vars(&self) -> Seq<(Seq<char>, Seq<char>)> {
        kv_view(self.vars@)
    }

    pub fn new(request: Request) -> (r: HttpContext)
        ensures
            r.request == request,
            r.spec_vars() =~= Seq::<(Seq<char>, Seq<char>)>::empty(),
            request.wf() ==> r.wf(),
    {
        HttpContext { request, vars: Vec::new() }
    }

    /// Stores a named variable; keys are unique and a repeated store
    /// overwrites the previous value.
    pub fn set_var(&mut self, name: String, value: String)
        requires
            kv_wf(old(self).spec_vars()),
        ensures
            final(self).spec_vars() == insert_kv(old(self).spec_vars(), name@, value@),
            final(self).request == old(self).request,
            kv_wf(final(self).spec_vars()),
    {
        kv_insert(&mut self.vars, name, value);
    }

    /// Looks a named variable up; an absent name is an absent value, not an
    /// error.
    pub fn get_var(&self, name: &str) -> (r: Option<&String>)
        ensures
            r is Some <==> lookup_kv(self.spec_vars(), name@) is Some,
            r is Some ==> r.unwrap()@ == lookup_kv(self.spec_vars(), name@).unwrap(),
    {
        kv_get(&self.vars, name)
    }
}

} // verus!
