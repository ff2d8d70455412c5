//! Typed projections from a context to the value a handler declared it
//! wants. Extraction is total and side-effect-free: all fallibility was
//! already decided at parse time.

use vstd::prelude::*;
use vstd::utf8::encode_utf8;

use crate::content::Content;
use crate::context::HttpContext;
use crate::headers::lookup;
use crate::kvlist::lookup_kv;

verus! {

/// What one extraction yields, at the level of views.
pub enum ExtractedView {
    Text(Seq<char>),
    OptBytes(Option<Seq<u8>>),
    Mapping(Seq<(Seq<char>, Seq<char>)>),
    OptText(Option<Seq<char>>),
}

/// What one extraction yields: text, raw bytes, the header mapping, or an
/// optional single value.
#[derive(Debug, PartialEq, Eq)]
pub enum Extracted {
    Text(String),
    OptBytes(Option<Vec<u8>>),
    Mapping(Vec<(String, String)>),
    OptText(Option<String>),
}

impl View for Extracted {
    type V = ExtractedView;

    open spec fn view(&self) -> ExtractedView {
        match self {
            Extracted::Text(t) => ExtractedView::Text(t@),
            Extracted::OptBytes(b) => ExtractedView::OptBytes(
                match b {
                    Some(v) => Some(v@),
                    None => None,
                },
            ),
            Extracted::Mapping(m) => ExtractedView::Mapping(
                Seq::new(m@.len(), |i: int| (m@[i].0@, m@[i].1@)),
            ),
            Extracted::OptText(t) => ExtractedView::OptText(
                match t {
                    Some(v) => Some(v@),
                    None => None,
                },
            ),
        }
    }
}

/// A stateless, typed projection from a context to a handler-visible value.
/// Each extractor pins what it yields in `spec_extract`; extraction never
/// fails and never mutates the context.
pub trait Extractor {
    /// The value this extractor projects out of a context.
    spec fn spec_extract(&self, ctx: &HttpContext) -> ExtractedView;

    /// Performs the projection.
    fn extract(&self, ctx: &HttpContext) -> (r: Extracted)
        ensures
            r@ == self.spec_extract(ctx),
    ;
}

/// Extracting twice from the same unmodified context yields equal values:
/// extraction is a function of the extractor and the context alone.
pub proof fn lemma_extract_idempotent<E: Extractor>(
    e: &E,
    ctx: &HttpContext,
    r1: ExtractedView,
    r2: ExtractedView,
)
    requires
        r1 == e.spec_extract(ctx),
        r2 == e.spec_extract(ctx),
    ensures
        r1 == r2,
{
}

/// The common part of every extractor value: its stable small-integer tag.
pub struct Base {
    pub tag: usize,
}

/// Whether a body extractor yields decoded text or raw bytes.
pub enum BodyKind {
    Text,
    Bytes,
}

/// Extracts the request body: the plain text, or its raw bytes.
pub struct Body(pub BodyKind);

/// The fixed sentinel that a text body extraction yields when the request
/// has no plain text body.
pub open spec fn body_text_sentinel() -> Seq<char> {
    "<invalid utf-8>"@
}

impl Body {
    /// Builds the extractor; which of the two forms it yields is fixed here,
    /// at route setup, not per request.
    pub fn new(kind: BodyKind) -> (r: (Body, Base))
        ensures
            r.0.0 == kind,
            r.1.tag == 0,
    {
        (Body(kind), Base { tag: 0 })
    }
}

impl Extractor for Body {
    open spec fn spec_extract(&self, ctx: &HttpContext) -> ExtractedView {
        match self.0 {
            BodyKind::Text => match ctx.request.content {
                Content::Plain(t) => ExtractedView::Text(t@),
                Content::Multipart(_) => ExtractedView::Text(body_text_sentinel()),
            },
            BodyKind::Bytes => match ctx.request.content {
                Content::Plain(t) => ExtractedView::OptBytes(Some(encode_utf8(t@))),
                Content::Multipart(_) => ExtractedView::OptBytes(None),
            },
        }
    }

    fn extract(&self, ctx: &HttpContext) -> (r: Extracted)
        ensures
            r@ == self.spec_extract(ctx),
    {
        match self.0 {
            BodyKind::Text => match ctx.request.content() {
                Content::Plain(t) => Extracted::Text(t.clone()),
                Content::Multipart(_) => Extracted::Text(String::from_str("<invalid utf-8>")),
            },
            BodyKind::Bytes => match ctx.request.content() {
                Content::Plain(t) => Extracted::OptBytes(Some(t.as_str().as_bytes_vec())),
                Content::Multipart(_) => Extracted::OptBytes(None),
            },
        }
    }
}

/// Extracts the full header mapping as a plain name-to-value projection.
pub struct Headers;

impl Headers {
    pub fn new() -> (r: (Headers, Base))
        ensures
            r.1.tag == 1,
    {
        (Headers, Base { tag: 1 })
    }
}

impl Extractor for Headers {
    open spec fn spec_extract(&self, ctx: &HttpContext) -> ExtractedView {
        ExtractedView::Mapping(ctx.request.headers@)
    }

    fn extract(&self, ctx: &HttpContext) -> (r: Extracted)
        ensures
            r@ == self.spec_extract(ctx),
    {
        let pairs = ctx.request.headers().pairs();
        let mut out: Vec<(String, String)> = Vec::new();
        let n = pairs.len();
        let mut i: usize = 0;
        while i < n
            invariant
                n == pairs@.len(),
                i <= n,
                out@.len() == i,
                forall|k: int|
                    0 <= k < i ==> (#[trigger] out@[k].0)@ == pairs@[k].0@ && out@[k].1@
                        == pairs@[k].1@,
            decreases n - i,
        {
            out.push((pairs[i].0.clone(), pairs[i].1.clone()));
            i = i + 1;
        }
        let r = Extracted::Mapping(out);
        proof {
            assert(r@ matches ExtractedView::Mapping(m) && m =~= ctx.request.headers@);
        }
        r
    }
}

/// Extracts one header value by name, case-insensitively; an absent header
/// is an absent value, not an error.
pub struct Header(pub String);

impl Header {
    pub fn new(name: String) -> (r: (Header, Base))
        ensures
            r.0.0@ == name@,
            r.1.tag == 2,
    {
        (Header(name), Base { tag: 2 })
    }
}

impl Extractor for Header {
    open spec fn spec_extract(&self, ctx: &HttpContext) -> ExtractedView {
        ExtractedView::OptText(lookup(ctx.request.headers@, self.0@))
    }

    fn extract(&self, ctx: &HttpContext) -> (r: Extracted)
        ensures
            r@ == self.spec_extract(ctx),
    {
        match ctx.request.headers().get(self.0.as_str()) {
            Some(v) => Extracted::OptText(Some(v.clone())),
            None => Extracted::OptText(None),
        }
    }
}

/// Extracts one named context variable; an absent name is an absent value.
pub struct ContextVar(pub String);

impl ContextVar {
    pub fn new(name: String) -> (r: (ContextVar, Base))
        ensures
            r.0.0@ == name@,
            r.1.tag == 3,
    {
        (ContextVar(name), Base { tag: 3 })
    }
}

impl Extractor for ContextVar {
    open spec fn spec_extract(&self, ctx: &HttpContext) -> ExtractedView {
        ExtractedView::OptText(lookup_kv(ctx.spec_vars(), self.0@))
    }

    fn extract(&self, ctx: &HttpContext) -> (r: Extracted)
        ensures
            r@ == self.spec_extract(ctx),
    {
        match ctx.get_var(self.0.as_str()) {
            Some(v) => Extracted::OptText(Some(v.clone())),
            None => Extracted::OptText(None),
        }
    }
}

} // verus!
