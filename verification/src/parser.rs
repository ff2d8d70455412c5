//! The request parser: decides plain versus multipart from the headers,
//! accumulates or splits the drained body, classifies errors precisely, and
//! assembles the final request once file parts have spool paths.

use vstd::prelude::*;
use vstd::utf8::{decode_utf8, encode_utf8, valid_utf8};

use crate::bytes_util::{concat_chunks, concat_chunks_spec};
use crate::content::{Content, Multipart};
use crate::headers::{lookup, Headers};
use crate::kvlist::{kv_view, kv_wf, lookup_kv};
use crate::method::{method_spec, HttpMethod};
use crate::multipart::{
    classify_parts, classify_spec, file_views, parts_of, split_parts, ClassifyError, ClassifySpec,
    FilePart,
};
use crate::request::Request;
use crate::text::{all_digits, dec_val};

verus! {

/// Why a parse failed. Parsing never partially succeeds: each of these is
/// terminal for its request.
#[derive(Debug)]
pub enum Error {
    /// The transport was cut while the body was being drained.
    Transport,
    /// A multipart protocol violation, with a description of the cause.
    Multipart(String),
    /// A multipart text field whose value is not valid UTF-8, carrying the
    /// field name.
    FieldInvalidUtf8(String),
    /// A plain body that is not valid UTF-8.
    PlainInvalidUtf8,
    /// An unrecognized method verb, carrying the offending token.
    UnknownMethod(String),
}

/// The boundary token that `multer::parse_boundary` extracts from a
/// `Content-Type` value, if the value names multipart/form-data with a
/// boundary parameter.
pub uninterp spec fn boundary_of(content_type: Seq<char>) -> Option<Seq<char>>;

/// Relies on `multer::parse_boundary`: it parses the value as a mime type
/// and returns the boundary parameter exactly when the type is
/// multipart/form-data and the parameter is present; the result depends on
/// the value alone.
#[verifier::external_body]
fn parse_boundary_call(content_type: &str) -> (r: Option<String>)
    ensures
        r is Some <==> boundary_of(content_type@) is Some,
        r is Some ==> r.unwrap()@ == boundary_of(content_type@).unwrap(),
{
    multer::parse_boundary(content_type).ok()
}

/// The boundary decision for a header mapping: the `Content-Type` value's
/// boundary token; no header, or no token, means the plain path.
pub open spec fn boundary_choice(headers: Seq<(Seq<char>, Seq<char>)>) -> Option<Seq<char>> {
    match lookup(headers, "Content-Type"@) {
        None => None,
        Some(v) => boundary_of(v),
    }
}

/// Attempts to extract a multipart boundary from the `Content-Type` header;
/// absence or a malformed value selects the plain path.
pub fn extract_boundary(headers: &Headers) -> (r: Option<String>)
    ensures
        r is Some <==> boundary_choice(headers@) is Some,
        r is Some ==> r.unwrap()@ == boundary_choice(headers@).unwrap(),
{
    match headers.get("Content-Type") {
        None => None,
        Some(v) => parse_boundary_call(v.as_str()),
    }
}

/// The advisory body size from `Content-Length`: the decimal value when the
/// header is present and parses, otherwise zero. It only sizes buffers and
/// never decides termination.
pub open spec fn content_length_of(headers: Seq<(Seq<char>, Seq<char>)>) -> usize {
    match lookup(headers, "Content-Length"@) {
        None => 0usize,
        Some(v) => if all_digits(v) && dec_val(v) <= usize::MAX {
            dec_val(v) as usize
        } else {
            0usize
        },
    }
}

pub fn extract_content_length(headers: &Headers) -> (r: usize)
    ensures
        r == content_length_of(headers@),
{
    match headers.get("Content-Length") {
        None => 0,
        Some(v) => match crate::text::parse_usize(v.as_str()) {
            Some(n) => n,
            None => 0,
        },
    }
}

/// The drained body of one request: its chunks in transmission order, and
/// whether the transport was cut before the stream ended.
pub struct BodyChunks {
    pub chunks: Vec<Vec<u8>>,
    pub transport_failed: bool,
}

/// Multipart content before spooling: the text field map and the file parts
/// still carrying their bytes.
pub struct MultipartData {
    pub fields: Vec<(String, String)>,
    pub file_parts: Vec<FilePart>,
}

/// A parsed body: exactly one of plain text or multipart data.
pub enum ParsedContent {
    Plain(String),
    Multipart(MultipartData),
}

/// A fully parsed request whose file parts have not been spooled yet.
pub struct ParsedRequest {
    pub path: String,
    pub method: String,
    pub headers: Headers,
    pub content: ParsedContent,
}

impl ParsedRequest {
    pub open spec fn wf(&self) -> bool {
        &&& self.headers.wf()
        &&& match self.content {
            ParsedContent::Plain(_) => true,
            ParsedContent::Multipart(md) => kv_wf(kv_view(md.fields@)),
        }
    }
}

/// What `parse` returns on each input, case by case: a cut transport, then
/// an unknown verb, then the boundary decision; the plain path accumulates
/// and decodes, the multipart path splits, classifies and reports the first
/// violation.
pub open spec fn parse_post(
    r: Result<ParsedRequest, Error>,
    path: String,
    method: String,
    headers: Headers,
    body: BodyChunks,
) -> bool {
    let bytes = concat_chunks_spec(body.chunks@);
    if body.transport_failed {
        r == Err::<ParsedRequest, Error>(Error::Transport)
    } else if method_spec(method@) is None {
        match r {
            Err(Error::UnknownMethod(m)) => m@ == method@,
            _ => false,
        }
    } else {
        match boundary_choice(headers@) {
            None => if valid_utf8(bytes) {
                match r {
                    Ok(p) => p.path@ == path@ && p.method@ == method@ && p.headers == headers
                        && match p.content {
                        ParsedContent::Plain(t) => t@ == decode_utf8(bytes),
                        _ => false,
                    },
                    _ => false,
                }
            } else {
                r == Err::<ParsedRequest, Error>(Error::PlainInvalidUtf8)
            },
            Some(bnd) => match parts_of(bytes, encode_utf8(bnd)) {
                None => match r {
                    Err(Error::Multipart(m)) => m@ == "malformed multipart body"@,
                    _ => false,
                },
                Some(parts) => match classify_spec(parts) {
                    ClassifySpec::BadHeader => match r {
                        Err(Error::Multipart(m)) => m@ == "invalid part header encoding"@,
                        _ => false,
                    },
                    ClassifySpec::BadField { name } => match r {
                        Err(Error::FieldInvalidUtf8(n)) => n@ == name,
                        _ => false,
                    },
                    ClassifySpec::Done { fields, files } => match r {
                        Ok(p) => p.path@ == path@ && p.method@ == method@ && p.headers == headers
                            && match p.content {
                            ParsedContent::Multipart(md) => kv_view(md.fields@) == fields
                                && file_views(md.file_parts@) == files,
                            _ => false,
                        },
                        _ => false,
                    },
                },
            },
        }
    }
}

/// Parses one request from its already-framed metadata and drained body.
pub fn parse(path: String, method: String, headers: Headers, body: BodyChunks) -> (r: Result<
    ParsedRequest,
    Error,
>)
    requires
        headers.wf(),
    ensures
        parse_post(r, path, method, headers, body),
        r matches Ok(p) ==> p.wf(),
{
    if body.transport_failed {
        return Err(Error::Transport);
    }
    if HttpMethod::try_from(method.as_str()).is_none() {
        return Err(Error::UnknownMethod(method));
    }
    let size_hint = extract_content_length(&headers);
    let bytes = concat_chunks(&body.chunks, size_hint);
    match extract_boundary(&headers) {
        None => {
            match crate::text::decode_utf8_vec(&bytes) {
                Some(text) => Ok(
                    ParsedRequest {
                        path,
                        method,
                        headers,
                        content: ParsedContent::Plain(text),
                    },
                ),
                None => Err(Error::PlainInvalidUtf8),
            }
        },
        Some(boundary) => {
            let boundary_bytes = boundary.as_str().as_bytes_vec();
            match split_parts(&bytes, &boundary_bytes) {
                None => Err(Error::Multipart(String::from_str("malformed multipart body"))),
                Some(parts) => match classify_parts(parts) {
                    Ok(out) => Ok(
                        ParsedRequest {
                            path,
                            method,
                            headers,
                            content: ParsedContent::Multipart(
                                MultipartData { fields: out.0, file_parts: out.1 },
                            ),
                        },
                    ),
                    Err(ClassifyError::InvalidHeaderEncoding) => Err(
                        Error::Multipart(String::from_str("invalid part header encoding")),
                    ),
                    Err(ClassifyError::FieldInvalidUtf8(name)) => Err(
                        Error::FieldInvalidUtf8(name),
                    ),
                },
            }
        },
    }
}

/// For every well-formed plain request, the accumulated text is exactly
/// the concatenation of the body chunks in transmission order: its UTF-8
/// encoding equals the concatenated bytes. The `Content-Length` hint only
/// sizes the buffer and never changes the result.
pub proof fn lemma_plain_accumulation(
    r: Result<ParsedRequest, Error>,
    path: String,
    method: String,
    headers: Headers,
    body: BodyChunks,
)
    requires
        parse_post(r, path, method, headers, body),
        !body.transport_failed,
        method_spec(method@) is Some,
        boundary_choice(headers@) is None,
        valid_utf8(concat_chunks_spec(body.chunks@)),
    ensures
        r matches Ok(p) && match p.content {
            ParsedContent::Plain(t) => encode_utf8(t@) == concat_chunks_spec(body.chunks@),
            ParsedContent::Multipart(_) => false,
        },
{
    let bytes = concat_chunks_spec(body.chunks@);
    vstd::utf8::decode_utf8_encode_utf8(bytes);
}

/// For every multipart request that parses, the field map holds exactly
/// the name-to-value pairs of the parts that lack a file name: looking any
/// name up yields the decoded value of the last such part with that name.
pub proof fn lemma_multipart_fields_exact(
    r: Result<ParsedRequest, Error>,
    path: String,
    method: String,
    headers: Headers,
    body: BodyChunks,
    name: Seq<char>,
)
    requires
        parse_post(r, path, method, headers, body),
        !body.transport_failed,
        method_spec(method@) is Some,
        boundary_choice(headers@) is Some,
        parts_of(
            concat_chunks_spec(body.chunks@),
            encode_utf8(boundary_choice(headers@).unwrap()),
        ) is Some,
        r is Ok,
    ensures
        ({
            let parts = parts_of(
                concat_chunks_spec(body.chunks@),
                encode_utf8(boundary_choice(headers@).unwrap()),
            ).unwrap();
            match r {
                Ok(p) => match p.content {
                    ParsedContent::Multipart(md) => lookup_kv(kv_view(md.fields@), name)
                        == crate::multipart::last_field_value(parts, name),
                    ParsedContent::Plain(_) => false,
                },
                _ => false,
            }
        }),
{
    let parts = parts_of(
        concat_chunks_spec(body.chunks@),
        encode_utf8(boundary_choice(headers@).unwrap()),
    ).unwrap();
    crate::multipart::lemma_classify_fields_exact(parts, name);
}

/// For every multipart request that parses, the file list holds exactly one
/// (declared name, data) pair per part that carries a file name, in arrival
/// order, with the data equal to the part's transmitted bytes.
pub proof fn lemma_multipart_files_exact(
    r: Result<ParsedRequest, Error>,
    path: String,
    method: String,
    headers: Headers,
    body: BodyChunks,
)
    requires
        parse_post(r, path, method, headers, body),
        !body.transport_failed,
        method_spec(method@) is Some,
        boundary_choice(headers@) is Some,
        parts_of(
            concat_chunks_spec(body.chunks@),
            encode_utf8(boundary_choice(headers@).unwrap()),
        ) is Some,
        r is Ok,
    ensures
        ({
            let parts = parts_of(
                concat_chunks_spec(body.chunks@),
                encode_utf8(boundary_choice(headers@).unwrap()),
            ).unwrap();
            match r {
                Ok(p) => match p.content {
                    ParsedContent::Multipart(md) => file_views(md.file_parts@)
                        == crate::multipart::file_parts_of(parts),
                    ParsedContent::Plain(_) => false,
                },
                _ => false,
            }
        }),
{
    let parts = parts_of(
        concat_chunks_spec(body.chunks@),
        encode_utf8(boundary_choice(headers@).unwrap()),
    ).unwrap();
    crate::multipart::lemma_classify_files_exact(parts);
}

/// The spool path attached to each file part, in arrival order.
pub open spec fn zip_spool(
    files: Seq<FilePart>,
    paths: Seq<String>,
) -> Seq<(Seq<char>, Seq<char>)> {
    Seq::new(files.len(), |i: int| (files[i].name@, paths[i]@))
}

/// Assembles the final request once the surrounding glue has spooled each
/// file part to disk: declared names pair up with spool paths positionally.
/// A plain request passes through unchanged and ignores the paths.
pub fn attach_spool(parsed: ParsedRequest, files_dir: String, paths: Vec<String>) -> (r: Request)
    requires
        parsed.wf(),
        parsed.content matches ParsedContent::Multipart(md) ==> paths@.len()
            == md.file_parts@.len(),
    ensures
        r.path@ == parsed.path@,
        r.method@ == parsed.method@,
        r.headers == parsed.headers,
        match parsed.content {
            ParsedContent::Plain(t) => r.content == Content::Plain(t),
            ParsedContent::Multipart(md) => match r.content {
                Content::Multipart(m) => m.spec_fields() == kv_view(md.fields@) && m.spec_files()
                    == zip_spool(md.file_parts@, paths@) && m.spec_files_dir() == files_dir@,
                _ => false,
            },
        },
        r.wf(),
{
    let ParsedRequest { path, method, headers, content } = parsed;
    match content {
        ParsedContent::Plain(t) => Request::new(path, method, headers, Content::Plain(t)),
        ParsedContent::Multipart(md) => {
            let ghost fp = md.file_parts@;
            let mut files: Vec<(String, String)> = Vec::new();
            let n = md.file_parts.len();
            let mut i: usize = 0;
            while i < n
                invariant
                    fp == md.file_parts@,
                    n == md.file_parts@.len(),
                    n == paths@.len(),
                    i <= n,
                    files@.len() == i,
                    forall|k: int|
                        0 <= k < i ==> (#[trigger] files@[k].0)@ == fp[k].name@ && files@[k].1@
                            == paths@[k]@,
                decreases n - i,
            {
                files.push((md.file_parts[i].name.clone(), paths[i].clone()));
                i = i + 1;
            }
            let m = Multipart::new(md.fields, files, files_dir);
            proof {
                assert(m.spec_files() =~= zip_spool(fp, paths@));
            }
            Request::new(path, method, headers, Content::Multipart(m))
        },
    }
}

} // verus!
