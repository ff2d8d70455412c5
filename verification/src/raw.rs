//! The raw-socket request variant: headers and a text body read line by
//! line from a `Reader` over the decoded request bytes.

use vstd::prelude::*;
use vstd::utf8::{decode_utf8, valid_utf8};

use crate::bytes_util::{copy_range, find_sub, lemma_find_sub_bounds};
use crate::kvlist::{insert_kv, kv_get, kv_insert, kv_view, kv_wf, lookup_kv};
use crate::request_reader::{self, Reader};
use crate::text::decode_utf8_vec;

verus! {

/// Why a raw request could not be read.
#[derive(Debug)]
pub enum Error {
    /// The request bytes are empty.
    EmptyHttpRequest,
    /// A line could not be read.
    ReadError(request_reader::Error),
    /// The request shape is not HTTP.
    MalformedRequest,
    /// The input ended before the header block did.
    RequestUnexpectedlyEnded,
    /// A header line that does not parse: the line and a description.
    InvalidHeader(String, String),
}

/// The header mapping of the raw variant: exact-key lookup, unique keys,
/// last value winning.
pub struct HttpHeaders(pub Vec<(String, String)>);

impl HttpHeaders {
    pub open spec fn wf(&self) -> bool {
        kv_wf(kv_view(self.0@))
    }

    /// Exact-key lookup of one header value.
    pub fn get<'a>(&'a self, name: &str) -> (r: Option<&'a String>)
        ensures
            r is Some <==> lookup_kv(kv_view(self.0@), name@) is Some,
            r is Some ==> r.unwrap()@ == lookup_kv(kv_view(self.0@), name@).unwrap(),
    {
        kv_get(&self.0, name)
    }
}

/// Position of the first ": " in a line, at or after `i`.
pub open spec fn find_colon_sp(s: Seq<char>, i: int) -> Option<int>
    decreases s.len() - i when 0 <= i
{
    if i + 2 > s.len() {
        None
    } else if s[i] == ':' && s[i + 1] == ' ' {
        Some(i)
    } else {
        find_colon_sp(s, i + 1)
    }
}

proof fn lemma_find_colon_sp_bounds(s: Seq<char>, i: int)
    requires
        0 <= i,
    ensures
        find_colon_sp(s, i) matches Some(c) ==> i <= c && c + 2 <= s.len() && s[c] == ':' && s[c
            + 1] == ' ',
    decreases s.len() - i,
{
    if i + 2 > s.len() {
    } else if s[i] == ':' && s[i + 1] == ' ' {
    } else {
        lemma_find_colon_sp_bounds(s, i + 1);
    }
}

proof fn lemma_find_colon_sp_step(s: Seq<char>, i: int)
    requires
        0 <= i,
        i + 2 <= s.len(),
        !(s[i] == ':' && s[i + 1] == ' '),
    ensures
        find_colon_sp(s, i) == find_colon_sp(s, i + 1),
{
}

fn find_colon_sp_exec(s: &str) -> (r: Option<usize>)
    ensures
        match r {
            Some(c) => find_colon_sp(s@, 0) == Some(c as int),
            None => find_colon_sp(s@, 0) is None,
        },
{
    let n = s.unicode_len();
    if n < 2 {
        return None;
    }
    let mut i: usize = 0;
    while i <= n - 2
        invariant
            n == s@.len(),
            2 <= n,
            i <= n - 1,
            find_colon_sp(s@, 0) == find_colon_sp(s@, i as int),
        decreases n - i,
    {
        if s.get_char(i) == ':' && s.get_char(i + 1) == ' ' {
            return Some(i);
        }
        proof {
            lemma_find_colon_sp_step(s@, i as int);
        }
        i = i + 1;
    }
    None
}

/// How one header block reads, as a function of the remaining input bytes
/// and the entries gathered so far: lines are consumed until an empty line
/// closes the block; each one must be CRLF-terminated UTF-8 and hold ": ".
pub enum HeadersOutcome {
    /// The block closed; the mapping and the bytes left after it.
    Done { headers: Seq<(Seq<char>, Seq<char>)>, rest: Seq<u8> },
    /// The input ended before an empty line.
    UnexpectedEnd,
    /// A line whose bytes are not valid UTF-8.
    LineNotUtf8,
    /// A line without its CRLF terminator.
    LineNoCrlf,
    /// A non-empty line without ": ", carried verbatim.
    NoColon { line: Seq<char> },
}

pub open spec fn parse_headers_rec(data: Seq<u8>, acc: Seq<(Seq<char>, Seq<char>)>) -> HeadersOutcome
    decreases data.len() via parse_headers_rec_dec
{
    if data.len() == 0 {
        HeadersOutcome::UnexpectedEnd
    } else {
        match find_sub(data, seq![10u8], 0) {
            None => if valid_utf8(data) {
                HeadersOutcome::LineNoCrlf
            } else {
                HeadersOutcome::LineNotUtf8
            },
            Some(j) => {
                let line = data.subrange(0, j + 1);
                if !valid_utf8(line) {
                    HeadersOutcome::LineNotUtf8
                } else if !(j >= 1 && data[j - 1] == 13) {
                    HeadersOutcome::LineNoCrlf
                } else {
                    let s = decode_utf8(data.subrange(0, j - 1));
                    let rest = data.subrange(j + 1, data.len() as int);
                    if s.len() == 0 {
                        HeadersOutcome::Done { headers: acc, rest }
                    } else {
                        match find_colon_sp(s, 0) {
                            None => HeadersOutcome::NoColon { line: s },
                            Some(c) => parse_headers_rec(
                                rest,
                                insert_kv(acc, s.subrange(0, c), s.subrange(c + 2, s.len() as int)),
                            ),
                        }
                    }
                }
            },
        }
    }
}

#[via_fn]
proof fn parse_headers_rec_dec(data: Seq<u8>, acc: Seq<(Seq<char>, Seq<char>)>) {
    lemma_find_sub_bounds(data, seq![10u8], 0);
}

impl HttpHeaders {
    /// Reads the header block: one `Name: value` line at a time, stopping
    /// at the empty line; a repeated name keeps the last value.
    pub fn from_reader(reader: &mut Reader) -> (r: Result<HttpHeaders, Error>)
        ensures
            ({
                let outcome = parse_headers_rec(old(reader).data@, Seq::empty());
                match r {
                    Ok(h) => outcome == (HeadersOutcome::Done {
                        headers: kv_view(h.0@),
                        rest: final(reader).data@,
                    }) && h.wf(),
                    Err(Error::RequestUnexpectedlyEnded) => outcome
                        == HeadersOutcome::UnexpectedEnd,
                    Err(Error::ReadError(request_reader::Error::ReadFailed(_))) => outcome
                        == HeadersOutcome::LineNotUtf8,
                    Err(Error::ReadError(request_reader::Error::NoCRLF)) => outcome
                        == HeadersOutcome::LineNoCrlf,
                    Err(Error::InvalidHeader(l, m)) => outcome == (HeadersOutcome::NoColon {
                        line: l@,
                    }) && m@ == "<no colon>"@,
                    _ => false,
                }
            }),
    {
        let mut map: Vec<(String, String)> = Vec::new();
        proof {
            assert(kv_view(map@) =~= Seq::<(Seq<char>, Seq<char>)>::empty());
        }
        loop
            invariant
                kv_wf(kv_view(map@)),
                parse_headers_rec(old(reader).data@, Seq::empty()) == parse_headers_rec(
                    reader.data@,
                    kv_view(map@),
                ),
            decreases reader.data@.len(),
        {
            let ghost data0 = reader.data@;
            let line = match reader.next() {
                None => {
                    return Err(Error::RequestUnexpectedlyEnded);
                },
                Some(Err(e)) => {
                    proof {
                        lemma_find_sub_bounds(data0, seq![10u8], 0);
                    }
                    return Err(Error::ReadError(e));
                },
                Some(Ok(line)) => line,
            };
            proof {
                lemma_find_sub_bounds(data0, seq![10u8], 0);
            }
            if line.as_str().unicode_len() == 0 {
                return Ok(HttpHeaders(map));
            }
            match find_colon_sp_exec(line.as_str()) {
                None => {
                    return Err(Error::InvalidHeader(line, String::from_str("<no colon>")));
                },
                Some(c) => {
                    proof {
                        lemma_find_colon_sp_bounds(line@, 0);
                    }
                    let len = line.as_str().unicode_len();
                    let name = line.as_str().substring_char(0, c).to_owned();
                    let value = line.as_str().substring_char(c + 2, len).to_owned();
                    kv_insert(&mut map, name, value);
                },
            }
        }
    }
}

/// Whether `p` is a prefix of `s`.
pub open spec fn str_starts(s: Seq<char>, p: Seq<char>) -> bool {
    s.len() >= p.len() && s.subrange(0, p.len() as int) == p
}

fn str_starts_exec(s: &str, p: &str) -> (r: bool)
    ensures
        r == str_starts(s@, p@),
{
    let sn = s.unicode_len();
    let pn = p.unicode_len();
    if sn < pn {
        return false;
    }
    let mut i: usize = 0;
    while i < pn
        invariant
            sn == s@.len(),
            pn == p@.len(),
            pn <= sn,
            i <= pn,
            forall|k: int| 0 <= k < i ==> s@[k] == p@[k],
        decreases pn - i,
    {
        if s.get_char(i) != p.get_char(i) {
            proof {
                assert(s@.subrange(0, pn as int)[i as int] != p@[i as int]);
            }
            return false;
        }
        i = i + 1;
    }
    proof {
        assert(s@.subrange(0, pn as int) =~= p@);
    }
    true
}

/// The raw variant's body: the decoded text; the structured field and file
/// lists stay empty on this path.
pub struct HttpRequestBody {
    pub text: String,
    pub fields: Option<Vec<String>>,
    pub files: Option<Vec<String>>,
}

impl HttpRequestBody {
    /// Reads the rest of the input as the plain text body. The declared
    /// content type must name a textual mime type: other types are not
    /// handled on this path.
    pub fn from_reader(reader: &mut Reader, headers: &HttpHeaders) -> (r: Result<
        HttpRequestBody,
        Error,
    >)
        requires
            lookup_kv(kv_view(headers.0@), "Content-Type"@) matches Some(ct) ==> str_starts(
                ct,
                "text/"@,
            ) || str_starts(ct, "application/"@),
        ensures
            ({
                let ct = lookup_kv(kv_view(headers.0@), "Content-Type"@);
                match r {
                    Ok(b) => ct is Some && valid_utf8(old(reader).data@) && b.text@ == decode_utf8(
                        old(reader).data@,
                    ) && b.fields is None && b.files is None && final(reader).data@.len() == 0,
                    Err(Error::InvalidHeader(n, m)) => ct is None && n@ == "Content-Type"@ && m@
                        == "<not present>"@,
                    Err(Error::ReadError(request_reader::Error::ReadFailed(_))) => ct is Some
                        && !valid_utf8(old(reader).data@),
                    _ => false,
                }
            }),
    {
        let content_type = match headers.get("Content-Type") {
            Some(ct) => ct,
            None => {
                return Err(
                    Error::InvalidHeader(
                        String::from_str("Content-Type"),
                        String::from_str("<not present>"),
                    ),
                );
            },
        };
        let textual = str_starts_exec(content_type.as_str(), "text/") || str_starts_exec(
            content_type.as_str(),
            "application/",
        );
        if !textual {
            proof {
                assert(false);
            }
            return Err(Error::MalformedRequest);
        }
        let n = reader.data.len();
        let bytes = copy_range(&reader.data, 0, n);
        reader.data = Vec::new();
        proof {
            assert(bytes@ =~= old(reader).data@);
        }
        match decode_utf8_vec(&bytes) {
            Some(text) => Ok(HttpRequestBody { text, fields: None, files: None }),
            None => Err(
                Error::ReadError(
                    request_reader::Error::ReadFailed(
                        String::from_str("body is not valid UTF-8"),
                    ),
                ),
            ),
        }
    }
}

} // verus!
