//! The multipart/form-data framing grammar: a body is a delimiter line,
//! then parts — each a header block, an empty line, and raw data — up to a
//! closing delimiter. Parsing works on the drained body bytes; any framing
//! violation or truncation fails the whole parse.

use vstd::prelude::*;

use crate::bytes_util::{copy_range, find_sub, find_sub_at, lemma_find_sub_bounds, match_at};
use crate::kvlist::{insert_kv, kv_insert, kv_view, kv_wf, lookup_kv};
use vstd::utf8::{decode_utf8, valid_utf8};

verus! {

pub open spec fn crlf() -> Seq<u8> {
    seq![13u8, 10u8]
}

pub open spec fn crlf2() -> Seq<u8> {
    seq![13u8, 10u8, 13u8, 10u8]
}

pub open spec fn dashdash() -> Seq<u8> {
    seq![45u8, 45u8]
}

/// The delimiter introduced by a boundary token: two dashes then the token.
pub open spec fn delim_of(boundary: Seq<u8>) -> Seq<u8> {
    dashdash() + boundary
}

/// The (header block, data) byte pairs of the parts that follow position
/// `pos`, which sits just after a delimiter. `None` is a framing violation:
/// a truncated body, a missing empty line, or stray bytes after a delimiter.
pub open spec fn parse_parts_rec(body: Seq<u8>, delim: Seq<u8>, pos: int) -> Option<
    Seq<(Seq<u8>, Seq<u8>)>,
>
    decreases body.len() - pos when 0 <= pos via parse_parts_rec_dec
{
    if pos + 2 > body.len() {
        None
    } else if body.subrange(pos, pos + 2) == dashdash() {
        Some(Seq::empty())
    } else if body.subrange(pos, pos + 2) == crlf() {
        match find_sub(body, crlf2(), pos) {
            None => None,
            Some(h) => if h != pos && h < pos + 2 {
                None
            } else {
                let hdr = if h == pos {
                    Seq::<u8>::empty()
                } else {
                    body.subrange(pos + 2, h)
                };
                let data_start = h + 4;
                match find_sub(body, crlf() + delim, data_start) {
                    None => None,
                    Some(d) => match parse_parts_rec(body, delim, d + 2 + delim.len()) {
                        None => None,
                        Some(ps) => Some(seq![(hdr, body.subrange(data_start, d))] + ps),
                    },
                }
            },
        }
    } else {
        None
    }
}

#[via_fn]
proof fn parse_parts_rec_dec(body: Seq<u8>, delim: Seq<u8>, pos: int) {
    lemma_find_sub_bounds(body, crlf2(), pos);
    if pos + 2 <= body.len() && body.subrange(pos, pos + 2) == crlf() {
        if let Some(h) = find_sub(body, crlf2(), pos) {
            lemma_find_sub_bounds(body, crlf() + delim, h + 4);
        }
    }
}

/// The parts of a whole multipart body under a boundary: the body must open
/// with the delimiter, and the parts follow it.
pub open spec fn parts_of(body: Seq<u8>, boundary: Seq<u8>) -> Option<Seq<(Seq<u8>, Seq<u8>)>> {
    let delim = delim_of(boundary);
    if delim.len() <= body.len() && body.subrange(0, delim.len() as int) == delim {
        parse_parts_rec(body, delim, delim.len() as int)
    } else {
        None
    }
}

/// One framed part: its raw header block and its raw data bytes.
pub struct RawPart {
    pub headers: Vec<u8>,
    pub data: Vec<u8>,
}

/// The views of a sequence of framed parts.
pub open spec fn raw_views(ps: Seq<RawPart>) -> Seq<(Seq<u8>, Seq<u8>)> {
    Seq::new(ps.len(), |i: int| (ps[i].headers@, ps[i].data@))
}

/// Splits a multipart body into its framed parts, or reports the framing
/// violation.
pub fn split_parts(body: &Vec<u8>, boundary: &Vec<u8>) -> (r: Option<Vec<RawPart>>)
    ensures
        match r {
            Some(ps) => parts_of(body@, boundary@) == Some(raw_views(ps@)),
            None => parts_of(body@, boundary@) is None,
        },
{
    let body_len = body.len();
    let mut delim: Vec<u8> = Vec::new();
    delim.push(45);
    delim.push(45);
    delim.extend_from_slice(boundary.as_slice());
    proof {
        assert(delim@ =~= delim_of(boundary@));
    }
    let delim_len = delim.len();

    let mut dash2: Vec<u8> = Vec::new();
    dash2.push(45);
    dash2.push(45);
    proof {
        assert(dash2@ =~= dashdash());
    }
    let mut crlf_v: Vec<u8> = Vec::new();
    crlf_v.push(13);
    crlf_v.push(10);
    proof {
        assert(crlf_v@ =~= crlf());
    }
    let mut crlf2_v: Vec<u8> = Vec::new();
    crlf2_v.push(13);
    crlf2_v.push(10);
    crlf2_v.push(13);
    crlf2_v.push(10);
    proof {
        assert(crlf2_v@ =~= crlf2());
    }
    let mut crlf_delim: Vec<u8> = Vec::new();
    crlf_delim.push(13);
    crlf_delim.push(10);
    crlf_delim.extend_from_slice(delim.as_slice());
    proof {
        assert(crlf_delim@ =~= crlf() + delim@);
    }

    if body_len < delim_len {
        return None;
    }
    if !match_at(body, &delim, 0) {
        return None;
    }

    let mut parts: Vec<RawPart> = Vec::new();
    let mut pos: usize = delim_len;
    loop
        invariant
            body_len == body@.len(),
            delim_len == delim@.len(),
            delim@ == delim_of(boundary@),
            dash2@ == dashdash(),
            crlf_v@ == crlf(),
            crlf2_v@ == crlf2(),
            crlf_delim@ == crlf() + delim@,
            pos <= body_len,
            match parse_parts_rec(body@, delim@, pos as int) {
                Some(rest) => parts_of(body@, boundary@) == Some(raw_views(parts@) + rest),
                None => parts_of(body@, boundary@) is None,
            },
        decreases body_len - pos,
    {
        if body_len - pos < 2 {
            return None;
        }
        if match_at(body, &dash2, pos) {
            proof {
                assert(raw_views(parts@) + Seq::<(Seq<u8>, Seq<u8>)>::empty() =~= raw_views(
                    parts@,
                ));
            }
            return Some(parts);
        }
        if !match_at(body, &crlf_v, pos) {
            return None;
        }
        let h = match find_sub_at(body, &crlf2_v, pos) {
            Some(h) => h,
            None => {
                return None;
            },
        };
        proof {
            lemma_find_sub_bounds(body@, crlf2(), pos as int);
        }
        if h != pos && h < pos + 2 {
            return None;
        }
        let hdr: Vec<u8> = if h == pos {
            Vec::new()
        } else {
            copy_range(body, pos + 2, h)
        };
        let data_start = h + 4;
        let d = match find_sub_at(body, &crlf_delim, data_start) {
            Some(d) => d,
            None => {
                return None;
            },
        };
        proof {
            lemma_find_sub_bounds(body@, crlf() + delim@, data_start as int);
        }
        let data = copy_range(body, data_start, d);
        let ghost prev_parts = parts@;
        let ghost rest0 = parse_parts_rec(body@, delim@, pos as int);
        parts.push(RawPart { headers: hdr, data });
        pos = d + 2 + delim_len;
        proof {
            let rest1 = parse_parts_rec(body@, delim@, pos as int);
            match rest1 {
                Some(ps) => {
                    assert(rest0 == Some(seq![(raw_views(parts@).last().0, raw_views(
                        parts@,
                    ).last().1)] + ps));
                    assert(raw_views(parts@) + ps =~= raw_views(prev_parts) + (seq![
                        (raw_views(parts@).last().0, raw_views(parts@).last().1),
                    ] + ps));
                },
                None => {
                    assert(rest0 is None);
                },
            }
        }
    }
}

/// Space or horizontal tab.
pub open spec fn is_ws(b: u8) -> bool {
    b == 32 || b == 9
}

/// ASCII case folding on a byte.
pub open spec fn fold_byte(b: u8) -> u8 {
    if 65 <= b <= 90 {
        (b + 32) as u8
    } else {
        b
    }
}

pub open spec fn fold_bytes(s: Seq<u8>) -> Seq<u8> {
    Seq::new(s.len(), |i: int| fold_byte(s[i]))
}

/// The lines of a header block from `pos` on, split at each line break.
pub open spec fn split_lines_from(h: Seq<u8>, pos: int) -> Seq<Seq<u8>>
    decreases h.len() - pos when 0 <= pos <= h.len() via split_lines_from_dec
{
    match find_sub(h, crlf(), pos) {
        None => seq![h.subrange(pos, h.len() as int)],
        Some(i) => seq![h.subrange(pos, i)] + split_lines_from(h, i + 2),
    }
}

#[via_fn]
proof fn split_lines_from_dec(h: Seq<u8>, pos: int) {
    lemma_find_sub_bounds(h, crlf(), pos);
}

/// The semicolon-separated tokens of a parameter list from `pos` on.
pub open spec fn split_semi_from(b: Seq<u8>, pos: int) -> Seq<Seq<u8>>
    decreases b.len() - pos when 0 <= pos <= b.len() via split_semi_from_dec
{
    match find_sub(b, seq![59u8], pos) {
        None => seq![b.subrange(pos, b.len() as int)],
        Some(i) => seq![b.subrange(pos, i)] + split_semi_from(b, i + 1),
    }
}

#[via_fn]
proof fn split_semi_from_dec(b: Seq<u8>, pos: int) {
    lemma_find_sub_bounds(b, seq![59u8], pos);
}

/// The header name that marks the line carrying a part's field and file
/// names, lowercase.
pub open spec fn dispo_name() -> Seq<u8> {
    seq![
        99u8,
        111u8,
        110u8,
        116u8,
        101u8,
        110u8,
        116u8,
        45u8,
        100u8,
        105u8,
        115u8,
        112u8,
        111u8,
        115u8,
        105u8,
        116u8,
        105u8,
        111u8,
        110u8,
    ]
}

/// Whether a header line is a Content-Disposition line (name compared up to
/// ASCII case).
pub open spec fn is_dispo_line(line: Seq<u8>) -> bool {
    match find_sub(line, seq![58u8], 0) {
        None => false,
        Some(c) => fold_bytes(line.subrange(0, c)) == dispo_name(),
    }
}

/// The bytes after the colon of the first Content-Disposition line.
pub open spec fn dispo_of_lines(lines: Seq<Seq<u8>>) -> Option<Seq<u8>>
    decreases lines.len(),
{
    if lines.len() == 0 {
        None
    } else if is_dispo_line(lines[0]) {
        match find_sub(lines[0], seq![58u8], 0) {
            None => None,
            Some(c) => Some(lines[0].subrange(c + 1, lines[0].len() as int)),
        }
    } else {
        dispo_of_lines(lines.drop_first())
    }
}

/// Index of the first non-whitespace byte at or after `i`.
pub open spec fn trim_start_idx(b: Seq<u8>, i: int) -> int
    decreases b.len() - i when 0 <= i <= b.len()
{
    if i < b.len() && is_ws(b[i]) {
        trim_start_idx(b, i + 1)
    } else {
        i
    }
}

/// Index just past the last non-whitespace byte at or before `i`.
pub open spec fn trim_end_idx(b: Seq<u8>, i: int) -> int
    decreases i when 0 <= i <= b.len()
{
    if i > 0 && is_ws(b[i - 1]) {
        trim_end_idx(b, i - 1)
    } else {
        i
    }
}

/// The token without its leading and trailing whitespace.
pub open spec fn trim(b: Seq<u8>) -> Seq<u8> {
    let s = trim_start_idx(b, 0);
    let e = trim_end_idx(b, b.len() as int);
    if s <= e {
        b.subrange(s, e)
    } else {
        Seq::empty()
    }
}

pub proof fn lemma_trim_start_bounds(b: Seq<u8>, i: int)
    requires
        0 <= i <= b.len(),
    ensures
        i <= trim_start_idx(b, i) <= b.len(),
    decreases b.len() - i,
{
    if i < b.len() && is_ws(b[i]) {
        lemma_trim_start_bounds(b, i + 1);
    }
}

pub proof fn lemma_trim_end_bounds(b: Seq<u8>, i: int)
    requires
        0 <= i <= b.len(),
    ensures
        0 <= trim_end_idx(b, i) <= i,
    decreases i,
{
    if i > 0 && is_ws(b[i - 1]) {
        lemma_trim_end_bounds(b, i - 1);
    }
}

/// A quoted value without its quotes; anything else unchanged.
pub open spec fn unquote(v: Seq<u8>) -> Seq<u8> {
    if v.len() >= 2 && v[0] == 34 && v[v.len() - 1] == 34 {
        v.subrange(1, v.len() - 1)
    } else {
        v
    }
}

/// The value of `key` in one `key=value` token, after trimming; the key is
/// compared up to ASCII case and the value loses surrounding quotes.
pub open spec fn param_value(tok: Seq<u8>, key: Seq<u8>) -> Option<Seq<u8>> {
    let t = trim(tok);
    if t.len() > key.len() && fold_bytes(t.subrange(0, key.len() as int)) == key && t[key.len() as int]
        == 61 {
        Some(unquote(t.subrange(key.len() as int + 1, t.len() as int)))
    } else {
        None
    }
}

/// The first token that carries `key`, if any.
pub open spec fn find_param(toks: Seq<Seq<u8>>, key: Seq<u8>) -> Option<Seq<u8>>
    decreases toks.len(),
{
    if toks.len() == 0 {
        None
    } else if param_value(toks[0], key) is Some {
        param_value(toks[0], key)
    } else {
        find_param(toks.drop_first(), key)
    }
}

/// The value of the disposition parameter `key` of a part, read from the
/// part's raw header block.
pub open spec fn part_param(headers: Seq<u8>, key: Seq<u8>) -> Option<Seq<u8>> {
    match dispo_of_lines(split_lines_from(headers, 0)) {
        None => None,
        Some(params) => find_param(split_semi_from(params, 0), key),
    }
}

pub open spec fn name_key() -> Seq<u8> {
    seq![110u8, 97u8, 109u8, 101u8]
}

pub open spec fn filename_key() -> Seq<u8> {
    seq![102u8, 105u8, 108u8, 101u8, 110u8, 97u8, 109u8, 101u8]
}

/// The views of a list of copied line buffers.
pub open spec fn line_views(ls: Seq<Vec<u8>>) -> Seq<Seq<u8>> {
    Seq::new(ls.len(), |i: int| ls[i]@)
}

fn split_lines_exec(h: &Vec<u8>) -> (r: Vec<Vec<u8>>)
    ensures
        line_views(r@) == split_lines_from(h@, 0),
{
    let h_len = h.len();
    let mut crlf_v: Vec<u8> = Vec::new();
    crlf_v.push(13);
    crlf_v.push(10);
    proof {
        assert(crlf_v@ =~= crlf());
    }
    let mut acc: Vec<Vec<u8>> = Vec::new();
    let mut pos: usize = 0;
    loop
        invariant
            h_len == h@.len(),
            crlf_v@ == crlf(),
            pos <= h_len,
            split_lines_from(h@, 0) == line_views(acc@) + split_lines_from(h@, pos as int),
        decreases h_len - pos,
    {
        match find_sub_at(h, &crlf_v, pos) {
            Some(i) => {
                proof {
                    lemma_find_sub_bounds(h@, crlf(), pos as int);
                }
                let ghost prev = acc@;
                let line = copy_range(h, pos, i);
                acc.push(line);
                proof {
                    assert(line_views(acc@) + split_lines_from(h@, i + 2) =~= line_views(prev) + (
                    seq![h@.subrange(pos as int, i as int)] + split_lines_from(h@, i + 2)));
                }
                pos = i + 2;
            },
            None => {
                let ghost prev = acc@;
                let line = copy_range(h, pos, h_len);
                acc.push(line);
                proof {
                    assert(line_views(acc@) =~= line_views(prev) + seq![
                        h@.subrange(pos as int, h_len as int),
                    ]);
                }
                return acc;
            },
        }
    }
}

/// Whether the fold of `t`'s first `key.len()` bytes equals `key`.
fn fold_prefix_matches(t: &Vec<u8>, key: &Vec<u8>) -> (r: bool)
    requires
        key@.len() <= t@.len(),
    ensures
        r == (fold_bytes(t@.subrange(0, key@.len() as int)) == key@),
{
    let mut i: usize = 0;
    let n = key.len();
    while i < n
        invariant
            n == key@.len(),
            n <= t@.len(),
            i <= n,
            forall|k: int| 0 <= k < i ==> fold_byte(t@[k]) == key@[k],
        decreases n - i,
    {
        let b = t[i];
        let f = if 65 <= b && b <= 90 {
            b + 32
        } else {
            b
        };
        if f != key[i] {
            proof {
                assert(fold_bytes(t@.subrange(0, n as int))[i as int] != key@[i as int]);
            }
            return false;
        }
        i = i + 1;
    }
    proof {
        assert(fold_bytes(t@.subrange(0, n as int)) =~= key@);
    }
    true
}

fn is_dispo_exec(line: &Vec<u8>) -> (r: bool)
    ensures
        r == is_dispo_line(line@),
{
    let mut colon_v: Vec<u8> = Vec::new();
    colon_v.push(58);
    proof {
        assert(colon_v@ =~= seq![58u8]);
    }
    let mut dn: Vec<u8> = Vec::new();
    dn.push(99);
    dn.push(111);
    dn.push(110);
    dn.push(116);
    dn.push(101);
    dn.push(110);
    dn.push(116);
    dn.push(45);
    dn.push(100);
    dn.push(105);
    dn.push(115);
    dn.push(112);
    dn.push(111);
    dn.push(115);
    dn.push(105);
    dn.push(116);
    dn.push(105);
    dn.push(111);
    dn.push(110);
    proof {
        assert(dn@ =~= dispo_name());
    }
    match find_sub_at(line, &colon_v, 0) {
        None => false,
        Some(c) => {
            proof {
                lemma_find_sub_bounds(line@, seq![58u8], 0);
            }
            if c != dn.len() {
                proof {
                    assert(fold_bytes(line@.subrange(0, c as int)).len() == c);
                }
                return false;
            }
            let name = copy_range(line, 0, c);
            let m = fold_prefix_matches(&name, &dn);
            proof {
                assert(name@.subrange(0, c as int) =~= name@);
            }
            m
        },
    }
}

fn dispo_of_lines_exec(lines: &Vec<Vec<u8>>) -> (r: Option<Vec<u8>>)
    ensures
        match r {
            Some(p) => dispo_of_lines(line_views(lines@)) == Some(p@),
            None => dispo_of_lines(line_views(lines@)) is None,
        },
{
    let ghost full = line_views(lines@);
    let n = lines.len();
    let mut i: usize = 0;
    let mut colon_v: Vec<u8> = Vec::new();
    colon_v.push(58);
    proof {
        assert(colon_v@ =~= seq![58u8]);
        assert(full.skip(0) =~= full);
    }
    while i < n
        invariant
            full == line_views(lines@),
            colon_v@ == seq![58u8],
            n == lines@.len(),
            i <= n,
            dispo_of_lines(full) == dispo_of_lines(full.skip(i as int)),
        decreases n - i,
    {
        proof {
            assert(full.skip(i as int)[0] == full[i as int]);
        }
        if is_dispo_exec(&lines[i]) {
            let line = &lines[i];
            match find_sub_at(line, &colon_v, 0) {
                Some(c) => {
                    let ll = line.len();
                    proof {
                        lemma_find_sub_bounds(line@, seq![58u8], 0);
                    }
                    let params = copy_range(line, c + 1, ll);
                    return Some(params);
                },
                None => {
                    proof {
                        assert(false);
                    }
                    return None;
                },
            }
        }
        proof {
            assert(full.skip(i as int).drop_first() =~= full.skip(i + 1));
        }
        i = i + 1;
    }
    proof {
        assert(full.skip(n as int).len() == 0);
    }
    None
}

fn trim_range(b: &Vec<u8>) -> (r: (usize, usize))
    ensures
        r.0 == trim_start_idx(b@, 0),
        r.1 == trim_end_idx(b@, b@.len() as int),
{
    let n = b.len();
    let mut s: usize = 0;
    while s < n && (b[s] == 32 || b[s] == 9)
        invariant
            n == b@.len(),
            s <= n,
            trim_start_idx(b@, 0) == trim_start_idx(b@, s as int),
        decreases n - s,
    {
        s = s + 1;
    }
    let mut e: usize = n;
    while e > 0 && (b[e - 1] == 32 || b[e - 1] == 9)
        invariant
            n == b@.len(),
            e <= n,
            trim_end_idx(b@, n as int) == trim_end_idx(b@, e as int),
        decreases e,
    {
        e = e - 1;
    }
    (s, e)
}

fn param_value_exec(tok: &Vec<u8>, key: &Vec<u8>) -> (r: Option<Vec<u8>>)
    ensures
        match r {
            Some(v) => param_value(tok@, key@) == Some(v@),
            None => param_value(tok@, key@) is None,
        },
{
    let (s, e) = trim_range(tok);
    proof {
        lemma_trim_start_bounds(tok@, 0);
        lemma_trim_end_bounds(tok@, tok@.len() as int);
    }
    if s > e {
        proof {
            assert(trim(tok@).len() == 0);
        }
        return None;
    }
    let t = copy_range(tok, s, e);
    proof {
        assert(t@ == trim(tok@));
    }
    let klen = key.len();
    if t.len() <= klen {
        return None;
    }
    if !fold_prefix_matches(&t, key) {
        return None;
    }
    if t[klen] != 61 {
        return None;
    }
    let v = copy_range(&t, klen + 1, t.len());
    let vlen = v.len();
    if vlen >= 2 && v[0] == 34 && v[vlen - 1] == 34 {
        let inner = copy_range(&v, 1, vlen - 1);
        proof {
            assert(unquote(v@) == v@.subrange(1, v@.len() - 1));
        }
        Some(inner)
    } else {
        proof {
            assert(unquote(v@) == v@);
        }
        Some(v)
    }
}

/// The disposition parameter `key` of one part's raw header block, as
/// `part_param` defines it.
pub fn part_param_exec(headers: &Vec<u8>, key: &Vec<u8>) -> (r: Option<Vec<u8>>)
    ensures
        match r {
            Some(v) => part_param(headers@, key@) == Some(v@),
            None => part_param(headers@, key@) is None,
        },
{
    let lines = split_lines_exec(headers);
    let params = match dispo_of_lines_exec(&lines) {
        Some(p) => p,
        None => {
            return None;
        },
    };
    let ghost toks = split_semi_from(params@, 0);
    let p_len = params.len();
    let mut semi_v: Vec<u8> = Vec::new();
    semi_v.push(59);
    proof {
        assert(semi_v@ =~= seq![59u8]);
    }
    let mut pos: usize = 0;
    let ghost mut seen: Seq<Seq<u8>> = Seq::empty();
    loop
        invariant
            p_len == params@.len(),
            semi_v@ == seq![59u8],
            pos <= p_len,
            part_param(headers@, key@) == find_param(split_semi_from(params@, 0), key@),
            split_semi_from(params@, 0) == seen + split_semi_from(params@, pos as int),
            find_param(seen, key@) is None,
        decreases p_len - pos,
    {
        match find_sub_at(&params, &semi_v, pos) {
            Some(i) => {
                proof {
                    lemma_find_sub_bounds(params@, seq![59u8], pos as int);
                }
                let tok = copy_range(&params, pos, i);
                let hit = param_value_exec(&tok, key);
                proof {
                    assert(split_semi_from(params@, pos as int)[0] == tok@);
                }
                match hit {
                    Some(v) => {
                        proof {
                            lemma_find_param_prefix(seen, split_semi_from(params@, pos as int), key@);
                        }
                        return Some(v);
                    },
                    None => {},
                }
                proof {
                    assert(split_semi_from(params@, pos as int).drop_first() =~= split_semi_from(
                        params@,
                        i + 1,
                    ));
                    assert((seen + split_semi_from(params@, pos as int)) =~= ((seen + seq![tok@])
                        + split_semi_from(params@, i + 1)));
                    lemma_find_param_push(seen, tok@, key@);
                    seen = seen + seq![tok@];
                }
                pos = i + 1;
            },
            None => {
                let tok = copy_range(&params, pos, p_len);
                let hit = param_value_exec(&tok, key);
                proof {
                    assert(split_semi_from(params@, pos as int) =~= seq![tok@]);
                }
                match hit {
                    Some(v) => {
                        proof {
                            lemma_find_param_prefix(seen, split_semi_from(params@, pos as int), key@);
                        }
                        return Some(v);
                    },
                    None => {
                        proof {
                            lemma_find_param_push(seen, tok@, key@);
                            assert(seen + seq![tok@] =~= split_semi_from(params@, 0));
                        }
                        return None;
                    },
                }
            },
        }
    }
}

/// Looking a key up in a token list whose searched prefix has no match
/// reduces to looking in the remainder.
proof fn lemma_find_param_prefix(seen: Seq<Seq<u8>>, rest: Seq<Seq<u8>>, key: Seq<u8>)
    requires
        find_param(seen, key) is None,
    ensures
        find_param(seen + rest, key) == find_param(rest, key),
    decreases seen.len(),
{
    if seen.len() == 0 {
        assert(seen + rest =~= rest);
    } else {
        assert((seen + rest)[0] == seen[0]);
        assert((seen + rest).drop_first() =~= seen.drop_first() + rest);
        assert(find_param(seen.drop_first(), key) is None);
        lemma_find_param_prefix(seen.drop_first(), rest, key);
    }
}

/// How one classified multipart body reads, at the level of views: either
/// the field map and the file parts, or the first violation hit in arrival
/// order.
pub enum ClassifySpec {
    /// Text fields by name (unique, last value wins) and one (declared file
    /// name, data bytes) pair per file part, in arrival order.
    Done { fields: Seq<(Seq<char>, Seq<char>)>, files: Seq<(Seq<char>, Seq<u8>)> },
    /// A declared part name or file name that is not valid UTF-8.
    BadHeader,
    /// A text field whose value is not valid UTF-8, named.
    BadField { name: Seq<char> },
}

/// Classifies the framed parts in arrival order. A part with a file name is
/// a file part; a part with only a field name is a text field whose bytes
/// must decode as UTF-8; a part with neither is ignored.
pub open spec fn classify_rec(
    parts: Seq<(Seq<u8>, Seq<u8>)>,
    fields: Seq<(Seq<char>, Seq<char>)>,
    files: Seq<(Seq<char>, Seq<u8>)>,
) -> ClassifySpec
    decreases parts.len(),
{
    if parts.len() == 0 {
        ClassifySpec::Done { fields, files }
    } else {
        let hdr = parts[0].0;
        let data = parts[0].1;
        match part_param(hdr, filename_key()) {
            Some(fnb) => if !valid_utf8(fnb) {
                ClassifySpec::BadHeader
            } else {
                classify_rec(parts.drop_first(), fields, files.push((decode_utf8(fnb), data)))
            },
            None => match part_param(hdr, name_key()) {
                Some(nb) => if !valid_utf8(nb) {
                    ClassifySpec::BadHeader
                } else if !valid_utf8(data) {
                    ClassifySpec::BadField { name: decode_utf8(nb) }
                } else {
                    classify_rec(
                        parts.drop_first(),
                        insert_kv(fields, decode_utf8(nb), decode_utf8(data)),
                        files,
                    )
                },
                None => classify_rec(parts.drop_first(), fields, files),
            },
        }
    }
}

pub open spec fn classify_spec(parts: Seq<(Seq<u8>, Seq<u8>)>) -> ClassifySpec {
    classify_rec(parts, Seq::empty(), Seq::empty())
}

/// One uploaded file part before spooling: the declared file name and the
/// transmitted bytes.
pub struct FilePart {
    pub name: String,
    pub data: Vec<u8>,
}

pub open spec fn file_views(fs: Seq<FilePart>) -> Seq<(Seq<char>, Seq<u8>)> {
    Seq::new(fs.len(), |i: int| (fs[i].name@, fs[i].data@))
}

/// Why a framed multipart body could not be classified.
pub enum ClassifyError {
    /// A declared part name or file name that is not valid UTF-8.
    InvalidHeaderEncoding,
    /// A text field whose value is not valid UTF-8, carrying the field name.
    FieldInvalidUtf8(String),
}

/// Splits framed parts into the text field map and the file parts, as
/// `classify_spec` defines it.
pub fn classify_parts(parts: Vec<RawPart>) -> (r: Result<
    (Vec<(String, String)>, Vec<FilePart>),
    ClassifyError,
>)
    ensures
        match r {
            Ok(out) => classify_spec(raw_views(parts@)) == (ClassifySpec::Done {
                fields: kv_view(out.0@),
                files: file_views(out.1@),
            }) && kv_wf(kv_view(out.0@)),
            Err(ClassifyError::InvalidHeaderEncoding) => classify_spec(raw_views(parts@))
                is BadHeader,
            Err(ClassifyError::FieldInvalidUtf8(n)) => classify_spec(raw_views(parts@))
                == (ClassifySpec::BadField { name: n@ }),
        },
{
    let ghost full = raw_views(parts@);
    let mut rest = parts;
    let mut fields: Vec<(String, String)> = Vec::new();
    let mut files: Vec<FilePart> = Vec::new();

    let mut name_v: Vec<u8> = Vec::new();
    name_v.push(110);
    name_v.push(97);
    name_v.push(109);
    name_v.push(101);
    proof {
        assert(name_v@ =~= name_key());
    }
    let mut filename_v: Vec<u8> = Vec::new();
    filename_v.push(102);
    filename_v.push(105);
    filename_v.push(108);
    filename_v.push(101);
    filename_v.push(110);
    filename_v.push(97);
    filename_v.push(109);
    filename_v.push(101);
    proof {
        assert(filename_v@ =~= filename_key());
        assert(kv_view(fields@) =~= Seq::<(Seq<char>, Seq<char>)>::empty());
        assert(file_views(files@) =~= Seq::<(Seq<char>, Seq<u8>)>::empty());
    }

    while rest.len() > 0
        invariant
            full == raw_views(parts@),
            name_v@ == name_key(),
            filename_v@ == filename_key(),
            kv_wf(kv_view(fields@)),
            classify_spec(full) == classify_rec(
                raw_views(rest@),
                kv_view(fields@),
                file_views(files@),
            ),
        decreases rest@.len(),
    {
        let ghost rest0 = raw_views(rest@);
        let p = rest.remove(0);
        proof {
            assert(raw_views(rest@) =~= rest0.drop_first());
            assert(rest0[0] == (p.headers@, p.data@));
        }
        match part_param_exec(&p.headers, &filename_v) {
            Some(fnb) => {
                match crate::text::decode_utf8_vec(&fnb) {
                    Some(fname) => {
                        let ghost files0 = file_views(files@);
                        files.push(FilePart { name: fname, data: p.data });
                        proof {
                            assert(file_views(files@) =~= files0.push(
                                (decode_utf8(fnb@), rest0[0].1),
                            ));
                        }
                    },
                    None => {
                        return Err(ClassifyError::InvalidHeaderEncoding);
                    },
                }
            },
            None => {
                match part_param_exec(&p.headers, &name_v) {
                    Some(nb) => {
                        let name = match crate::text::decode_utf8_vec(&nb) {
                            Some(name) => name,
                            None => {
                                return Err(ClassifyError::InvalidHeaderEncoding);
                            },
                        };
                        match crate::text::decode_utf8_vec(&p.data) {
                            Some(value) => {
                                kv_insert(&mut fields, name, value);
                            },
                            None => {
                                return Err(ClassifyError::FieldInvalidUtf8(name));
                            },
                        }
                    },
                    None => {},
                }
            },
        }
    }
    proof {
        assert(raw_views(rest@).len() == 0);
    }
    Ok((fields, files))
}

/// The (declared name, data) pairs of exactly the parts that carry a file
/// name, in arrival order.
pub open spec fn file_parts_of(parts: Seq<(Seq<u8>, Seq<u8>)>) -> Seq<(Seq<char>, Seq<u8>)>
    decreases parts.len(),
{
    if parts.len() == 0 {
        Seq::empty()
    } else {
        let rest = file_parts_of(parts.drop_first());
        match part_param(parts[0].0, filename_key()) {
            Some(fnb) => seq![(decode_utf8(fnb), parts[0].1)] + rest,
            None => rest,
        }
    }
}

/// The decoded value of the last part that is a text field named `name`,
/// if any: a later part with the same name wins.
pub open spec fn last_field_value(parts: Seq<(Seq<u8>, Seq<u8>)>, name: Seq<char>) -> Option<
    Seq<char>,
>
    decreases parts.len(),
{
    if parts.len() == 0 {
        None
    } else {
        let head = {
            let is_field = part_param(parts[0].0, filename_key()) is None && part_param(
                parts[0].0,
                name_key(),
            ) is Some;
            if is_field && valid_utf8(part_param(parts[0].0, name_key()).unwrap()) && decode_utf8(
                part_param(parts[0].0, name_key()).unwrap(),
            ) == name && valid_utf8(parts[0].1) {
                Some(decode_utf8(parts[0].1))
            } else {
                None
            }
        };
        match last_field_value(parts.drop_first(), name) {
            Some(v) => Some(v),
            None => head,
        }
    }
}

proof fn lemma_classify_files_rec(
    parts: Seq<(Seq<u8>, Seq<u8>)>,
    fields: Seq<(Seq<char>, Seq<char>)>,
    files: Seq<(Seq<char>, Seq<u8>)>,
)
    requires
        classify_rec(parts, fields, files) matches ClassifySpec::Done { .. },
    ensures
        classify_rec(parts, fields, files) matches ClassifySpec::Done { files: l, .. } && l
            == files + file_parts_of(parts),
    decreases parts.len(),
{
    if parts.len() == 0 {
        assert(files + file_parts_of(parts) =~= files);
    } else {
        match part_param(parts[0].0, filename_key()) {
            Some(fnb) => {
                lemma_classify_files_rec(
                    parts.drop_first(),
                    fields,
                    files.push((decode_utf8(fnb), parts[0].1)),
                );
                assert(files.push((decode_utf8(fnb), parts[0].1)) + file_parts_of(
                    parts.drop_first(),
                ) =~= files + file_parts_of(parts));
            },
            None => match part_param(parts[0].0, name_key()) {
                Some(nb) => {
                    lemma_classify_files_rec(
                        parts.drop_first(),
                        insert_kv(fields, decode_utf8(nb), decode_utf8(parts[0].1)),
                        files,
                    );
                },
                None => {
                    lemma_classify_files_rec(parts.drop_first(), fields, files);
                },
            },
        }
    }
}

/// Classification yields exactly one (declared name, data) pair per part
/// with a file name, in arrival order, with the data equal to the part's
/// transmitted bytes.
pub proof fn lemma_classify_files_exact(parts: Seq<(Seq<u8>, Seq<u8>)>)
    requires
        classify_spec(parts) matches ClassifySpec::Done { .. },
    ensures
        classify_spec(parts) matches ClassifySpec::Done { files: l, .. } && l == file_parts_of(
            parts,
        ),
{
    lemma_classify_files_rec(parts, Seq::empty(), Seq::empty());
    assert(Seq::<(Seq<char>, Seq<u8>)>::empty() + file_parts_of(parts) =~= file_parts_of(parts));
}

proof fn lemma_classify_fields_rec(
    parts: Seq<(Seq<u8>, Seq<u8>)>,
    fields: Seq<(Seq<char>, Seq<char>)>,
    files: Seq<(Seq<char>, Seq<u8>)>,
    name: Seq<char>,
)
    requires
        classify_rec(parts, fields, files) matches ClassifySpec::Done { .. },
    ensures
        classify_rec(parts, fields, files) matches ClassifySpec::Done { fields: f, .. } && lookup_kv(
            f,
            name,
        ) == (match last_field_value(parts, name) {
            Some(v) => Some(v),
            None => lookup_kv(fields, name),
        }),
    decreases parts.len(),
{
    if parts.len() == 0 {
    } else {
        match part_param(parts[0].0, filename_key()) {
            Some(fnb) => {
                lemma_classify_fields_rec(
                    parts.drop_first(),
                    fields,
                    files.push((decode_utf8(fnb), parts[0].1)),
                    name,
                );
            },
            None => match part_param(parts[0].0, name_key()) {
                Some(nb) => {
                    let n0 = decode_utf8(nb);
                    let v0 = decode_utf8(parts[0].1);
                    lemma_classify_fields_rec(
                        parts.drop_first(),
                        insert_kv(fields, n0, v0),
                        files,
                        name,
                    );
                    crate::kvlist::lemma_insert_kv_lookup(fields, n0, v0, name);
                },
                None => {
                    lemma_classify_fields_rec(parts.drop_first(), fields, files, name);
                },
            },
        }
    }
}

/// Classification's field map holds exactly the name-to-value pairs of the
/// parts that lack a file name: looking any name up yields the decoded
/// value of the last such part with that name, and nothing else.
pub proof fn lemma_classify_fields_exact(parts: Seq<(Seq<u8>, Seq<u8>)>, name: Seq<char>)
    requires
        classify_spec(parts) matches ClassifySpec::Done { .. },
    ensures
        classify_spec(parts) matches ClassifySpec::Done { fields: f, .. } && lookup_kv(f, name)
            == last_field_value(parts, name),
{
    lemma_classify_fields_rec(parts, Seq::empty(), Seq::empty(), name);
    crate::kvlist::lemma_find_kv_bounds(Seq::empty(), name);
}

proof fn lemma_find_param_push(seen: Seq<Seq<u8>>, tok: Seq<u8>, key: Seq<u8>)
    requires
        find_param(seen, key) is None,
        param_value(tok, key) is None,
    ensures
        find_param(seen + seq![tok], key) is None,
    decreases seen.len(),
{
    if seen.len() == 0 {
        assert(seen + seq![tok] =~= seq![tok]);
    } else {
        assert((seen + seq![tok])[0] == seen[0]);
        assert((seen + seq![tok]).drop_first() =~= seen.drop_first() + seq![tok]);
        assert(find_param(seen.drop_first(), key) is None);
        lemma_find_param_push(seen.drop_first(), tok, key);
    }
}

} // verus!
