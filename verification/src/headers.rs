//! The request header mapping: case-insensitive names, one value per name,
//! later insertions replacing earlier values.

use vstd::prelude::*;
use vstd::utf8::{decode_utf8, encode_utf8, valid_utf8};
use vstd::utf8::{encode_utf8_decode_utf8, encode_utf8_valid_utf8, is_ascii_chars, is_ascii_chars_encode_utf8};

use crate::text::{eq_fold, str_eq_fold};

verus! {

/// Index of the first entry whose name equals `name` up to ASCII case,
/// or `s.len()` when there is none.
pub open spec fn find_idx(s: Seq<(Seq<char>, Seq<char>)>, name: Seq<char>) -> int
    decreases s.len(),
{
    if s.len() == 0 {
        0
    } else if eq_fold(s[0].0, name) {
        0
    } else {
        1 + find_idx(s.drop_first(), name)
    }
}

/// The value stored under `name` (case-insensitive), if any.
pub open spec fn lookup(s: Seq<(Seq<char>, Seq<char>)>, name: Seq<char>) -> Option<Seq<char>> {
    let j = find_idx(s, name);
    if j < s.len() {
        Some(s[j].1)
    } else {
        None
    }
}

/// The mapping after storing `value` under `name`: the first entry matching
/// `name` up to ASCII case keeps its stored spelling and takes the new value;
/// absent a match, the pair is appended.
pub open spec fn insert_view(
    s: Seq<(Seq<char>, Seq<char>)>,
    name: Seq<char>,
    value: Seq<char>,
) -> Seq<(Seq<char>, Seq<char>)> {
    let j = find_idx(s, name);
    if j < s.len() {
        s.update(j, (s[j].0, value))
    } else {
        s.push((name, value))
    }
}

/// `find_idx` is exactly the first matching position.
pub proof fn lemma_find_idx_at(s: Seq<(Seq<char>, Seq<char>)>, name: Seq<char>, k: int)
    requires
        0 <= k < s.len(),
        eq_fold(s[k].0, name),
        forall|m: int| 0 <= m < k ==> !eq_fold(#[trigger] s[m].0, name),
    ensures
        find_idx(s, name) == k,
    decreases s.len(),
{
    if k > 0 {
        assert forall|m: int| 0 <= m < k - 1 implies !eq_fold(#[trigger] s.drop_first()[m].0, name) by {
            assert(s.drop_first()[m] == s[m + 1]);
        }
        assert(s.drop_first()[k - 1] == s[k]);
        lemma_find_idx_at(s.drop_first(), name, k - 1);
    }
}

pub proof fn lemma_find_idx_none(s: Seq<(Seq<char>, Seq<char>)>, name: Seq<char>)
    requires
        forall|m: int| 0 <= m < s.len() ==> !eq_fold(#[trigger] s[m].0, name),
    ensures
        find_idx(s, name) == s.len(),
    decreases s.len(),
{
    if s.len() > 0 {
        assert forall|m: int| 0 <= m < s.len() - 1 implies !eq_fold(
            #[trigger] s.drop_first()[m].0,
            name,
        ) by {
            assert(s.drop_first()[m] == s[m + 1]);
        }
        lemma_find_idx_none(s.drop_first(), name);
    }
}

/// An HTTP header mapping. Lookup is case-insensitive over ASCII; at most one
/// entry exists per name (up to case), and a repeated insert replaces the
/// stored value (last wins).
pub struct Headers {
    entries: Vec<(String, String)>,
}

impl View for Headers {
    type V = Seq<(Seq<char>, Seq<char>)>;

    closed spec fn view(&self) -> Seq<(Seq<char>, Seq<char>)> {
        Seq::new(self.entries.len() as nat, |i: int| (self.entries[i].0@, self.entries[i].1@))
    }
}

impl Headers {
    /// No two entries share a name, up to ASCII case.
    pub open spec fn wf(&self) -> bool {
        forall|i: int, j: int|
            0 <= i < j < self@.len() ==> !eq_fold(#[trigger] self@[i].0, #[trigger] self@[j].0)
    }

    pub fn new() -> (r: Headers)
        ensures
            r@ =~= Seq::<(Seq<char>, Seq<char>)>::empty(),
            r.wf(),
    {
        Headers { entries: Vec::new() }
    }

    pub fn len(&self) -> (r: usize)
        ensures
            r == self@.len(),
    {
        self.entries.len()
    }

    /// The entries, in insertion order of their first occurrence.
    pub fn pairs(&self) -> (r: &Vec<(String, String)>)
        ensures
            r@.len() == self@.len(),
            forall|i: int|
                0 <= i < self@.len() ==> (#[trigger] r@[i].0)@ == self@[i].0 && r@[i].1@
                    == self@[i].1,
    {
        &self.entries
    }

    /// Stores `value` under `name`, replacing the value of an existing entry
    /// whose name matches up to ASCII case.
    pub fn insert(&mut self, name: String, value: String)
        requires
            old(self).wf(),
        ensures
            final(self)@ == insert_view(old(self)@, name@, value@),
            final(self).wf(),
    {
        let ghost s = old(self)@;
        let mut i: usize = 0;
        let n = self.entries.len();
        while i < n
            invariant
                self.entries@ == old(self).entries@,
                old(self).wf(),
                s == old(self)@,
                n == self.entries.len(),
                i <= n,
                forall|k: int| 0 <= k < i ==> !eq_fold(#[trigger] s[k].0, name@),
            decreases n - i,
        {
            if str_eq_fold(self.entries[i].0.as_str(), name.as_str()) {
                proof {
                    lemma_find_idx_at(s, name@, i as int);
                }
                let stored_name = self.entries[i].0.clone();
                self.entries[i] = (stored_name, value);
                proof {
                    assert(self@ =~= insert_view(s, name@, value@));
                    assert forall|a: int, b: int| 0 <= a < b < self@.len() implies !eq_fold(
                        #[trigger] self@[a].0,
                        #[trigger] self@[b].0,
                    ) by {
                        assert(self@[a].0 == s[a].0 && self@[b].0 == s[b].0);
                    }
                }
                return ;
            }
            i = i + 1;
        }
        proof {
            lemma_find_idx_none(s, name@);
        }
        self.entries.push((name, value));
        proof {
            assert(self@ =~= insert_view(s, name@, value@));
            assert forall|a: int, b: int| 0 <= a < b < self@.len() implies !eq_fold(
                #[trigger] self@[a].0,
                #[trigger] self@[b].0,
            ) by {
                if b < s.len() {
                    assert(self@[a].0 == s[a].0 && self@[b].0 == s[b].0);
                } else {
                    assert(self@[a].0 == s[a].0);
                }
            }
        }
    }

    /// Case-insensitive lookup of one header value.
    pub fn get(&self, name: &str) -> (r: Option<&String>)
        ensures
            r is Some <==> lookup(self@, name@) is Some,
            r is Some ==> r.unwrap()@ == lookup(self@, name@).unwrap(),
    {
        let ghost s = self@;
        let mut i: usize = 0;
        let n = self.entries.len();
        while i < n
            invariant
                n == self.entries.len(),
                i <= n,
                s == self@,
                forall|k: int| 0 <= k < i ==> !eq_fold(#[trigger] s[k].0, name@),
            decreases n - i,
        {
            if str_eq_fold(self.entries[i].0.as_str(), name) {
                proof {
                    lemma_find_idx_at(s, name@, i as int);
                }
                return Some(&self.entries[i].1);
            }
            i = i + 1;
        }
        proof {
            lemma_find_idx_none(s, name@);
        }
        None
    }
}

/// Bytes that render as visible ASCII text (space through tilde).
pub open spec fn visible_ascii(b: Seq<u8>) -> bool {
    forall|i: int| 0 <= i < b.len() ==> 32 <= #[trigger] b[i] <= 126
}

/// The characters of an ASCII byte sequence.
pub open spec fn ascii_chars_of(b: Seq<u8>) -> Seq<char> {
    Seq::new(b.len(), |i: int| b[i] as char)
}

/// ASCII bytes are valid UTF-8 and decode to themselves.
pub proof fn lemma_ascii_bytes_decode(b: Seq<u8>)
    requires
        forall|i: int| 0 <= i < b.len() ==> #[trigger] b[i] < 128,
    ensures
        valid_utf8(b),
        decode_utf8(b) == ascii_chars_of(b),
{
    let chars = ascii_chars_of(b);
    assert(is_ascii_chars(chars));
    is_ascii_chars_encode_utf8(chars);
    assert(encode_utf8(chars) =~= b);
    encode_utf8_valid_utf8(chars);
    encode_utf8_decode_utf8(chars);
}

/// The header mapping built from raw (name, value-bytes) pairs in order:
/// a pair whose value is visible ASCII is inserted (last wins), any other
/// pair is skipped because its value is not representable as plain text.
pub open spec fn convert_spec(raw: Seq<(String, Vec<u8>)>) -> Seq<(Seq<char>, Seq<char>)>
    decreases raw.len(),
{
    if raw.len() == 0 {
        Seq::empty()
    } else {
        let rest = convert_spec(raw.drop_last());
        let last = raw.last();
        if visible_ascii(last.1@) {
            insert_view(rest, last.0@, ascii_chars_of(last.1@))
        } else {
            rest
        }
    }
}

fn bytes_visible_ascii(b: &Vec<u8>) -> (r: bool)
    ensures
        r == visible_ascii(b@),
{
    let mut i: usize = 0;
    let n = b.len();
    while i < n
        invariant
            n == b@.len(),
            i <= n,
            forall|k: int| 0 <= k < i ==> 32 <= #[trigger] b@[k] <= 126,
        decreases n - i,
    {
        let x = b[i];
        if x < 32 || x > 126 {
            return false;
        }
        i = i + 1;
    }
    true
}

/// Projects raw header pairs into the text-only header mapping, skipping
/// values that are not visible ASCII.
pub fn convert_headers(raw: &Vec<(String, Vec<u8>)>) -> (r: Headers)
    ensures
        r@ == convert_spec(raw@),
        r.wf(),
{
    let mut out = Headers::new();
    let mut i: usize = 0;
    let n = raw.len();
    while i < n
        invariant
            n == raw@.len(),
            i <= n,
            out@ == convert_spec(raw@.take(i as int)),
            out.wf(),
        decreases n - i,
    {
        let value_ok = bytes_visible_ascii(&raw[i].1);
        if value_ok {
            proof {
                lemma_ascii_bytes_decode(raw@[i as int].1@);
            }
            let text = match crate::text::decode_utf8_vec(&raw[i].1) {
                Some(t) => t,
                None => {
                    proof {
                        assert(false);
                    }
                    String::new()
                },
            };
            let name = raw[i].0.clone();
            out.insert(name, text);
        }
        proof {
            assert(raw@.take(i + 1).drop_last() =~= raw@.take(i as int));
            assert(raw@.take(i + 1).last() == raw@[i as int]);
        }
        i = i + 1;
    }
    proof {
        assert(raw@.take(n as int) =~= raw@);
    }
    out
}

} // verus!
