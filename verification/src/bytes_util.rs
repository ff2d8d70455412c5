//! Byte-sequence searching and copying used by the multipart parser.

use vstd::prelude::*;

verus! {

/// Position of the first occurrence of `n` in `h` at or after `from`.
pub open spec fn find_sub(h: Seq<u8>, n: Seq<u8>, from: int) -> Option<int>
    decreases h.len() - from when 0 <= from
{
    if from + n.len() > h.len() {
        None
    } else if n.len() == 0 {
        Some(from)
    } else if h.subrange(from, from + n.len()) == n {
        Some(from)
    } else {
        find_sub(h, n, from + 1)
    }
}

pub broadcast proof fn lemma_find_sub_bounds(h: Seq<u8>, n: Seq<u8>, from: int)
    requires
        0 <= from,
    ensures
        #[trigger] find_sub(h, n, from) matches Some(i) ==> from <= i && i + n.len() <= h.len()
            && h.subrange(i, i + n.len()) == n,
    decreases h.len() - from,
{
    if from + n.len() > h.len() {
    } else if n.len() == 0 {
        assert(h.subrange(from, from + n.len()) =~= n);
    } else if h.subrange(from, from + n.len()) == n {
    } else {
        lemma_find_sub_bounds(h, n, from + 1);
    }
}

proof fn lemma_find_sub_step(h: Seq<u8>, n: Seq<u8>, from: int)
    requires
        0 <= from,
        0 < n.len(),
        from + n.len() <= h.len(),
        h.subrange(from, from + n.len()) != n,
    ensures
        find_sub(h, n, from) == find_sub(h, n, from + 1),
{
}

/// Whether `n` occurs in `h` at exactly position `at`.
pub fn match_at(h: &Vec<u8>, n: &Vec<u8>, at: usize) -> (r: bool)
    requires
        at + n@.len() <= h@.len(),
    ensures
        r == (h@.subrange(at as int, at + n@.len()) == n@),
{
    let mut k: usize = 0;
    let len = n.len();
    let h_len = h.len();
    while k < len
        invariant
            len == n@.len(),
            h_len == h@.len(),
            at + len <= h_len,
            k <= len,
            forall|m: int| 0 <= m < k ==> h@[at + m] == n@[m],
        decreases len - k,
    {
        if h[at + k] != n[k] {
            proof {
                assert(h@.subrange(at as int, at + n@.len())[k as int] != n@[k as int]);
            }
            return false;
        }
        k = k + 1;
    }
    proof {
        assert(h@.subrange(at as int, at + n@.len()) =~= n@);
    }
    true
}

/// First occurrence of `n` in `h` at or after `from`, as `find_sub` defines
/// it.
pub fn find_sub_at(h: &Vec<u8>, n: &Vec<u8>, from: usize) -> (r: Option<usize>)
    ensures
        match r {
            Some(i) => find_sub(h@, n@, from as int) == Some(i as int),
            None => find_sub(h@, n@, from as int) is None,
        },
{
    let h_len = h.len();
    let n_len = n.len();
    if n_len > h_len || from > h_len - n_len {
        return None;
    }
    if n_len == 0 {
        return Some(from);
    }
    let last_start = h_len - n_len;
    let mut i: usize = from;
    while i <= last_start
        invariant
            h_len == h@.len(),
            n_len == n@.len(),
            0 < n_len <= h_len,
            last_start == h_len - n_len,
            from <= i,
            i <= last_start + 1,
            find_sub(h@, n@, from as int) == find_sub(h@, n@, i as int),
        decreases last_start + 1 - i,
    {
        if match_at(h, n, i) {
            return Some(i);
        }
        proof {
            lemma_find_sub_step(h@, n@, i as int);
        }
        i = i + 1;
    }
    None
}

/// A copy of `v[a..b]` as a fresh vector.
pub fn copy_range(v: &Vec<u8>, a: usize, b: usize) -> (r: Vec<u8>)
    requires
        a <= b <= v@.len(),
    ensures
        r@ == v@.subrange(a as int, b as int),
{
    let mut out: Vec<u8> = Vec::new();
    let mut i: usize = a;
    while i < b
        invariant
            a <= i <= b <= v@.len(),
            out@ =~= v@.subrange(a as int, i as int),
        decreases b - i,
    {
        out.push(v[i]);
        proof {
            assert(out@ =~= v@.subrange(a as int, i + 1));
        }
        i = i + 1;
    }
    out
}

/// The concatenation of byte chunks in transmission order.
pub open spec fn concat_chunks_spec(cs: Seq<Vec<u8>>) -> Seq<u8>
    decreases cs.len(),
{
    if cs.len() == 0 {
        Seq::empty()
    } else {
        concat_chunks_spec(cs.drop_last()) + cs.last()@
    }
}

/// Concatenates body chunks into one buffer, pre-sizing it with the advisory
/// length hint; the hint never changes the result.
pub fn concat_chunks(chunks: &Vec<Vec<u8>>, size_hint: usize) -> (r: Vec<u8>)
    ensures
        r@ == concat_chunks_spec(chunks@),
{
    let mut out: Vec<u8> = Vec::with_capacity(size_hint);
    let mut i: usize = 0;
    let n = chunks.len();
    while i < n
        invariant
            n == chunks@.len(),
            i <= n,
            out@ == concat_chunks_spec(chunks@.take(i as int)),
        decreases n - i,
    {
        out.extend_from_slice(chunks[i].as_slice());
        proof {
            assert(chunks@.take(i + 1).drop_last() =~= chunks@.take(i as int));
            assert(chunks@.take(i + 1).last() == chunks@[i as int]);
        }
        i = i + 1;
    }
    proof {
        assert(chunks@.take(n as int) =~= chunks@);
    }
    out
}

} // verus!
