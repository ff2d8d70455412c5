//! Association lists from string keys to string values with unique keys and
//! last-wins insertion, used for multipart form fields and context variables.

use vstd::prelude::*;

use crate::text::str_eq;

verus! {

/// The view of a list of owned string pairs.
pub open spec fn kv_view(v: Seq<(String, String)>) -> Seq<(Seq<char>, Seq<char>)> {
    Seq::new(v.len(), |i: int| (v[i].0@, v[i].1@))
}

/// Index of the first entry with exactly this key, or `s.len()` when absent.
pub open spec fn find_kv(s: Seq<(Seq<char>, Seq<char>)>, key: Seq<char>) -> int
    decreases s.len(),
{
    if s.len() == 0 {
        0
    } else if s[0].0 == key {
        0
    } else {
        1 + find_kv(s.drop_first(), key)
    }
}

/// The value stored under `key`, if any.
pub open spec fn lookup_kv(s: Seq<(Seq<char>, Seq<char>)>, key: Seq<char>) -> Option<Seq<char>> {
    let j = find_kv(s, key);
    if j < s.len() {
        Some(s[j].1)
    } else {
        None
    }
}

/// The list after storing `value` under `key`: an existing entry takes the
/// new value, otherwise the pair is appended.
pub open spec fn insert_kv(
    s: Seq<(Seq<char>, Seq<char>)>,
    key: Seq<char>,
    value: Seq<char>,
) -> Seq<(Seq<char>, Seq<char>)> {
    let j = find_kv(s, key);
    if j < s.len() {
        s.update(j, (key, value))
    } else {
        s.push((key, value))
    }
}

/// No two entries share a key.
pub open spec fn kv_wf(s: Seq<(Seq<char>, Seq<char>)>) -> bool {
    forall|i: int, j: int| 0 <= i < j < s.len() ==> (#[trigger] s[i].0) != (#[trigger] s[j].0)
}

pub broadcast proof fn lemma_find_kv_bounds(s: Seq<(Seq<char>, Seq<char>)>, key: Seq<char>)
    ensures
        0 <= #[trigger] find_kv(s, key) <= s.len(),
        find_kv(s, key) < s.len() ==> s[find_kv(s, key)].0 == key,
        forall|k: int| 0 <= k < find_kv(s, key) ==> (#[trigger] s[k].0) != key,
    decreases s.len(),
{
    if s.len() > 0 && s[0].0 != key {
        lemma_find_kv_bounds(s.drop_first(), key);
        assert forall|k: int| 0 <= k < find_kv(s, key) implies (#[trigger] s[k].0) != key by {
            if k > 0 {
                assert(s.drop_first()[k - 1] == s[k]);
            }
        }
    }
}

pub proof fn lemma_find_kv_at(s: Seq<(Seq<char>, Seq<char>)>, key: Seq<char>, k: int)
    requires
        0 <= k < s.len(),
        s[k].0 == key,
        forall|m: int| 0 <= m < k ==> (#[trigger] s[m].0) != key,
    ensures
        find_kv(s, key) == k,
    decreases s.len(),
{
    if k > 0 {
        assert forall|m: int| 0 <= m < k - 1 implies (#[trigger] s.drop_first()[m].0) != key by {
            assert(s.drop_first()[m] == s[m + 1]);
        }
        assert(s.drop_first()[k - 1] == s[k]);
        lemma_find_kv_at(s.drop_first(), key, k - 1);
    }
}

pub proof fn lemma_find_kv_none(s: Seq<(Seq<char>, Seq<char>)>, key: Seq<char>)
    requires
        forall|m: int| 0 <= m < s.len() ==> (#[trigger] s[m].0) != key,
    ensures
        find_kv(s, key) == s.len(),
    decreases s.len(),
{
    if s.len() > 0 {
        assert forall|m: int| 0 <= m < s.len() - 1 implies (#[trigger] s.drop_first()[m].0)
            != key by {
            assert(s.drop_first()[m] == s[m + 1]);
        }
        lemma_find_kv_none(s.drop_first(), key);
    }
}

/// Inserting under one key changes exactly that key's lookup and no other.
pub proof fn lemma_insert_kv_lookup(
    s: Seq<(Seq<char>, Seq<char>)>,
    k: Seq<char>,
    v: Seq<char>,
    k2: Seq<char>,
)
    ensures
        lookup_kv(insert_kv(s, k, v), k2) == if k2 == k {
            Some(v)
        } else {
            lookup_kv(s, k2)
        },
{
    lemma_find_kv_bounds(s, k);
    let j = find_kv(s, k);
    if j < s.len() {
        let u = s.update(j, (k, v));
        if k2 == k {
            lemma_find_kv_at(u, k, j);
        } else {
            lemma_find_kv_bounds(s, k2);
            let j2 = find_kv(s, k2);
            if j2 < s.len() {
                assert(u[j2].0 == k2);
                assert forall|m: int| 0 <= m < j2 implies (#[trigger] u[m].0) != k2 by {
                    if m != j {
                        assert(u[m] == s[m]);
                    }
                }
                lemma_find_kv_at(u, k2, j2);
            } else {
                assert forall|m: int| 0 <= m < u.len() implies (#[trigger] u[m].0) != k2 by {
                    if m != j {
                        assert(u[m] == s[m]);
                    }
                }
                lemma_find_kv_none(u, k2);
            }
        }
    } else {
        let u = s.push((k, v));
        if k2 == k {
            assert(u[s.len() as int].0 == k);
            assert forall|m: int| 0 <= m < s.len() implies (#[trigger] u[m].0) != k by {
                assert(u[m] == s[m]);
            }
            lemma_find_kv_at(u, k, s.len() as int);
        } else {
            lemma_find_kv_bounds(s, k2);
            let j2 = find_kv(s, k2);
            if j2 < s.len() {
                assert(u[j2].0 == k2);
                assert forall|m: int| 0 <= m < j2 implies (#[trigger] u[m].0) != k2 by {
                    assert(u[m] == s[m]);
                }
                lemma_find_kv_at(u, k2, j2);
            } else {
                assert forall|m: int| 0 <= m < u.len() implies (#[trigger] u[m].0) != k2 by {
                    if m < s.len() {
                        assert(u[m] == s[m]);
                    }
                }
                lemma_find_kv_none(u, k2);
            }
        }
    }
}

/// Exact-key lookup in a list of string pairs.
pub fn kv_get<'a>(entries: &'a Vec<(String, String)>, key: &str) -> (r: Option<&'a String>)
    ensures
        r is Some <==> lookup_kv(kv_view(entries@), key@) is Some,
        r is Some ==> r.unwrap()@ == lookup_kv(kv_view(entries@), key@).unwrap(),
{
    let ghost s = kv_view(entries@);
    let mut i: usize = 0;
    let n = entries.len();
    while i < n
        invariant
            s == kv_view(entries@),
            n == entries.len(),
            i <= n,
            forall|k: int| 0 <= k < i ==> (#[trigger] s[k].0) != key@,
        decreases n - i,
    {
        if str_eq(entries[i].0.as_str(), key) {
            proof {
                lemma_find_kv_at(s, key@, i as int);
            }
            return Some(&entries[i].1);
        }
        i = i + 1;
    }
    proof {
        lemma_find_kv_none(s, key@);
    }
    None
}

/// Stores `value` under `key`, replacing the value of an existing entry.
pub fn kv_insert(entries: &mut Vec<(String, String)>, key: String, value: String)
    requires
        kv_wf(kv_view(old(entries)@)),
    ensures
        kv_view(final(entries)@) == insert_kv(kv_view(old(entries)@), key@, value@),
        kv_wf(kv_view(final(entries)@)),
{
    let ghost s = kv_view(old(entries)@);
    let mut i: usize = 0;
    let n = entries.len();
    while i < n
        invariant
            entries@ == old(entries)@,
            kv_wf(s),
            s == kv_view(entries@),
            n == entries.len(),
            i <= n,
            forall|k: int| 0 <= k < i ==> (#[trigger] s[k].0) != key@,
        decreases n - i,
    {
        if str_eq(entries[i].0.as_str(), key.as_str()) {
            proof {
                lemma_find_kv_at(s, key@, i as int);
            }
            entries[i] = (key, value);
            proof {
                assert(kv_view(entries@) =~= insert_kv(s, key@, value@));
                assert forall|a: int, b: int|
                    0 <= a < b < kv_view(entries@).len() implies (#[trigger] kv_view(
                    entries@,
                )[a].0) != (#[trigger] kv_view(entries@)[b].0) by {
                    assert(kv_view(entries@)[a].0 == s[a].0 && kv_view(entries@)[b].0 == s[b].0);
                }
            }
            return ;
        }
        i = i + 1;
    }
    proof {
        lemma_find_kv_none(s, key@);
    }
    entries.push((key, value));
    proof {
        assert(kv_view(entries@) =~= insert_kv(s, key@, value@));
        assert forall|a: int, b: int| 0 <= a < b < kv_view(entries@).len() implies (
        #[trigger] kv_view(entries@)[a].0) != (#[trigger] kv_view(entries@)[b].0) by {
            if b < s.len() {
                assert(kv_view(entries@)[a].0 == s[a].0 && kv_view(entries@)[b].0 == s[b].0);
            } else {
                assert(kv_view(entries@)[a].0 == s[a].0);
            }
        }
    }
}

} // verus!
