//! Verified string comparison and association-list lookup.
//!
//! The engine keys its tables by strings and small integers; this module
//! gives the rest of the crate exact, first-match lookup over vectors of
//! key/value pairs, together with the lemmas that relate a lookup to an
//! in-place update, an insertion or a removal.

use vstd::prelude::*;
use vstd::string::*;

verus! {

/// Character-for-character equality of two string slices.
pub fn str_eq(a: &str, b: &str) -> (r: bool)
    ensures
        r == (a@ == b@),
{
    let la = a.unicode_len();
    let lb = b.unicode_len();
    if la != lb {
        return false;
    }
    let mut i: usize = 0;
    while i < la
        invariant
            0 <= i <= la,
            la == a@.len(),
            la == b@.len(),
            forall|j: int| 0 <= j < i ==> a@[j] == b@[j],
        decreases la - i,
    {
        if a.get_char(i) != b.get_char(i) {
            return false;
        }
        i = i + 1;
    }
    proof {
        assert(a@ =~= b@);
    }
    true
}

/// Does `s` start with `p`, character for character?
pub fn str_has_prefix(s: &str, p: &str) -> (r: bool)
    ensures
        r == (p@.len() <= s@.len() && s@.subrange(0, p@.len() as int) == p@),
{
    let lp = p.unicode_len();
    let ls = s.unicode_len();
    if lp > ls {
        return false;
    }
    let mut i: usize = 0;
    while i < lp
        invariant
            0 <= i <= lp,
            lp == p@.len(),
            ls == s@.len(),
            lp <= ls,
            forall|j: int| 0 <= j < i ==> s@[j] == p@[j],
        decreases lp - i,
    {
        if s.get_char(i) != p.get_char(i) {
            proof {
                assert(s@.subrange(0, lp as int)[i as int] == s@[i as int]);
            }
            return false;
        }
        i = i + 1;
    }
    proof {
        assert(s@.subrange(0, lp as int) =~= p@);
    }
    true
}

/// First-match lookup in a key/value association list, by key equality.
pub open spec fn assoc_key<K, V>(s: Seq<(K, V)>, k: K) -> Option<V>
    decreases s.len(),
{
    if s.len() == 0 {
        None
    } else if s[0].0 == k {
        Some(s[0].1)
    } else {
        assoc_key(s.drop_first(), k)
    }
}

/// First-match lookup, by character content, in a string-keyed association
/// list.
pub open spec fn assoc_str<V>(s: Seq<(String, V)>, k: Seq<char>) -> Option<V>
    decreases s.len(),
{
    if s.len() == 0 {
        None
    } else if s[0].0@ == k {
        Some(s[0].1)
    } else {
        assoc_str(s.drop_first(), k)
    }
}

/// A lookup misses exactly when no entry carries the key.
pub proof fn lemma_assoc_key_none<K, V>(s: Seq<(K, V)>, k: K)
    requires
        forall|i: int| 0 <= i < s.len() ==> (#[trigger] s[i]).0 != k,
    ensures
        assoc_key(s, k) is None,
    decreases s.len(),
{
    if s.len() > 0 {
        assert(s[0].0 != k);
        assert(forall|i: int|
            0 <= i < s.drop_first().len() ==> (#[trigger] s.drop_first()[i]) == s[i + 1]);
        lemma_assoc_key_none(s.drop_first(), k);
    }
}

/// A lookup hits the first entry that carries the key.
pub proof fn lemma_assoc_key_found<K, V>(s: Seq<(K, V)>, i: int, k: K)
    requires
        0 <= i < s.len(),
        s[i].0 == k,
        forall|j: int| 0 <= j < i ==> (#[trigger] s[j]).0 != k,
    ensures
        assoc_key(s, k) == Some(s[i].1),
    decreases i,
{
    if i == 0 {
    } else {
        assert(s[0].0 != k);
        assert(forall|j: int|
            0 <= j < s.drop_first().len() ==> (#[trigger] s.drop_first()[j]) == s[j + 1]);
        lemma_assoc_key_found(s.drop_first(), i - 1, k);
    }
}

/// A lookup misses exactly when no entry carries the key.
pub proof fn lemma_assoc_str_none<V>(s: Seq<(String, V)>, k: Seq<char>)
    requires
        forall|i: int| 0 <= i < s.len() ==> (#[trigger] s[i]).0@ != k,
    ensures
        assoc_str(s, k) is None,
    decreases s.len(),
{
    if s.len() > 0 {
        assert(s[0].0@ != k);
        assert(forall|i: int|
            0 <= i < s.drop_first().len() ==> (#[trigger] s.drop_first()[i]) == s[i + 1]);
        lemma_assoc_str_none(s.drop_first(), k);
    }
}

/// A lookup hits the first entry that carries the key.
pub proof fn lemma_assoc_str_found<V>(s: Seq<(String, V)>, i: int, k: Seq<char>)
    requires
        0 <= i < s.len(),
        s[i].0@ == k,
        forall|j: int| 0 <= j < i ==> (#[trigger] s[j]).0@ != k,
    ensures
        assoc_str(s, k) == Some(s[i].1),
    decreases i,
{
    if i == 0 {
    } else {
        assert(s[0].0@ != k);
        assert(forall|j: int|
            0 <= j < s.drop_first().len() ==> (#[trigger] s.drop_first()[j]) == s[j + 1]);
        lemma_assoc_str_found(s.drop_first(), i - 1, k);
    }
}

/// Overwriting an entry whose key differs from `k` leaves the lookup of `k`
/// unchanged.
pub proof fn lemma_assoc_key_update_other<K, V>(s: Seq<(K, V)>, i: int, ne: (K, V), k: K)
    requires
        0 <= i < s.len(),
        s[i].0 != k,
        ne.0 != k,
    ensures
        assoc_key(s.update(i, ne), k) == assoc_key(s, k),
    decreases s.len(),
{
    let s2 = s.update(i, ne);
    if i == 0 {
        assert(s2.drop_first() =~= s.drop_first());
    } else {
        assert(s2[0] == s[0]);
        if s[0].0 != k {
            assert(s2.drop_first() =~= s.drop_first().update(i - 1, ne));
            lemma_assoc_key_update_other(s.drop_first(), i - 1, ne, k);
        }
    }
}

/// Appending an entry whose key differs from `k` leaves the lookup of `k`
/// unchanged.
pub proof fn lemma_assoc_key_push_other<K, V>(s: Seq<(K, V)>, ne: (K, V), k: K)
    requires
        ne.0 != k,
    ensures
        assoc_key(s.push(ne), k) == assoc_key(s, k),
    decreases s.len(),
{
    if s.len() == 0 {
        assert(s.push(ne)[0] == ne);
        assert(s.push(ne).drop_first() =~= s);
    } else {
        assert(s.push(ne)[0] == s[0]);
        assert(s.push(ne).drop_first() =~= s.drop_first().push(ne));
        lemma_assoc_key_push_other(s.drop_first(), ne, k);
    }
}

/// Removing an entry whose key differs from `k` leaves the lookup of `k`
/// unchanged.
pub proof fn lemma_assoc_key_remove_other<K, V>(s: Seq<(K, V)>, i: int, k: K)
    requires
        0 <= i < s.len(),
        s[i].0 != k,
    ensures
        assoc_key(s.remove(i), k) == assoc_key(s, k),
    decreases s.len(),
{
    let s2 = s.remove(i);
    if i == 0 {
        assert(s2 =~= s.drop_first());
    } else {
        assert(s2[0] == s[0]);
        if s[0].0 != k {
            assert(s2.drop_first() =~= s.drop_first().remove(i - 1));
            lemma_assoc_key_remove_other(s.drop_first(), i - 1, k);
        }
    }
}

/// Overwriting an entry whose key differs from `k` leaves the lookup of `k`
/// unchanged.
pub proof fn lemma_assoc_str_update_other<V>(
    s: Seq<(String, V)>,
    i: int,
    ne: (String, V),
    k: Seq<char>,
)
    requires
        0 <= i < s.len(),
        s[i].0@ != k,
        ne.0@ != k,
    ensures
        assoc_str(s.update(i, ne), k) == assoc_str(s, k),
    decreases s.len(),
{
    let s2 = s.update(i, ne);
    if i == 0 {
        assert(s2.drop_first() =~= s.drop_first());
    } else {
        assert(s2[0] == s[0]);
        if s[0].0@ != k {
            assert(s2.drop_first() =~= s.drop_first().update(i - 1, ne));
            lemma_assoc_str_update_other(s.drop_first(), i - 1, ne, k);
        }
    }
}

/// Appending an entry whose key differs from `k` leaves the lookup of `k`
/// unchanged.
pub proof fn lemma_assoc_str_push_other<V>(s: Seq<(String, V)>, ne: (String, V), k: Seq<char>)
    requires
        ne.0@ != k,
    ensures
        assoc_str(s.push(ne), k) == assoc_str(s, k),
    decreases s.len(),
{
    if s.len() == 0 {
        assert(s.push(ne)[0] == ne);
        assert(s.push(ne).drop_first() =~= s);
    } else {
        assert(s.push(ne)[0] == s[0]);
        assert(s.push(ne).drop_first() =~= s.drop_first().push(ne));
        lemma_assoc_str_push_other(s.drop_first(), ne, k);
    }
}

/// Removing an entry whose key differs from `k` leaves the lookup of `k`
/// unchanged.
pub proof fn lemma_assoc_str_remove_other<V>(s: Seq<(String, V)>, i: int, k: Seq<char>)
    requires
        0 <= i < s.len(),
        s[i].0@ != k,
    ensures
        assoc_str(s.remove(i), k) == assoc_str(s, k),
    decreases s.len(),
{
    let s2 = s.remove(i);
    if i == 0 {
        assert(s2 =~= s.drop_first());
    } else {
        assert(s2[0] == s[0]);
        if s[0].0@ != k {
            assert(s2.drop_first() =~= s.drop_first().remove(i - 1));
            lemma_assoc_str_remove_other(s.drop_first(), i - 1, k);
        }
    }
}

/// Every string key occurs at most once, by character content.
pub open spec fn unique_str_keys<V>(s: Seq<(String, V)>) -> bool {
    forall|i: int, j: int| 0 <= i < j < s.len() ==> (#[trigger] s[i]).0@ != (#[trigger] s[j]).0@
}

/// Stores `value` under `name`: overwrites the first entry carrying the
/// name, or appends one.  Lookups of every other name are unchanged, and
/// key uniqueness is preserved.
pub fn set_str_entry<V>(entries: &mut Vec<(String, V)>, name: &str, value: V)
    ensures
        assoc_str(final(entries)@, name@) == Some(value),
        forall|m: Seq<char>|
            m != name@ ==> (#[trigger] assoc_str(final(entries)@, m)) == assoc_str(
                old(entries)@,
                m,
            ),
        unique_str_keys(old(entries)@) ==> unique_str_keys(final(entries)@),
        old(entries)@.len() <= final(entries)@.len() <= old(entries)@.len() + 1,
        forall|i: int|
            0 <= i < final(entries)@.len() ==> (#[trigger] final(entries)@[i]).0@ == (if i < old(
                entries,
            )@.len() {
                old(entries)@[i].0@
            } else {
                name@
            }),
{
    match find_str_key(entries, name) {
        Some(i) => {
            let ghost e0 = entries@;
            entries[i] = (name.to_owned(), value);
            proof {
                let e2 = entries@;
                lemma_assoc_str_found(e2, i as int, name@);
                assert forall|m: Seq<char>| m != name@ implies assoc_str(e2, m) == assoc_str(
                    e0,
                    m,
                ) by {
                    lemma_assoc_str_update_other(e0, i as int, e2[i as int], m);
                }
                assert(forall|x: int|
                    0 <= x < e2.len() ==> (#[trigger] e2[x]).0@ == e0[x].0@);
            }
        },
        None => {
            let ghost e0 = entries@;
            entries.push((name.to_owned(), value));
            proof {
                let e2 = entries@;
                lemma_assoc_str_found(e2, e0.len() as int, name@);
                assert forall|m: Seq<char>| m != name@ implies assoc_str(e2, m) == assoc_str(
                    e0,
                    m,
                ) by {
                    lemma_assoc_str_push_other(e0, e2[e0.len() as int], m);
                }
            }
        },
    }
}

/// Finds the first entry with the given integer key.
pub fn find_usize_key<V>(entries: &Vec<(usize, V)>, k: usize) -> (r: Option<usize>)
    ensures
        match r {
            Some(i) => i < entries@.len() && entries@[i as int].0 == k && forall|j: int|
                0 <= j < i ==> (#[trigger] entries@[j]).0 != k,
            None => forall|j: int| 0 <= j < entries@.len() ==> (#[trigger] entries@[j]).0 != k,
        },
{
    let n = entries.len();
    let mut i: usize = 0;
    while i < n
        invariant
            0 <= i <= n,
            n == entries@.len(),
            forall|j: int| 0 <= j < i ==> (#[trigger] entries@[j]).0 != k,
        decreases n - i,
    {
        if entries[i].0 == k {
            return Some(i);
        }
        i = i + 1;
    }
    None
}

/// Finds the first entry whose string key has the characters of `name`.
pub fn find_str_key<V>(entries: &Vec<(String, V)>, name: &str) -> (r: Option<usize>)
    ensures
        match r {
            Some(i) => i < entries@.len() && entries@[i as int].0@ == name@ && forall|j: int|
                0 <= j < i ==> (#[trigger] entries@[j]).0@ != name@,
            None => forall|j: int| 0 <= j < entries@.len() ==> (#[trigger] entries@[j]).0@ != name@,
        },
{
    let n = entries.len();
    let mut i: usize = 0;
    while i < n
        invariant
            0 <= i <= n,
            n == entries@.len(),
            forall|j: int| 0 <= j < i ==> (#[trigger] entries@[j]).0@ != name@,
        decreases n - i,
    {
        if str_eq(entries[i].0.as_str(), name) {
            return Some(i);
        }
        i = i + 1;
    }
    None
}

} // verus!
