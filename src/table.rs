//! Small keyed tables held as vectors of `(String, T)` pairs, viewed as
//! sequences of `(Seq<char>, T)`. Writing a key that is present replaces its
//! value in place; a new key goes at the end, so the order of first insertion
//! is kept.

use vstd::prelude::*;

verus! {

/// The pairs of `v` with each key seen as its characters.
pub open spec fn entries<T>(v: Seq<(String, T)>) -> Seq<(Seq<char>, T)> {
    v.map_values(|p: (String, T)| (p.0@, p.1))
}

/// Index of the last entry of `s` whose key is `k`, or -1 when none is.
pub open spec fn key_index<K, V>(s: Seq<(K, V)>, k: K) -> int
    decreases s.len(),
{
    if s.len() == 0 {
        -1
    } else if s.last().0 == k {
        s.len() - 1
    } else {
        key_index(s.drop_last(), k)
    }
}

pub open spec fn has_key<K, V>(s: Seq<(K, V)>, k: K) -> bool {
    key_index(s, k) >= 0
}

/// The value stored under `k`, if any.
pub open spec fn lookup<K, V>(s: Seq<(K, V)>, k: K) -> Option<V> {
    if has_key(s, k) {
        Some(s[key_index(s, k)].1)
    } else {
        None
    }
}

/// `s` with `v` stored under `k`: in place when `k` is present, else appended.
pub open spec fn upsert<K, V>(s: Seq<(K, V)>, k: K, v: V) -> Seq<(K, V)> {
    if has_key(s, k) {
        s.update(key_index(s, k), (k, v))
    } else {
        s.push((k, v))
    }
}

/// `s` without the entry under `k` (unchanged when `k` is absent).
pub open spec fn remove_key<K, V>(s: Seq<(K, V)>, k: K) -> Seq<(K, V)> {
    if has_key(s, k) {
        s.remove(key_index(s, k))
    } else {
        s
    }
}

/// No key occurs twice.
pub open spec fn keys_unique<K, V>(s: Seq<(K, V)>) -> bool {
    forall|i: int, j: int| 0 <= i < j < s.len() ==> s[i].0 != s[j].0
}

pub proof fn lemma_key_index<T>(s: Seq<(Seq<char>, T)>, k: Seq<char>)
    ensures
        -1 <= key_index(s, k) < s.len(),
        key_index(s, k) >= 0 ==> s[key_index(s, k)].0 == k,
        forall|j: int| key_index(s, k) < j < s.len() ==> s[j].0 != k,
    decreases s.len(),
{
    if s.len() > 0 && s.last().0 != k {
        let t = s.drop_last();
        lemma_key_index(t, k);
        assert forall|j: int| key_index(s, k) < j < s.len() implies s[j].0 != k by {
            if j < t.len() {
                assert(s[j] == t[j]);
            }
        }
    }
}

/// With unique keys, the entry whose key is `s[i].0` is the one at `i`.
pub proof fn lemma_key_index_unique<T>(s: Seq<(Seq<char>, T)>, i: int)
    requires
        keys_unique(s),
        0 <= i < s.len(),
    ensures
        key_index(s, s[i].0) == i,
{
    lemma_key_index(s, s[i].0);
}

/// A key is present exactly when some entry holds it.
pub proof fn lemma_has_key_exists<T>(s: Seq<(Seq<char>, T)>, k: Seq<char>)
    ensures
        has_key(s, k) <==> exists|j: int| 0 <= j < s.len() && s[j].0 == k,
{
    lemma_key_index(s, k);
}

pub proof fn lemma_upsert_unique<T>(s: Seq<(Seq<char>, T)>, k: Seq<char>, v: T)
    requires
        keys_unique(s),
    ensures
        keys_unique(upsert(s, k, v)),
        has_key(upsert(s, k, v), k),
        lookup(upsert(s, k, v), k) == Some(v),
{
    lemma_key_index(s, k);
    lemma_has_key_exists(s, k);
    let t = upsert(s, k, v);
    if has_key(s, k) {
        lemma_key_index_unique(t, key_index(s, k));
    } else {
        lemma_key_index_unique(t, s.len() as int);
    }
}

pub proof fn lemma_remove_unique<T>(s: Seq<(Seq<char>, T)>, k: Seq<char>)
    requires
        keys_unique(s),
    ensures
        keys_unique(remove_key(s, k)),
        !has_key(remove_key(s, k), k),
{
    lemma_key_index(s, k);
    let t = remove_key(s, k);
    lemma_has_key_exists(t, k);
    if has_key(s, k) {
        let i = key_index(s, k);
        assert forall|j: int| 0 <= j < t.len() implies t[j].0 != k by {
            if j < i {
                assert(t[j] == s[j]);
            } else {
                assert(t[j] == s[j + 1]);
            }
        }
    } else {
        lemma_has_key_exists(s, k);
    }
}

/// Position of the last entry of `v` whose key is `key`.
pub fn find_key<T>(v: &Vec<(String, T)>, key: &str) -> (r: Option<usize>)
    ensures
        match r {
            Some(i) => i < v.len() && key_index(entries(v@), key@) == i,
            None => !has_key(entries(v@), key@),
        },
{
    let ghost s = entries(v@);
    let mut i: usize = v.len();
    assert(s.subrange(0, i as int) =~= s);
    while i > 0
        invariant
            i <= v.len(),
            s == entries(v@),
            key_index(s, key@) == key_index(s.subrange(0, i as int), key@),
        decreases i,
    {
        let sub = Ghost(s.subrange(0, i as int));
        assert(sub@.last() == s[i - 1]);
        if str_eq(v[i - 1].0.as_str(), key) {
            return Some(i - 1);
        }
        assert(sub@.drop_last() =~= s.subrange(0, i - 1));
        i = i - 1;
    }
    None
}

/// Whether two strings hold the same characters.
pub fn str_eq(a: &str, b: &str) -> (r: bool)
    ensures
        r == (a@ == b@),
{
    let n = a.unicode_len();
    if n != b.unicode_len() {
        return false;
    }
    let mut i: usize = 0;
    while i < n
        invariant
            n == a@.len() == b@.len(),
            i <= n,
            forall|j: int| 0 <= j < i ==> a@[j] == b@[j],
        decreases n - i,
    {
        if a.get_char(i) != b.get_char(i) {
            return false;
        }
        i = i + 1;
    }
    assert(a@ =~= b@);
    true
}

} // verus!

verus! {

/// Two tables with the same keys at the same places find a key at the same
/// place.
pub proof fn lemma_key_index_same_keys<T, U>(
    s: Seq<(Seq<char>, T)>,
    t: Seq<(Seq<char>, U)>,
    k: Seq<char>,
)
    requires
        s.len() == t.len(),
        forall|i: int| 0 <= i < s.len() ==> s[i].0 == t[i].0,
    ensures
        key_index(s, k) == key_index(t, k),
    decreases s.len(),
{
    if s.len() > 0 {
        lemma_key_index_same_keys(s.drop_last(), t.drop_last(), k);
    }
}

} // verus!
