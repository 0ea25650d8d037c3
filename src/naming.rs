//! Short names of events: the last segment of a full event path, without
//! its sub-label.

use vstd::prelude::*;

verus! {

/// Index where the final `/`-separated segment of `s` starts (0 when `s`
/// holds no `/`).
pub open spec fn segment_start(s: Seq<char>) -> int
    decreases s.len(),
{
    if s.len() == 0 {
        0
    } else if s.last() == '/' {
        s.len() as int
    } else {
        segment_start(s.drop_last())
    }
}

/// Index of the first `:` in `s`, or its length when it holds none.
pub open spec fn label_start(s: Seq<char>) -> int
    decreases s.len(),
{
    if s.len() == 0 {
        0
    } else if s[0] == ':' {
        0
    } else {
        1 + label_start(s.drop_first())
    }
}

/// The short name of a full event path: the text after the final `/`,
/// truncated at its first `:`.
pub open spec fn short_name_of(path: Seq<char>) -> Seq<char> {
    let segment = path.subrange(segment_start(path), path.len() as int);
    segment.subrange(0, label_start(segment))
}

/// The short name of `path`: the text after its final `/`, cut at the first
/// `:` of that text. `event:/ui/click:button` gives `click`.
pub fn derive_short_name(path: &str) -> (r: String)
    ensures
        r@ == short_name_of(path@),
{
    let n = path.unicode_len();
    let mut i: usize = n;
    assert(path@.subrange(0, n as int) =~= path@);
    while i > 0 && path.get_char(i - 1) != '/'
        invariant
            i <= n == path@.len(),
            segment_start(path@) == segment_start(path@.subrange(0, i as int)),
        decreases i,
    {
        assert(path@.subrange(0, i as int).drop_last() =~= path@.subrange(0, i - 1));
        i = i - 1;
    }
    assert(segment_start(path@) == i as int) by {
        if i > 0 {
            assert(path@.subrange(0, i as int).last() == path@[i - 1]);
        } else {
            assert(path@.subrange(0, 0).len() == 0);
        }
    }
    let segment = path.substring_char(i, n);
    let m = segment.unicode_len();
    let mut k: usize = 0;
    assert(segment@.subrange(0, m as int) =~= segment@);
    while k < m && segment.get_char(k) != ':'
        invariant
            k <= m == segment@.len(),
            label_start(segment@) == k + label_start(segment@.subrange(k as int, m as int)),
        decreases m - k,
    {
        assert(segment@.subrange(k as int, m as int).drop_first() =~= segment@.subrange(
            k + 1,
            m as int,
        ));
        k = k + 1;
    }
    assert(label_start(segment@) == k as int) by {
        if k < m {
            assert(segment@.subrange(k as int, m as int)[0] == segment@[k as int]);
        }
    }
    String::from_str(segment.substring_char(0, k))
}

} // verus!

verus! {

pub proof fn lemma_label_start_absent(s: Seq<char>)
    requires
        forall|j: int| 0 <= j < s.len() ==> s[j] != ':',
    ensures
        label_start(s) == s.len(),
    decreases s.len(),
{
    if s.len() > 0 {
        lemma_label_start_absent(s.drop_first());
    }
}

/// A path without `:` loses nothing after its final `/`: its short name is
/// the whole last segment.
pub proof fn lemma_short_name_without_label(path: Seq<char>)
    requires
        forall|j: int| 0 <= j < path.len() ==> path[j] != ':',
    ensures
        short_name_of(path) == path.subrange(segment_start(path), path.len() as int),
{
    lemma_segment_start_bounds(path);
    let segment = path.subrange(segment_start(path), path.len() as int);
    lemma_label_start_absent(segment);
    assert(segment.subrange(0, segment.len() as int) =~= segment);
}

pub proof fn lemma_segment_start_bounds(s: Seq<char>)
    ensures
        0 <= segment_start(s) <= s.len(),
    decreases s.len(),
{
    if s.len() > 0 && s.last() != '/' {
        lemma_segment_start_bounds(s.drop_last());
    }
}

} // verus!
