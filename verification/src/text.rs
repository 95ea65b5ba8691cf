//! Character-level scanning used by the process classifier and the metric
//! formatter: substring search, prefix test and character search.

use vstd::prelude::*;

verus! {

/// `n` occurs in `h` starting at position `i`.
pub open spec fn is_substring_at(h: Seq<char>, n: Seq<char>, i: int) -> bool {
    0 <= i && i + n.len() <= h.len() && h.subrange(i, i + n.len() as int) == n
}

/// `n` occurs somewhere in `h`.
pub open spec fn contains_seq(h: Seq<char>, n: Seq<char>) -> bool {
    exists|i: int| is_substring_at(h, n, i)
}

/// The first position at or after `from` holding `c`, or the length of `s`
/// when there is none.
pub open spec fn first_at_or_after(s: Seq<char>, from: int, c: char) -> int
    decreases s.len() - from,
{
    if from < 0 || from >= s.len() {
        s.len() as int
    } else if s[from] == c {
        from
    } else {
        first_at_or_after(s, from + 1, c)
    }
}

/// The first occurrence is in the scanned range and nothing before it matches.
pub proof fn lemma_first_at_or_after(s: Seq<char>, from: int, c: char)
    requires
        0 <= from <= s.len(),
    ensures
        from <= first_at_or_after(s, from, c) <= s.len(),
        first_at_or_after(s, from, c) < s.len() ==> s[first_at_or_after(s, from, c)] == c,
        forall|j: int| from <= j < first_at_or_after(s, from, c) ==> s[j] != c,
    decreases s.len() - from,
{
    if from < s.len() && s[from] != c {
        lemma_first_at_or_after(s, from + 1, c);
    }
}

fn matches_at(h: &str, n: &str, i: usize) -> (r: bool)
    requires
        i + n@.len() <= h@.len(),
    ensures
        r == is_substring_at(h@, n@, i as int),
{
    let hl = h.unicode_len();
    let nl = n.unicode_len();
    let mut j: usize = 0;
    while j < nl
        invariant
            0 <= j <= nl,
            nl == n@.len(),
            hl == h@.len(),
            i + nl <= hl,
            forall|k: int| 0 <= k < j ==> h@[i + k] == n@[k],
        decreases nl - j,
    {
        if h.get_char(i + j) != n.get_char(j) {
            assert(h@[i + j as int] != n@[j as int]);
            assert(!is_substring_at(h@, n@, i as int)) by {
                if h@.subrange(i as int, i + n@.len() as int) == n@ {
                    assert(h@.subrange(i as int, i + n@.len() as int)[j as int] == h@[
                        i + j as int
                    ]);
                }
            }
            return false;
        }
        j = j + 1;
    }
    assert(h@.subrange(i as int, i + n@.len() as int) =~= n@);
    true
}

/// Substring search, stated over character sequences.
pub fn contains_str(h: &str, n: &str) -> (r: bool)
    ensures
        r == contains_seq(h@, n@),
{
    let hl = h.unicode_len();
    let nl = n.unicode_len();
    if nl > hl {
        assert(!contains_seq(h@, n@)) by {
            if contains_seq(h@, n@) {
                let i0 = choose|i0: int| is_substring_at(h@, n@, i0);
            }
        }
        return false;
    }
    let mut i: usize = 0;
    let bound = hl - nl;
    while i < bound
        invariant
            0 <= i <= bound,
            bound == h@.len() - n@.len(),
            nl == n@.len(),
            hl == h@.len(),
            forall|k: int| 0 <= k < i ==> !is_substring_at(h@, n@, k),
        decreases bound - i,
    {
        if matches_at(h, n, i) {
            return true;
        }
        i = i + 1;
    }
    if matches_at(h, n, bound) {
        return true;
    }
    assert(!contains_seq(h@, n@)) by {
        if contains_seq(h@, n@) {
            let i0 = choose|i0: int| is_substring_at(h@, n@, i0);
            assert(0 <= i0 <= bound);
        }
    }
    false
}

/// Prefix test, stated over character sequences.
pub fn starts_with_str(s: &str, prefix: &str) -> (r: bool)
    ensures
        r == (s@.len() >= prefix@.len() && s@.subrange(0, prefix@.len() as int) == prefix@),
{
    let sl = s.unicode_len();
    let pl = prefix.unicode_len();
    if pl > sl {
        return false;
    }
    matches_at(s, prefix, 0)
}

/// Whole-token equality, stated over character sequences.
pub fn str_eq(a: &str, b: &str) -> (r: bool)
    ensures
        r == (a@ == b@),
{
    let al = a.unicode_len();
    let bl = b.unicode_len();
    if al != bl {
        return false;
    }
    let r = matches_at(a, b, 0);
    proof {
        assert(a@.subrange(0, a@.len() as int) =~= a@);
    }
    r
}

/// First occurrence of `c` in `s` at or after `from`; the length of `s`
/// means no occurrence.
pub fn find_char_from(s: &str, from: usize, c: char) -> (r: usize)
    requires
        from <= s@.len(),
    ensures
        r == first_at_or_after(s@, from as int, c),
{
    let len = s.unicode_len();
    let mut i: usize = from;
    while i < len
        invariant
            from <= i <= len,
            len == s@.len(),
            first_at_or_after(s@, from as int, c) == first_at_or_after(s@, i as int, c),
        decreases len - i,
    {
        if s.get_char(i) == c {
            return i;
        }
        i = i + 1;
    }
    i
}

} // verus!
