//! Verified substring and prefix tests over character strings.
//!
//! The classification rule is phrased in terms of "starts with" and
//! "contains" tests on argument tokens, so these are implemented here with
//! exact contracts over the tokens' character sequences.

use vstd::prelude::*;

verus! {

/// `needle` occurs in `hay` starting at character position `i`.
pub open spec fn occurs_at(hay: Seq<char>, needle: Seq<char>, i: int) -> bool {
    &&& 0 <= i
    &&& i + needle.len() <= hay.len()
    &&& hay.subrange(i, i + needle.len() as int) == needle
}

/// `needle` occurs somewhere in `hay`.
pub open spec fn has_substring(hay: Seq<char>, needle: Seq<char>) -> bool {
    exists|i: int| occurs_at(hay, needle, i)
}

/// An occurrence pins down every character it covers.
pub proof fn lemma_occurrence_char(hay: Seq<char>, needle: Seq<char>, i: int, j: int)
    requires
        occurs_at(hay, needle, i),
        0 <= j < needle.len(),
    ensures
        hay[i + j] == needle[j],
{
    assert(hay.subrange(i, i + needle.len() as int)[j] == hay[i + j]);
}

/// Compares `needle` against the characters of `hay` beginning at `i`.
fn occurs_at_str(hay: &str, needle: &str, i: usize) -> (b: bool)
    requires
        i + needle@.len() <= hay@.len(),
    ensures
        b == occurs_at(hay@, needle@, i as int),
{
    let hay_len = hay.unicode_len();
    let needle_len = needle.unicode_len();
    let mut j: usize = 0;
    while j < needle_len
        invariant
            hay_len == hay@.len(),
            needle_len == needle@.len(),
            j <= needle_len,
            i + needle_len <= hay_len,
            forall|k: int| 0 <= k < j ==> hay@[i + k] == needle@[k],
        decreases needle_len - j,
    {
        if hay.get_char(i + j) != needle.get_char(j) {
            proof {
                if occurs_at(hay@, needle@, i as int) {
                    lemma_occurrence_char(hay@, needle@, i as int, j as int);
                }
            }
            return false;
        }
        j += 1;
    }
    proof {
        assert(hay@.subrange(i as int, i + needle@.len() as int) =~= needle@);
    }
    true
}

/// Whether `needle` occurs anywhere in `hay`, by checking every position.
pub fn contains_str(hay: &str, needle: &str) -> (b: bool)
    ensures
        b == has_substring(hay@, needle@),
{
    let hay_len = hay.unicode_len();
    let needle_len = needle.unicode_len();
    if needle_len > hay_len {
        proof {
            assert forall|k: int| !occurs_at(hay@, needle@, k) by {}
        }
        return false;
    }
    if needle_len == 0 {
        proof {
            assert(hay@.subrange(0, 0) =~= needle@);
            assert(occurs_at(hay@, needle@, 0));
        }
        return true;
    }
    let last = hay_len - needle_len;
    let mut i: usize = 0;
    while i <= last
        invariant
            hay_len == hay@.len(),
            needle_len == needle@.len(),
            1 <= needle_len <= hay_len,
            last == hay_len - needle_len,
            i <= last + 1,
            forall|k: int| 0 <= k < i ==> !occurs_at(hay@, needle@, k),
        decreases last + 1 - i,
    {
        if occurs_at_str(hay, needle, i) {
            return true;
        }
        i += 1;
    }
    proof {
        assert forall|k: int| !occurs_at(hay@, needle@, k) by {
            if occurs_at(hay@, needle@, k) {
                assert(0 <= k < i);
            }
        }
    }
    false
}

/// Whether `hay` starts with `needle`.
pub fn starts_with_str(hay: &str, needle: &str) -> (b: bool)
    ensures
        b == needle@.is_prefix_of(hay@),
{
    let hay_len = hay.unicode_len();
    let needle_len = needle.unicode_len();
    if needle_len > hay_len {
        return false;
    }
    let r = occurs_at_str(hay, needle, 0);
    proof {
        if r {
            assert(needle@ =~= hay@.subrange(0, needle@.len() as int));
        } else if needle@.is_prefix_of(hay@) {
            assert(hay@.subrange(0, needle@.len() as int) =~= needle@);
        }
    }
    r
}

} // verus!
