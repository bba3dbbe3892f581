//! Verified helpers over `&str`, working on the character sequence view.

use vstd::prelude::*;

verus! {

/// The token consisting of the single character `-`.
pub open spec fn is_dash(s: Seq<char>) -> bool {
    s.len() == 1 && s[0] == '-'
}

/// The explicit end-of-options token `--`.
pub open spec fn is_double_dash(s: Seq<char>) -> bool {
    s.len() == 2 && s[0] == '-' && s[1] == '-'
}

/// Starts with a single `-` (also true of `--...` tokens).
pub open spec fn starts_dash(s: Seq<char>) -> bool {
    s.len() >= 1 && s[0] == '-'
}

/// Starts with `--`.
pub open spec fn starts_double_dash(s: Seq<char>) -> bool {
    s.len() >= 2 && s[0] == '-' && s[1] == '-'
}

/// Position of the first occurrence of `c` in `s`, if any.
pub open spec fn first_pos(s: Seq<char>, c: char) -> Option<int>
    decreases s.len(),
{
    if s.len() == 0 {
        None
    } else if s[0] == c {
        Some(0int)
    } else {
        match first_pos(s.skip(1), c) {
            Some(i) => Some(i + 1),
            None => None,
        }
    }
}

/// `first_pos` returns exactly the least index holding `c`.
pub proof fn lemma_first_pos(s: Seq<char>, c: char)
    ensures
        match first_pos(s, c) {
            Some(i) => 0 <= i < s.len() && s[i] == c && forall|j: int| 0 <= j < i ==> s[j] != c,
            None => forall|j: int| 0 <= j < s.len() ==> s[j] != c,
        },
    decreases s.len(),
{
    if s.len() > 0 && s[0] != c {
        lemma_first_pos(s.skip(1), c);
        assert(forall|j: int| 1 <= j < s.len() ==> s[j] == s.skip(1)[j - 1]);
    }
}

/// `pat` occurs in `s` at position `i`.
pub open spec fn occurs_at(s: Seq<char>, pat: Seq<char>, i: int) -> bool {
    0 <= i && i + pat.len() <= s.len() && s.subrange(i, i + pat.len()) == pat
}

/// Character-wise string equality.
#[verifier::loop_isolation(false)]
pub fn str_eq(a: &str, b: &str) -> (r: bool)
    ensures
        r == (a@ == b@),
{
    let an = a.unicode_len();
    let bn = b.unicode_len();
    if an != bn {
        return false;
    }
    let mut i: usize = 0;
    while i < an
        invariant
            i <= an,
            forall|j: int| 0 <= j < i ==> a@[j] == b@[j],
        decreases an - i,
    {
        if a.get_char(i) != b.get_char(i) {
            return false;
        }
        i += 1;
    }
    proof {
        assert(a@ =~= b@);
    }
    true
}

/// Whether `s` begins with the character `c`.
pub fn begins_with(s: &str, c: char) -> (r: bool)
    ensures
        r == (s@.len() > 0 && s@[0] == c),
{
    if s.unicode_len() == 0 {
        false
    } else {
        s.get_char(0) == c
    }
}

/// Whether `s` begins with `--`.
pub fn begins_double_dash(s: &str) -> (r: bool)
    ensures
        r == starts_double_dash(s@),
{
    if s.unicode_len() < 2 {
        false
    } else {
        s.get_char(0) == '-' && s.get_char(1) == '-'
    }
}

/// The least position of `c` in `s`, if any.
#[verifier::loop_isolation(false)]
pub fn find_char(s: &str, c: char) -> (r: Option<usize>)
    ensures
        r is Some <==> first_pos(s@, c) is Some,
        r matches Some(i) ==> first_pos(s@, c) == Some(i as int),
{
    proof {
        lemma_first_pos(s@, c);
    }
    let n = s.unicode_len();
    let mut i: usize = 0;
    while i < n
        invariant
            i <= n,
            forall|j: int| 0 <= j < i ==> s@[j] != c,
        decreases n - i,
    {
        if s.get_char(i) == c {
            proof {
                assert(first_pos(s@, c) matches Some(k) && k == i) by {
                    lemma_first_pos(s@, c);
                }
            }
            return Some(i);
        }
        i += 1;
    }
    None
}

/// Whether `s` is exactly the token `-`.
pub fn dash_token(s: &str) -> (r: bool)
    ensures
        r == is_dash(s@),
{
    s.unicode_len() == 1 && s.get_char(0) == '-'
}

/// Whether `s` is exactly the token `--`.
pub fn double_dash_token(s: &str) -> (r: bool)
    ensures
        r == is_double_dash(s@),
{
    s.unicode_len() == 2 && s.get_char(0) == '-' && s.get_char(1) == '-'
}

/// Whether `pat` occurs in `s` at position `i`.
#[verifier::loop_isolation(false)]
pub fn match_at(s: &str, i: usize, pat: &str) -> (r: bool)
    ensures
        r == occurs_at(s@, pat@, i as int),
{
    let n = s.unicode_len();
    let m = pat.unicode_len();
    if i > n || m > n - i {
        return false;
    }
    let mut k: usize = 0;
    while k < m
        invariant
            k <= m,
            i + m <= n,
            forall|j: int| 0 <= j < k ==> s@[i + j] == pat@[j],
        decreases m - k,
    {
        if s.get_char(i + k) != pat.get_char(k) {
            proof {
                assert(s@.subrange(i as int, i + pat@.len())[k as int] == s@[i + k]);
            }
            return false;
        }
        k += 1;
    }
    proof {
        assert(s@.subrange(i as int, i + pat@.len()) =~= pat@);
    }
    true
}

} // verus!
