//! Temporary-directory placeholder substitution: a configurable token,
//! where it stands as a path prefix inside a stage argument, is replaced
//! by the path of the invocation's temporary directory.

use vstd::prelude::*;

use crate::strutil::{occurs_at, match_at};

verus! {

/// Names the result of `char::is_alphanumeric`: whether a character is a
/// Unicode letter or number. The result depends on the character alone.
pub uninterp spec fn alphanumeric_char(c: char) -> bool;

/// Relies on `char::is_alphanumeric`: the result depends on the character
/// alone, so it is only given a name.
#[verifier::external_body]
fn char_is_alphanumeric(c: char) -> (r: bool)
    ensures
        r == alphanumeric_char(c),
{
    c.is_alphanumeric()
}

/// A character that may be part of a file name: a letter, a number, or one
/// of `_`, `-`, `.`.
pub open spec fn filename_like(c: char) -> bool {
    alphanumeric_char(c) || c == '_' || c == '-' || c == '.'
}

/// Whether a character counts as part of a file name around a placeholder
/// occurrence.
pub fn is_filename_like_char(c: char) -> (r: bool)
    ensures
        r == filename_like(c),
{
    char_is_alphanumeric(c) || c == '_' || c == '-' || c == '.'
}

/// The placeholder occurs at `i` as a path prefix: followed directly by
/// `/` and not preceded by a file-name character.
pub open spec fn valid_occurrence(s: Seq<char>, ph: Seq<char>, i: int) -> bool {
    &&& occurs_at(s, ph, i)
    &&& i + ph.len() < s.len() && s[i + ph.len()] == '/'
    &&& i == 0 || !filename_like(s[i - 1])
}

/// The text from position `i` on with every path-prefix occurrence of the
/// placeholder replaced by `td`, scanning occurrences left to right
/// without overlap.
pub open spec fn subst_from(s: Seq<char>, ph: Seq<char>, td: Seq<char>, i: int) -> Seq<char>
    decreases s.len() - i when ph.len() > 0
{
    if i < 0 || i >= s.len() {
        Seq::empty()
    } else if valid_occurrence(s, ph, i) {
        td + subst_from(s, ph, td, i + ph.len() as int)
    } else if occurs_at(s, ph, i) {
        s.subrange(i, i + ph.len() as int) + subst_from(s, ph, td, i + ph.len() as int)
    } else {
        seq![s[i]] + subst_from(s, ph, td, i + 1)
    }
}

/// Whether the scan from position `i` on meets a path-prefix occurrence.
pub open spec fn subst_happens(s: Seq<char>, ph: Seq<char>, i: int) -> bool
    decreases s.len() - i when ph.len() > 0
{
    if i < 0 || i >= s.len() {
        false
    } else if valid_occurrence(s, ph, i) {
        true
    } else if occurs_at(s, ph, i) {
        subst_happens(s, ph, i + ph.len() as int)
    } else {
        subst_happens(s, ph, i + 1)
    }
}

/// Replaces every path-prefix occurrence of `tempdir_placeholder` in `arg`
/// with `temp_dir_str`; yields nothing when no such occurrence exists (or
/// the placeholder is empty, which disables substitution).
#[verifier::loop_isolation(false)]
pub fn replace_tempdir_name(arg: &str, tempdir_placeholder: &str, temp_dir_str: &str) -> (r:
    Option<String>)
    ensures
        tempdir_placeholder@.len() == 0 ==> r is None,
        tempdir_placeholder@.len() > 0 ==> (r is Some <==> subst_happens(
            arg@,
            tempdir_placeholder@,
            0,
        )),
        tempdir_placeholder@.len() > 0 ==> (r matches Some(out) ==> out@ == subst_from(
            arg@,
            tempdir_placeholder@,
            temp_dir_str@,
            0,
        )),
{
    let m = tempdir_placeholder.unicode_len();
    if m == 0 {
        return None;
    }
    let n = arg.unicode_len();
    let mut out = String::new();
    let mut any = false;
    let mut i: usize = 0;
    while i < n
        invariant
            0 <= i <= n,
            m > 0,
            subst_from(arg@, tempdir_placeholder@, temp_dir_str@, 0) =~= out@ + subst_from(
                arg@,
                tempdir_placeholder@,
                temp_dir_str@,
                i as int,
            ),
            subst_happens(arg@, tempdir_placeholder@, 0) == (any || subst_happens(
                arg@,
                tempdir_placeholder@,
                i as int,
            )),
        decreases n - i,
    {
        if match_at(arg, i, tempdir_placeholder) {
            let at_path = i + m < n && arg.get_char(i + m) == '/';
            let free_before = i == 0 || !is_filename_like_char(arg.get_char(i - 1));
            if at_path && free_before {
                out.append(temp_dir_str);
                any = true;
            } else {
                out.append(arg.substring_char(i, i + m));
            }
            i += m;
        } else {
            out.append(arg.substring_char(i, i + 1));
            i += 1;
        }
    }
    proof {
        assert(subst_from(arg@, tempdir_placeholder@, temp_dir_str@, 0) =~= out@);
    }
    if any {
        Some(out)
    } else {
        None
    }
}

/// Whether substitution would touch `arg`: the placeholder is enabled and
/// occurs as a path prefix.
pub fn token_needs_tempdir(arg: &str, tempdir_placeholder: &str) -> (r: bool)
    ensures
        r == (tempdir_placeholder@.len() > 0 && subst_happens(arg@, tempdir_placeholder@, 0)),
{
    let probe = replace_tempdir_name(arg, tempdir_placeholder, "");
    probe.is_some()
}

} // verus!
