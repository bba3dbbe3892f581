//! The validator: rejects malformed or unsafe descriptor-slot combinations
//! before any process is spawned.

use vstd::prelude::*;

use crate::errors::{OOError, cli_error};
use crate::strutil::{is_dash, dash_token, begins_with, str_eq};

verus! {

/// A `+` append marker heads the descriptor value.
pub open spec fn has_plus(s: Seq<char>) -> bool {
    s.len() > 0 && s[0] == '+'
}

/// The descriptor value with a leading `+` append marker stripped.
pub open spec fn strip_plus(s: Seq<char>) -> Seq<char> {
    if has_plus(s) {
        s.subrange(1, s.len() as int)
    } else {
        s
    }
}

/// The alias descriptor `=`.
pub open spec fn is_eq_tok(s: Seq<char>) -> bool {
    s.len() == 1 && s[0] == '='
}

/// The discard descriptor `.`.
pub open spec fn is_dot_tok(s: Seq<char>) -> bool {
    s.len() == 1 && s[0] == '.'
}

/// A special descriptor value: passthrough, alias or discard.
pub open spec fn is_special(s: Seq<char>) -> bool {
    is_dash(s) || is_eq_tok(s) || is_dot_tok(s)
}

/// An append marker combined with a special value: `+-`, `+=` or `+.`.
pub open spec fn is_plus_special(s: Seq<char>) -> bool {
    s.len() == 2 && s[0] == '+' && (s[1] == '-' || s[1] == '=' || s[1] == '.')
}

/// No non-special slot names the same path as a later slot (ignoring
/// append markers).
pub open spec fn no_duplicate_paths(fds: Seq<Seq<char>>) -> bool {
    forall|i: int, j: int|
        0 <= i < j < fds.len() && !is_special(fds[i]) ==> strip_plus(fds[j]) != strip_plus(fds[i])
}

/// The validator's full acceptance condition over the slots, the
/// force-overwrite flag, and the answers of the search-path check for the
/// stdout/stderr slots.
pub open spec fn validate_ok(fds: Seq<Seq<char>>, force_overwrite: bool, cmd_like: Seq<
    bool,
>) -> bool {
    &&& fds.len() >= 3
    &&& forall|i: int| 0 <= i < cmd_like.len() ==> !cmd_like[i]
    &&& forall|i: int| 0 <= i < fds.len() ==> !is_plus_special(#[trigger] fds[i])
    &&& no_duplicate_paths(fds)
    &&& force_overwrite ==> !is_dash(fds[0]) && is_eq_tok(fds[1])
    &&& !is_eq_tok(fds[0]) && !is_dot_tok(fds[0])
}

/// The acceptance condition without the search-path check: what the
/// validator decides from the slot texts alone.
pub open spec fn validate_pure_ok(fds: Seq<Seq<char>>, force_overwrite: bool) -> bool {
    &&& fds.len() >= 3
    &&& forall|i: int| 0 <= i < fds.len() ==> !is_plus_special(#[trigger] fds[i])
    &&& no_duplicate_paths(fds)
    &&& force_overwrite ==> !is_dash(fds[0]) && is_eq_tok(fds[1])
    &&& !is_eq_tok(fds[0]) && !is_dot_tok(fds[0])
}

/// Splits a leading `+` append marker off a descriptor value.
pub fn split_append_flag<'a>(file_name: &'a str) -> (r: (&'a str, bool))
    ensures
        r.1 == has_plus(file_name@),
        r.0@ == strip_plus(file_name@),
{
    if begins_with(file_name, '+') {
        let n = file_name.unicode_len();
        (file_name.substring_char(1, n), true)
    } else {
        (file_name, false)
    }
}

/// Whether `s` is exactly the token `=`.
pub fn eq_token(s: &str) -> (r: bool)
    ensures
        r == is_eq_tok(s@),
{
    s.unicode_len() == 1 && s.get_char(0) == '='
}

/// Whether `s` is exactly the token `.`.
pub fn dot_token(s: &str) -> (r: bool)
    ensures
        r == is_dot_tok(s@),
{
    s.unicode_len() == 1 && s.get_char(0) == '.'
}

/// Whether `s` is `+-`, `+=` or `+.`.
fn plus_special_token(s: &str) -> (r: bool)
    ensures
        r == is_plus_special(s@),
{
    s.unicode_len() == 2 && s.get_char(0) == '+' && (s.get_char(1) == '-' || s.get_char(1) == '='
        || s.get_char(1) == '.')
}

/// Names the result of `char::is_whitespace`: whether a character has the
/// Unicode whitespace property. The result depends on the character alone.
pub uninterp spec fn whitespace_char(c: char) -> bool;

/// Relies on `char::is_whitespace`: the result depends on the character
/// alone, so it is only given a name.
#[verifier::external_body]
fn char_is_whitespace(c: char) -> (r: bool)
    ensures
        r == whitespace_char(c),
{
    c.is_whitespace()
}

/// Whether `s` holds any non-whitespace character: what a trimmed
/// non-emptiness test decides.
#[verifier::loop_isolation(false)]
fn has_non_whitespace(s: &str) -> (r: bool)
    ensures
        r == exists|i: int| 0 <= i < s@.len() && !whitespace_char(#[trigger] s@[i]),
{
    let n = s.unicode_len();
    let mut i: usize = 0;
    while i < n
        invariant
            i <= n,
            forall|k: int| 0 <= k < i ==> whitespace_char(#[trigger] s@[k]),
        decreases n - i,
    {
        if !char_is_whitespace(s.get_char(i)) {
            return true;
        }
        i += 1;
    }
    false
}

/// Relies on `duct::cmd` and `duct::Expression::read`: runs `which <cmd>`
/// and hands back what it printed, or nothing where the run failed. The
/// answer depends on the machine's search path, so nothing is promised of
/// it.
#[verifier::external_body]
fn which_output(cmd: &str) -> Option<String> {
    match duct::cmd("which", [cmd]).read() {
        Ok(output) => Some(output),
        Err(_) => None,
    }
}

/// Whether `cmd` names a program discoverable on the execution search
/// path: `which` ran and printed a non-blank answer. The answer depends on
/// the machine, so nothing is promised of it.
pub fn command_exists(cmd: &str) -> bool {
    match which_output(cmd) {
        Some(output) => has_non_whitespace(output.as_str()),
        None => false,
    }
}

/// The validator's core, taking the search-path answers for the slots
/// after the first as an argument: accepts exactly the combinations
/// `validate_ok` describes.
#[verifier::loop_isolation(false)]
pub fn validate_fds_checked(fds: &[&str], force_overwrite: bool, cmd_like: &[bool]) -> (r: Result<
    (),
    OOError,
>)
    requires
        fds@.len() >= 3,
        cmd_like@.len() == fds@.len() - 1,
    ensures
        r is Ok <==> validate_ok(fds.deep_view(), force_overwrite, cmd_like@),
        r matches Err(e) ==> e is CLIError,
{
    let ghost fdsv = fds.deep_view();
    proof {
        assert(forall|k: int| 0 <= k < fdsv.len() ==> fdsv[k] == #[trigger] fds@[k]@);
    }
    let n = fds.len();
    let mut i: usize = 0;
    while i < n - 1
        invariant
            i <= n - 1,
            forall|k: int| 0 <= k < i ==> !cmd_like@[k],
        decreases n - i,
    {
        if cmd_like[i] {
            let mut m = "out/err looks a command: ".to_owned();
            m.append(fds[i + 1]);
            m.append("\n> (Use `--` to explicitly separate command from out/err)");
            return Err(OOError::CLIError { message: m });
        }
        i += 1;
    }
    let mut i: usize = 0;
    while i < n
        invariant
            i <= n,
            forall|k: int| 0 <= k < i ==> !is_plus_special(#[trigger] fdsv[k]),
        decreases n - i,
    {
        if plus_special_token(fds[i]) {
            return Err(cli_error("not possible to use `-`, `=` or `.` in combination with `+`"));
        }
        i += 1;
    }
    let mut i: usize = 0;
    while i < n
        invariant
            i <= n,
            forall|k: int, l: int|
                0 <= k < i && k < l < n && !is_special(fdsv[k]) ==> strip_plus(fdsv[l])
                    != strip_plus(fdsv[k]),
        decreases n - i,
    {
        if !(dash_token(fds[i]) || eq_token(fds[i]) || dot_token(fds[i])) {
            let mut j: usize = i + 1;
            while j < n
                invariant
                    i < j <= n,
                    !is_special(fdsv[i as int]),
                    forall|l: int|
                        i < l < j ==> strip_plus(fdsv[l]) != strip_plus(fdsv[i as int]),
                decreases n - j,
            {
                let (pi, _) = split_append_flag(fds[i]);
                let (pj, _) = split_append_flag(fds[j]);
                if str_eq(pi, pj) {
                    return Err(cli_error("explicitly use `=` when dealing with the same file"));
                }
                j += 1;
            }
        }
        i += 1;
    }
    if force_overwrite {
        if dash_token(fds[0]) {
            return Err(cli_error("option --force-overwrite requires a real file name"));
        }
        if !eq_token(fds[1]) {
            return Err(cli_error("option --force-overwrite is only valid when <stdout> is `=`"));
        }
    }
    if eq_token(fds[0]) || dot_token(fds[0]) {
        return Err(cli_error("can not specify either `=` or `.` as stdin"));
    }
    Ok(())
}

/// The validator as invoked on an argument model: answers the search-path
/// check for every slot after the first (ignoring append markers) through
/// `command_exists`, then decides as `validate_ok` says. An accepted slot
/// set satisfies `validate_pure_ok`; a slot set failing it is rejected
/// whatever the search path holds.
#[verifier::loop_isolation(false)]
pub fn do_validate_fds(fds: &[&str], force_overwrite: bool) -> (r: Result<(), OOError>)
    ensures
        r is Ok ==> validate_pure_ok(fds.deep_view(), force_overwrite),
        !validate_pure_ok(fds.deep_view(), force_overwrite) ==> r is Err,
        r matches Err(e) ==> e is CLIError,
{
    let n = fds.len();
    if n < 3 {
        return Err(cli_error("requires three arguments: stdin, stdout and stderr"));
    }
    let mut cmd_like: Vec<bool> = Vec::new();
    let mut i: usize = 1;
    while i < n
        invariant
            1 <= i <= n,
            cmd_like@.len() == i - 1,
        decreases n - i,
    {
        let (path, _) = split_append_flag(fds[i]);
        cmd_like.push(command_exists(path));
        i += 1;
    }
    validate_fds_checked(fds, force_overwrite, cmd_like.as_slice())
}

/// The slots after success normalization: stdout aliased to a
/// passthrough stdin needs no real aliasing and becomes passthrough
/// itself.
pub open spec fn normalized_fds(fds: Seq<Seq<char>>) -> Seq<Seq<char>> {
    if fds.len() >= 2 && is_dash(fds[0]) && is_eq_tok(fds[1]) {
        fds.update(1, seq!['-'])
    } else {
        fds
    }
}

/// Normalizes the slots after validation: a stdout aliased to a
/// passthrough stdin becomes passthrough.
pub fn normalize_fds<'s>(fds: &mut Vec<&'s str>)
    ensures
        final(fds).deep_view() == normalized_fds(old(fds).deep_view()),
{
    let ghost before = fds.deep_view();
    if fds.len() >= 2 && dash_token(fds[0]) && eq_token(fds[1]) {
        fds.remove(1);
        fds.insert(1, "-");
        proof {
            reveal_strlit("-");
            assert(("-"@) =~= seq!['-']);
            assert(fds.deep_view() =~~= normalized_fds(before));
        }
    }
}

/// On a well-formed three-slot set — stdin neither `=` nor `.`, and no
/// slot naming a program on the search path — the validator accepts
/// exactly when no `+` is combined with a special value, no two distinct
/// non-special slots name the same path, and force-overwrite comes with a
/// real stdin path and stdout aliased to stdin.
pub proof fn lemma_validator_characterization(
    fds: Seq<Seq<char>>,
    force_overwrite: bool,
    cmd_like: Seq<bool>,
)
    requires
        fds.len() == 3,
        cmd_like.len() == 2,
        forall|i: int| 0 <= i < 2 ==> !cmd_like[i],
        !is_eq_tok(fds[0]) && !is_dot_tok(fds[0]),
    ensures
        validate_ok(fds, force_overwrite, cmd_like) <==> {
            &&& forall|i: int| 0 <= i < 3 ==> !is_plus_special(#[trigger] fds[i])
            &&& no_duplicate_paths(fds)
            &&& force_overwrite ==> !is_dash(fds[0]) && is_eq_tok(fds[1])
        },
{
}

} // verus!
