//! Execution-engine decisions: how the three descriptor slots translate
//! into redirections, when the captured output replaces the stdin file,
//! how a sequence of chains continues after a failure, and how a chain
//! whose first stage re-invokes this tool is reformed.

use vstd::prelude::*;

use crate::args::{Args, ArgsM, ParseOutcome, parse_step, init_model};
use crate::errors::{OOError, cli_error};
use crate::strutil::{is_dash, dash_token};
use crate::validate::{
    is_eq_tok, is_dot_tok, has_plus, strip_plus, split_append_flag, eq_token, dot_token,
    do_validate_fds, validate_pure_ok, normalized_fds, normalize_fds,
};

verus! {

/// Where a chain's standard input comes from.
#[derive(Debug, PartialEq)]
pub enum StdinSpec {
    Inherit,
    FromFile(String),
}

/// Where the last stage's standard output goes.
#[derive(Debug, PartialEq)]
pub enum StdoutSpec {
    Inherit,
    Null,
    CaptureForOverwrite,
    ToFile { path: String, append: bool },
}

/// Where the last stage's standard error goes.
#[derive(Debug, PartialEq)]
pub enum StderrSpec {
    Inherit,
    Null,
    MergeIntoStdout,
    ToFile { path: String, append: bool },
}

/// The redirections applied to one chain: only the first stage's stdin
/// and the last stage's stdout/stderr are touched; the connections in
/// between are the pipes.
#[derive(Debug, PartialEq)]
pub struct RedirectionPlan {
    pub stdin: StdinSpec,
    pub stdout: StdoutSpec,
    pub stderr: StderrSpec,
}

/// Builds the redirection plan from the three descriptor slots: `-`
/// inherits, `.` discards, stdout `=` captures into a private temporary
/// file for the atomic overwrite, stderr `=` merges into stdout, and any
/// other value names a file, append-tagged when it starts with `+`.
pub fn plan_redirections(fds: &[&str]) -> (r: RedirectionPlan)
    requires
        fds@.len() == 3,
    ensures
        ({
            let v0 = fds.deep_view()[0];
            &&& is_dash(v0) ==> r.stdin is Inherit
            &&& !is_dash(v0) ==> (r.stdin matches StdinSpec::FromFile(p) && p@ == v0)
        }),
        ({
            let v1 = fds.deep_view()[1];
            &&& is_eq_tok(v1) ==> r.stdout is CaptureForOverwrite
            &&& is_dot_tok(v1) ==> r.stdout is Null
            &&& is_dash(v1) ==> r.stdout is Inherit
            &&& !(is_eq_tok(v1) || is_dot_tok(v1) || is_dash(v1)) ==> (r.stdout matches
                StdoutSpec::ToFile { path, append } && path@ == strip_plus(v1) && append
                == has_plus(v1))
        }),
        ({
            let v2 = fds.deep_view()[2];
            &&& is_eq_tok(v2) ==> r.stderr is MergeIntoStdout
            &&& is_dot_tok(v2) ==> r.stderr is Null
            &&& is_dash(v2) ==> r.stderr is Inherit
            &&& !(is_eq_tok(v2) || is_dot_tok(v2) || is_dash(v2)) ==> (r.stderr matches
                StderrSpec::ToFile { path, append } && path@ == strip_plus(v2) && append
                == has_plus(v2))
        }),
{
    let stdin = if dash_token(fds[0]) {
        StdinSpec::Inherit
    } else {
        StdinSpec::FromFile(fds[0].to_owned())
    };
    let stdout = if eq_token(fds[1]) {
        StdoutSpec::CaptureForOverwrite
    } else if dot_token(fds[1]) {
        StdoutSpec::Null
    } else if dash_token(fds[1]) {
        StdoutSpec::Inherit
    } else {
        let (path, append) = split_append_flag(fds[1]);
        StdoutSpec::ToFile { path: path.to_owned(), append }
    };
    let stderr = if eq_token(fds[2]) {
        StderrSpec::MergeIntoStdout
    } else if dot_token(fds[2]) {
        StderrSpec::Null
    } else if dash_token(fds[2]) {
        StderrSpec::Inherit
    } else {
        let (path, append) = split_append_flag(fds[2]);
        StderrSpec::ToFile { path: path.to_owned(), append }
    };
    RedirectionPlan { stdin, stdout, stderr }
}

/// Whether the output captured for the atomic overwrite replaces the
/// stdin file: only after a successful exit, or under force-overwrite.
/// Otherwise the source file is left untouched.
pub fn should_replace_stdin_file(exit_success: bool, force_overwrite: bool) -> (r: bool)
    ensures
        r == (exit_success || force_overwrite),
{
    exit_success || force_overwrite
}

/// The descriptor slots applied to every chain after the first:
/// passthrough throughout.
pub fn passthrough_fds() -> (r: Vec<&'static str>)
    ensures
        r.deep_view() =~= seq![seq!['-'], seq!['-'], seq!['-']],
{
    let mut v: Vec<&'static str> = Vec::new();
    v.push("-");
    v.push("-");
    v.push("-");
    proof {
        reveal_strlit("-");
        assert(("-"@) =~= seq!['-']);
        assert(v.deep_view() =~~= seq![seq!['-'], seq!['-'], seq!['-']]);
    }
    v
}

/// Whether the sequence goes on after a chain reported `exit_code`.
pub fn chain_continues(exit_code: i32, keep_going: bool) -> (r: bool)
    ensures
        r == (keep_going || exit_code == 0),
{
    keep_going || exit_code == 0
}

/// How many chains of a sequence with these exit codes run: all of them
/// under keep-going, otherwise up to and including the first failure.
pub open spec fn run_count(codes: Seq<i32>, keep_going: bool) -> int
    decreases codes.len(),
{
    if codes.len() == 0 {
        0
    } else if codes.len() == 1 {
        1
    } else if keep_going || codes[0] == 0 {
        1 + run_count(codes.skip(1), keep_going)
    } else {
        1
    }
}

/// At least one chain of a non-empty sequence runs, and never more than
/// there are chains.
pub proof fn lemma_run_count_bounds(codes: Seq<i32>, keep_going: bool)
    ensures
        0 <= run_count(codes, keep_going) <= codes.len(),
        codes.len() > 0 ==> 1 <= run_count(codes, keep_going),
    decreases codes.len(),
{
    if codes.len() > 1 {
        lemma_run_count_bounds(codes.skip(1), keep_going);
    }
}

/// The exit code the whole sequence reports: that of the last chain that
/// ran, or 0 when no chain ran.
pub open spec fn last_code(codes: Seq<i32>, keep_going: bool) -> i32
    decreases codes.len(),
{
    if codes.len() == 0 {
        0
    } else if codes.len() == 1 {
        codes[0]
    } else if keep_going || codes[0] == 0 {
        last_code(codes.skip(1), keep_going)
    } else {
        codes[0]
    }
}

/// Runs the sequencing policy over the chains' would-be exit codes:
/// reports how many chains run and the exit code of the whole sequence.
pub fn sequence_outcome(codes: &[i32], keep_going: bool) -> (r: (usize, i32))
    ensures
        r.0 == run_count(codes@, keep_going),
        r.1 == last_code(codes@, keep_going),
    decreases codes@.len(),
{
    let n = codes.len();
    if n == 0 {
        return (0, 0);
    }
    let first = codes[0];
    if n == 1 {
        return (1, first);
    }
    if keep_going || first == 0 {
        let rest = vstd::slice::slice_subrange(codes, 1, n);
        proof {
            assert(rest@ =~= codes@.skip(1));
        }
        let (cnt, code) = sequence_outcome(rest, keep_going);
        proof {
            lemma_run_count_bounds(rest@, keep_going);
        }
        ((cnt + 1), code)
    } else {
        (1, first)
    }
}

/// Without keep-going, a sequence whose first failure is at position `k`
/// runs exactly the chains up to and including `k`, and reports that
/// chain's exit code; later chains never run.
pub proof fn lemma_sequencing_stops_at_failure(codes: Seq<i32>, k: int)
    requires
        0 <= k < codes.len(),
        codes[k] != 0,
        forall|j: int| 0 <= j < k ==> codes[j] == 0,
    ensures
        run_count(codes, false) == k + 1,
        last_code(codes, false) == codes[k],
    decreases codes.len(),
{
    if k > 0 {
        lemma_sequencing_stops_at_failure(codes.skip(1), k - 1);
    }
}

/// With keep-going, every chain runs and the sequence reports the last
/// chain's exit code, not the first failure's.
pub proof fn lemma_sequencing_keep_going(codes: Seq<i32>)
    requires
        codes.len() > 0,
    ensures
        run_count(codes, true) == codes.len(),
        last_code(codes, true) == codes[codes.len() - 1],
    decreases codes.len(),
{
    if codes.len() > 1 {
        lemma_sequencing_keep_going(codes.skip(1));
    }
}

/// One stage's tokens as owned strings, cloned element by element.
fn clone_stage(v: &Vec<String>) -> (r: Vec<String>)
    ensures
        r@ == v@,
{
    let mut r: Vec<String> = Vec::new();
    let n = v.len();
    let mut i: usize = 0;
    #[verifier::loop_isolation(false)]
    while i < n
        invariant
            i <= n,
            r@.len() == i,
            forall|k: int| 0 <= k < i ==> r@[k] == v@[k],
        decreases n - i,
    {
        r.push(v[i].clone());
        i += 1;
    }
    proof {
        assert(r@ =~= v@);
    }
    r
}

/// What reforming hands back on success: the chain with its leading
/// tokens re-parsed away, and the nested model merged with the outer one.
pub open spec fn reformed_model(m: ArgsM, outer: ArgsM) -> ArgsM {
    ArgsM {
        fds: normalized_fds(m.fds),
        envs: outer.envs + m.envs,
        working_directory: if m.working_directory is Some {
            m.working_directory
        } else {
            outer.working_directory
        },
        force_overwrite: m.force_overwrite || outer.force_overwrite,
        ..m
    }
}

/// The nested model uses an option that is invalid in nested position.
pub open spec fn nested_invalid_options(m: ArgsM) -> bool {
    m.debug_info || m.pipe_str is Some || m.separator_str is Some || m.tempdir_placeholder is Some
}

/// Reforms a later chain whose first stage is an invocation of this tool:
/// the stage's tokens are re-parsed as a nested argument model (rejecting
/// the pipe, separator, placeholder and debug options), the nested slots
/// are validated and normalized, and the nested environment, working
/// directory and force-overwrite flag are merged with the outer ones
/// (outer values first, nested values shadowing).
#[verifier::loop_isolation(false)]
pub fn reform_pipeline_for_2nd_or_later_oo_command_line<'s>(
    pl: &'s Vec<Vec<String>>,
    a: &Args<'s>,
) -> (r: Result<(Vec<Vec<String>>, Args<'s>), OOError>)
    requires
        pl@.len() >= 1,
        pl@[0]@.len() >= 2,
    ensures
        ({
            let po = parse_step(pl.deep_view()[0], 1, init_model());
            &&& po is Help ==> (r matches Err(e) && e is HelpRequested)
            &&& po is Version ==> (r matches Err(e) && e is VersionRequested)
            &&& po is Rejected ==> (r matches Err(e) && e is CLIError)
            &&& (po matches ParseOutcome::Parsed(m) && nested_invalid_options(m)) ==> (r matches
                Err(e) && e is CLIError)
            &&& (po matches ParseOutcome::Parsed(m) && !nested_invalid_options(m)
                && !validate_pure_ok(m.fds, m.force_overwrite)) ==> r is Err
            &&& r matches Ok(p) ==> (po matches ParseOutcome::Parsed(m) && {
                &&& !nested_invalid_options(m)
                &&& validate_pure_ok(m.fds, m.force_overwrite)
                &&& p.0.deep_view() == seq![m.command_line] + pl.deep_view().skip(1)
                &&& p.1@ == reformed_model(m, a@)
            })
        }),
{
    let ghost plv = pl.deep_view();
    let first_stage: &'s Vec<String> = &pl[0];
    let mut pl0: Vec<&'s str> = Vec::new();
    let sn = first_stage.len();
    let mut i: usize = 0;
    while i < sn
        invariant
            i <= sn,
            pl0@.len() == i,
            forall|k: int| 0 <= k < i ==> pl0@[k]@ == first_stage@[k]@,
        decreases sn - i,
    {
        pl0.push(first_stage[i].as_str());
        i += 1;
    }
    proof {
        assert(pl0.deep_view() =~~= plv[0]);
    }
    let mut sub_a = match Args::parse(pl0.as_slice()) {
        Ok(s) => s,
        Err(e) => { return Err(e) },
    };
    let ghost m0 = sub_a@;
    if sub_a.debug_info {
        return Err(cli_error("invalid option used in sub-command: --debug-info"));
    }
    if sub_a.pipe_str.is_some() {
        return Err(cli_error("invalid option used in sub-command: --pipe"));
    }
    if sub_a.separator_str.is_some() {
        return Err(cli_error("invalid option used in sub-command: --separator"));
    }
    if sub_a.tempdir_placeholder.is_some() {
        return Err(cli_error("invalid option used in sub-command: --tempdir-placeholder="));
    }
    match do_validate_fds(sub_a.fds.as_slice(), sub_a.force_overwrite) {
        Ok(()) => {},
        Err(e) => { return Err(e) },
    }
    normalize_fds(&mut sub_a.fds);
    let mut sub_pl0: Vec<String> = Vec::new();
    let cn = sub_a.command_line.len();
    let mut i: usize = 0;
    while i < cn
        invariant
            i <= cn,
            sub_pl0@.len() == i,
            forall|k: int| 0 <= k < i ==> sub_pl0@[k]@ == sub_a.command_line@[k]@,
        decreases cn - i,
    {
        sub_pl0.push(sub_a.command_line[i].to_owned());
        i += 1;
    }
    let mut sub_pl: Vec<Vec<String>> = Vec::new();
    proof {
        assert(sub_pl0.deep_view() =~~= sub_a@.command_line);
    }
    sub_pl.push(sub_pl0);
    let pn = pl.len();
    let mut i: usize = 1;
    while i < pn
        invariant
            1 <= i <= pn,
            sub_pl@.len() == i,
            sub_pl@[0].deep_view() == sub_a@.command_line,
            forall|k: int| 1 <= k < i ==> (#[trigger] sub_pl@[k]).deep_view() == plv[k],
        decreases pn - i,
    {
        sub_pl.push(clone_stage(&pl[i]));
        i += 1;
    }
    let mut envs: Vec<(&'s str, &'s str)> = Vec::new();
    let an = a.envs.len();
    let mut i: usize = 0;
    while i < an
        invariant
            i <= an,
            envs@.len() == i,
            forall|k: int| 0 <= k < i ==> envs@[k] == a.envs@[k],
        decreases an - i,
    {
        envs.push(a.envs[i]);
        i += 1;
    }
    let en = sub_a.envs.len();
    let mut i: usize = 0;
    while i < en
        invariant
            i <= en,
            envs@.len() == an + i,
            forall|k: int| 0 <= k < an ==> envs@[k] == a.envs@[k],
            forall|k: int| 0 <= k < i ==> envs@[an + k] == sub_a.envs@[k],
        decreases en - i,
    {
        envs.push(sub_a.envs[i]);
        i += 1;
    }
    sub_a.envs = envs;
    if sub_a.working_directory.is_none() {
        sub_a.working_directory = a.working_directory;
    }
    sub_a.force_overwrite = sub_a.force_overwrite || a.force_overwrite;
    proof {
        assert(sub_pl.deep_view() =~~= seq![m0.command_line] + plv.skip(1));
        assert(sub_a@ =~= reformed_model(m0, a@));
    }
    Ok((sub_pl, sub_a))
}

} // verus!
