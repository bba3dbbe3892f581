//! The pipeline compiler: splits the command line into chains on the
//! chain-separator token and each chain into stages on the pipe token,
//! substitutes the temporary-directory placeholder, and creates the
//! invocation's temporary directory lazily, at most once.

use vstd::prelude::*;
use vstd::slice::slice_subrange;

use crate::errors::{OOError, cli_error};
use crate::strutil::str_eq;
use crate::textsub::{subst_from, subst_happens, replace_tempdir_name, token_needs_tempdir};

verus! {

#[verifier::external_type_specification]
#[verifier::external_body]
pub struct ExTempDir(tempfile::TempDir);

/// How many tokens of `ts` equal the delimiter `d`.
pub open spec fn count_tok(ts: Seq<Seq<char>>, d: Seq<char>) -> int
    decreases ts.len(),
{
    if ts.len() == 0 {
        0
    } else {
        (if ts[0] == d {
            1int
        } else {
            0int
        }) + count_tok(ts.skip(1), d)
    }
}

/// Splits a token list on a delimiter token: one segment more than there
/// are delimiter occurrences, in order, delimiters dropped.
pub open spec fn split_on(ts: Seq<Seq<char>>, d: Seq<char>) -> Seq<Seq<Seq<char>>>
    decreases ts.len(),
{
    if ts.len() == 0 {
        seq![Seq::empty()]
    } else if ts[0] == d {
        seq![Seq::empty()] + split_on(ts.skip(1), d)
    } else {
        let r = split_on(ts.skip(1), d);
        seq![seq![ts[0]] + r[0]] + r.skip(1)
    }
}

/// Joins segments back, putting the delimiter token between them.
pub open spec fn join_on(parts: Seq<Seq<Seq<char>>>, d: Seq<char>) -> Seq<Seq<char>>
    decreases parts.len(),
{
    if parts.len() == 0 {
        Seq::empty()
    } else if parts.len() == 1 {
        parts[0]
    } else {
        parts[0] + seq![d] + join_on(parts.skip(1), d)
    }
}

/// Counting delimiters never yields a negative number.
pub proof fn lemma_count_tok_nonneg(ts: Seq<Seq<char>>, d: Seq<char>)
    ensures
        count_tok(ts, d) >= 0,
    decreases ts.len(),
{
    if ts.len() > 0 {
        lemma_count_tok_nonneg(ts.skip(1), d);
    }
}

/// Splitting yields one segment more than there are delimiters.
pub proof fn lemma_split_on_count(ts: Seq<Seq<char>>, d: Seq<char>)
    ensures
        split_on(ts, d).len() == count_tok(ts, d) + 1,
    decreases ts.len(),
{
    if ts.len() > 0 {
        lemma_split_on_count(ts.skip(1), d);
    }
}

/// Joining the segments a split produced, with the same delimiter,
/// reproduces the original token list.
pub proof fn lemma_split_join(ts: Seq<Seq<char>>, d: Seq<char>)
    ensures
        join_on(split_on(ts, d), d) == ts,
    decreases ts.len(),
{
    lemma_split_on_count(ts, d);
    lemma_count_tok_nonneg(ts, d);
    if ts.len() == 0 {
        assert(join_on(split_on(ts, d), d) =~= ts);
    } else {
        lemma_split_join(ts.skip(1), d);
        lemma_split_on_count(ts.skip(1), d);
        lemma_count_tok_nonneg(ts.skip(1), d);
        let r = split_on(ts.skip(1), d);
        if ts[0] == d {
            assert((seq![Seq::<Seq<char>>::empty()] + r).skip(1) =~= r);
            assert(join_on(split_on(ts, d), d) =~= ts);
        } else {
            let head = seq![seq![ts[0]] + r[0]];
            assert((head + r.skip(1)).skip(1) =~= r.skip(1));
            if r.len() == 1 {
                assert(r.skip(1) =~= Seq::<Seq<Seq<char>>>::empty());
                assert(split_on(ts, d) =~= head + r.skip(1));
                assert(split_on(ts, d) =~= head);
                assert(join_on(head, d) == head[0]);
                assert(join_on(r, d) == r[0]);
                assert(head[0] =~= ts);
                assert(join_on(split_on(ts, d), d) =~= ts);
            } else {
                let sp = split_on(ts, d);
                assert(sp =~= head + r.skip(1));
                assert(sp.len() == r.len());
                assert(sp[0] == head[0]);
                assert(sp.skip(1) =~= r.skip(1));
                assert(join_on(sp, d) == sp[0] + seq![d] + join_on(sp.skip(1), d));
                assert(join_on(r, d) == r[0] + seq![d] + join_on(r.skip(1), d));
                assert(join_on(sp, d) =~= seq![ts[0]] + join_on(r, d));
                assert(seq![ts[0]] + ts.skip(1) =~= ts);
                assert(join_on(split_on(ts, d), d) =~= ts);
            }
        }
    }
}

/// The compiled shape of a command line: the chains (split on the
/// separator token, or the whole line when that token is empty), each a
/// list of stages (split on the pipe token, same opt-out).
pub open spec fn chains_of(tokens: Seq<Seq<char>>, pipe: Seq<char>, sep: Seq<char>) -> Seq<
    Seq<Seq<Seq<char>>>,
> {
    let top = if sep.len() == 0 {
        seq![tokens]
    } else {
        split_on(tokens, sep)
    };
    top.map_values(
        |c: Seq<Seq<char>>|
            if pipe.len() == 0 {
                seq![c]
            } else {
                split_on(c, pipe)
            },
    )
}

/// Every stage of every chain holds at least one token.
pub open spec fn stages_nonempty(chains: Seq<Seq<Seq<Seq<char>>>>) -> bool {
    forall|i: int, j: int|
        0 <= i < chains.len() && 0 <= j < chains[i].len() ==> (#[trigger] chains[i][j]).len() > 0
}

/// Compiling a command line yields one chain per separator occurrence
/// plus one; each chain holds one stage per pipe occurrence within it
/// plus one; and re-joining the stages with the same pipe and separator
/// tokens reproduces the original token sequence.
pub proof fn lemma_compile_round_trip(tokens: Seq<Seq<char>>, pipe: Seq<char>, sep: Seq<char>)
    requires
        pipe.len() > 0,
        sep.len() > 0,
    ensures
        chains_of(tokens, pipe, sep).len() == count_tok(tokens, sep) + 1,
        forall|i: int|
            0 <= i < chains_of(tokens, pipe, sep).len() ==> (#[trigger] chains_of(
                tokens,
                pipe,
                sep,
            )[i]).len() == count_tok(split_on(tokens, sep)[i], pipe) + 1,
        join_on(
            chains_of(tokens, pipe, sep).map_values(|st: Seq<Seq<Seq<char>>>| join_on(st, pipe)),
            sep,
        ) == tokens,
{
    let top = split_on(tokens, sep);
    lemma_split_on_count(tokens, sep);
    assert forall|i: int| 0 <= i < chains_of(tokens, pipe, sep).len() implies (
    #[trigger] chains_of(tokens, pipe, sep)[i]).len() == count_tok(split_on(tokens, sep)[i], pipe)
        + 1 by {
        lemma_split_on_count(top[i], pipe);
    }
    let mapped = chains_of(tokens, pipe, sep).map_values(
        |st: Seq<Seq<Seq<char>>>| join_on(st, pipe),
    );
    assert forall|i: int| 0 <= i < top.len() implies #[trigger] mapped[i] == top[i] by {
        lemma_split_join(top[i], pipe);
    }
    assert(mapped =~= top);
    lemma_split_join(tokens, sep);
}

/// Splits a token list on exact matches of the delimiter token.
fn split_tokens_on(tokens: &[String], d: &str) -> (r: Vec<Vec<String>>)
    ensures
        r.deep_view() == split_on(tokens.deep_view(), d@),
    decreases tokens@.len(),
{
    let ghost ts = tokens.deep_view();
    if tokens.len() == 0 {
        let mut r: Vec<Vec<String>> = Vec::new();
        r.push(Vec::new());
        proof {
            assert(r.deep_view() =~~= split_on(ts, d@));
        }
        return r;
    }
    let rest = slice_subrange(tokens, 1, tokens.len());
    proof {
        assert(rest.deep_view() =~~= ts.skip(1));
    }
    let mut r = split_tokens_on(rest, d);
    if str_eq(tokens[0].as_str(), d) {
        let mut out: Vec<Vec<String>> = Vec::new();
        out.push(Vec::new());
        out.append(&mut r);
        proof {
            assert(out.deep_view() =~~= split_on(ts, d@));
        }
        out
    } else {
        proof {
            lemma_split_on_count(ts.skip(1), d@);
            lemma_count_tok_nonneg(ts.skip(1), d@);
        }
        let first = r.remove(0);
        let mut new_first: Vec<String> = Vec::new();
        new_first.push(tokens[0].clone());
        let mut nf = new_first;
        let mut first_tail = first;
        nf.append(&mut first_tail);
        let mut out: Vec<Vec<String>> = Vec::new();
        out.push(nf);
        out.append(&mut r);
        proof {
            assert(out.deep_view() =~~= split_on(ts, d@));
        }
        out
    }
}

/// A token list as owned strings.
fn to_owned_tokens(tokens: &[&str]) -> (r: Vec<String>)
    ensures
        r.deep_view() == tokens.deep_view(),
{
    let mut r: Vec<String> = Vec::new();
    let n = tokens.len();
    let mut i: usize = 0;
    #[verifier::loop_isolation(false)]
    while i < n
        invariant
            i <= n,
            r@.len() == i,
            forall|k: int| 0 <= k < i ==> r@[k]@ == tokens@[k]@,
        decreases n - i,
    {
        r.push(tokens[i].to_owned());
        i += 1;
    }
    proof {
        assert(r.deep_view() =~~= tokens.deep_view());
    }
    r
}

/// Splits the command line into chains on the separator token and each
/// chain into stages on the pipe token (an empty token disables the
/// respective split); an empty stage anywhere is a configuration error.
#[verifier::loop_isolation(false)]
pub fn split_command_line(tokens: &[&str], pipe_str: &str, separator_str: &str) -> (r: Result<
    Vec<Vec<Vec<String>>>,
    OOError,
>)
    ensures
        r is Ok <==> stages_nonempty(chains_of(tokens.deep_view(), pipe_str@, separator_str@)),
        r matches Ok(c) ==> c.deep_view() == chains_of(tokens.deep_view(), pipe_str@, separator_str@),
        r matches Err(e) ==> e is CLIError,
{
    let ghost tv = tokens.deep_view();
    let ghost spec_chains = chains_of(tv, pipe_str@, separator_str@);
    let owned = to_owned_tokens(tokens);
    let top: Vec<Vec<String>> = if separator_str.unicode_len() == 0 {
        let mut t: Vec<Vec<String>> = Vec::new();
        t.push(owned);
        t
    } else {
        split_tokens_on(owned.as_slice(), separator_str)
    };
    proof {
        assert(top.deep_view() =~~= (if separator_str@.len() == 0 {
            seq![tv]
        } else {
            split_on(tv, separator_str@)
        }));
    }
    let ghost topv = top.deep_view();
    let mut chains: Vec<Vec<Vec<String>>> = Vec::new();
    let n = top.len();
    let mut i: usize = 0;
    while i < n
        invariant
            i <= n,
            chains@.len() == i,
            spec_chains.len() == n,
            forall|k: int| 0 <= k < i ==> (#[trigger] chains@[k]).deep_view() == spec_chains[k],
            forall|k: int, j: int|
                0 <= k < i && 0 <= j < spec_chains[k].len() ==> (#[trigger] spec_chains[k][j]).len()
                    > 0,
        decreases n - i,
    {
        let seg: &Vec<String> = &top[i];
        let stages: Vec<Vec<String>> = if pipe_str.unicode_len() == 0 {
            let mut t: Vec<Vec<String>> = Vec::new();
            t.push(seg.clone());
            t
        } else {
            split_tokens_on(seg.as_slice(), pipe_str)
        };
        proof {
            assert(seg.deep_view() == topv[i as int]);
            assert(stages.deep_view() =~~= spec_chains[i as int]);
        }
        let m = stages.len();
        let mut j: usize = 0;
        while j < m
            invariant
                j <= m,
                forall|l: int| 0 <= l < j ==> (#[trigger] spec_chains[i as int][l]).len() > 0,
            decreases m - j,
        {
            if stages[j].len() == 0 {
                proof {
                    assert(spec_chains[i as int][j as int] == stages@[j as int].deep_view());
                    assert(spec_chains[i as int][j as int].len() == 0);
                    assert(!stages_nonempty(spec_chains));
                }
                if m == 1 {
                    return Err(cli_error("empty command line (unexpected separator)"));
                } else {
                    return Err(cli_error("empty command line (unexpected pipe)"));
                }
            }
            proof {
                assert(spec_chains[i as int][j as int] == stages@[j as int].deep_view());
            }
            j += 1;
        }
        chains.push(stages);
        i += 1;
    }
    proof {
        assert(chains.deep_view() =~~= spec_chains);
        assert(stages_nonempty(spec_chains));
    }
    Ok(chains)
}

/// A stage token after placeholder substitution with the temporary
/// directory path `td`.
pub open spec fn subst_token(t: Seq<char>, ph: Seq<char>, td: Seq<char>) -> Seq<char> {
    if ph.len() > 0 && subst_happens(t, ph, 0) {
        subst_from(t, ph, td, 0)
    } else {
        t
    }
}

/// All chains with every stage token substituted.
pub open spec fn subst_chains(chains: Seq<Seq<Seq<Seq<char>>>>, ph: Seq<char>, td: Seq<
    char,
>) -> Seq<Seq<Seq<Seq<char>>>> {
    chains.map_values(
        |c: Seq<Seq<Seq<char>>>|
            c.map_values(
                |st: Seq<Seq<char>>| st.map_values(|t: Seq<char>| subst_token(t, ph, td)),
            ),
    )
}

/// Some stage token holds the placeholder in valid (path-prefix) position.
pub open spec fn needs_tempdir(chains: Seq<Seq<Seq<Seq<char>>>>, ph: Seq<char>) -> bool {
    exists|i: int, j: int, k: int|
        0 <= i < chains.len() && 0 <= j < chains[i].len() && 0 <= k < chains[i][j].len()
            && ph.len() > 0 && subst_happens(#[trigger] chains[i][j][k], ph, 0)
}

/// Whether any stage token would be substituted.
#[verifier::loop_isolation(false)]
fn pipelines_need_tempdir(chains: &Vec<Vec<Vec<String>>>, ph: &str) -> (r: bool)
    ensures
        r == needs_tempdir(chains.deep_view(), ph@),
{
    let ghost cv = chains.deep_view();
    let n = chains.len();
    let mut i: usize = 0;
    while i < n
        invariant
            i <= n,
            forall|a: int, b: int, c: int|
                0 <= a < i && 0 <= b < cv[a].len() && 0 <= c < cv[a][b].len() ==> !(ph@.len() > 0
                    && subst_happens(#[trigger] cv[a][b][c], ph@, 0)),
        decreases n - i,
    {
        let m = chains[i].len();
        let mut j: usize = 0;
        while j < m
            invariant
                j <= m,
                forall|b: int, c: int|
                    0 <= b < j && 0 <= c < cv[i as int][b].len() ==> !(ph@.len() > 0
                        && subst_happens(#[trigger] cv[i as int][b][c], ph@, 0)),
            decreases m - j,
        {
            let p = chains[i][j].len();
            let mut k: usize = 0;
            while k < p
                invariant
                    k <= p,
                    forall|c: int|
                        0 <= c < k ==> !(ph@.len() > 0 && subst_happens(
                            #[trigger] cv[i as int][j as int][c],
                            ph@,
                            0,
                        )),
                decreases p - k,
            {
                if token_needs_tempdir(chains[i][j][k].as_str(), ph) {
                    proof {
                        assert(cv[i as int] == chains@[i as int].deep_view());
                        assert(cv[i as int][j as int] == chains@[i as int]@[j as int].deep_view());
                        assert(cv[i as int][j as int][k as int] == chains@[i as int]@[j as int]@[k as int]@);
                        assert(needs_tempdir(cv, ph@));
                    }
                    return true;
                }
                proof {
                    assert(cv[i as int][j as int][k as int] == chains@[i as int]@[j as int]@[k as int]@);
                }
                k += 1;
            }
            j += 1;
        }
        i += 1;
    }
    false
}

/// Every recorded pair is an original token the placeholder occurred in,
/// with its substituted form.
pub open spec fn replaced_ok(rs: Seq<(String, String)>, ph: Seq<char>, td: Seq<char>) -> bool {
    forall|k: int|
        0 <= k < rs.len() ==> ph.len() > 0 && subst_happens((#[trigger] rs[k]).0@, ph, 0)
            && rs[k].1@ == subst_from(rs[k].0@, ph, td, 0)
}

/// Recording one more substituted pair keeps the record well-formed.
proof fn lemma_replaced_push(rs: Seq<(String, String)>, e: (String, String), ph: Seq<char>, td: Seq<char>)
    requires
        replaced_ok(rs, ph, td),
        ph.len() > 0,
        subst_happens(e.0@, ph, 0),
        e.1@ == subst_from(e.0@, ph, td, 0),
    ensures
        replaced_ok(rs.push(e), ph, td),
{
    assert forall|k: int| 0 <= k < rs.push(e).len() implies ph.len() > 0 && subst_happens(
        (#[trigger] rs.push(e)[k]).0@,
        ph,
        0,
    ) && rs.push(e)[k].1@ == subst_from(rs.push(e)[k].0@, ph, td, 0) by {
        if k < rs.len() {
            assert(rs.push(e)[k] == rs[k]);
        } else {
            assert(rs.push(e)[k] == e);
        }
    }
}

/// All chains with every stage token substituted, together with the list
/// of (original, substituted) token pairs in traversal order.
#[verifier::loop_isolation(false)]
fn substitute_pipelines(chains: &Vec<Vec<Vec<String>>>, ph: &str, td: &str) -> (r: (
    Vec<Vec<Vec<String>>>,
    Vec<(String, String)>,
))
    ensures
        r.0.deep_view() == subst_chains(chains.deep_view(), ph@, td@),
        replaced_ok(r.1@, ph@, td@),
{
    let ghost cv = chains.deep_view();
    let ghost goal = subst_chains(cv, ph@, td@);
    let mut out: Vec<Vec<Vec<String>>> = Vec::new();
    let mut replaced: Vec<(String, String)> = Vec::new();
    let n = chains.len();
    let mut i: usize = 0;
    while i < n
        invariant
            i <= n,
            out@.len() == i,
            forall|a: int| 0 <= a < i ==> (#[trigger] out@[a]).deep_view() == goal[a],
            replaced_ok(replaced@, ph@, td@),
        decreases n - i,
    {
        let m = chains[i].len();
        let mut chain_out: Vec<Vec<String>> = Vec::new();
        let mut j: usize = 0;
        while j < m
            invariant
                j <= m,
                chain_out@.len() == j,
                forall|b: int| 0 <= b < j ==> (#[trigger] chain_out@[b]).deep_view() == goal[i as int][b],
                replaced_ok(replaced@, ph@, td@),
            decreases m - j,
        {
            let p = chains[i][j].len();
            let mut stage_out: Vec<String> = Vec::new();
            let mut k: usize = 0;
            while k < p
                invariant
                    k <= p,
                    stage_out@.len() == k,
                    forall|c: int|
                        0 <= c < k ==> (#[trigger] stage_out@[c])@ == goal[i as int][j as int][c],
                    replaced_ok(replaced@, ph@, td@),
                decreases p - k,
            {
                let tok: &String = &chains[i][j][k];
                proof {
                    assert(cv[i as int] == chains@[i as int].deep_view());
                    assert(cv[i as int][j as int] == chains@[i as int]@[j as int].deep_view());
                    assert(cv[i as int][j as int][k as int] == tok@);
                    assert(goal[i as int] == subst_chains(cv, ph@, td@)[i as int]);
                    assert(goal[i as int][j as int][k as int] == subst_token(tok@, ph@, td@));
                }
                match replace_tempdir_name(tok.as_str(), ph, td) {
                    Some(new_tok) => {
                        let pair = (tok.clone(), new_tok.clone());
                        proof {
                            lemma_replaced_push(replaced@, pair, ph@, td@);
                        }
                        replaced.push(pair);
                        stage_out.push(new_tok);
                    },
                    None => {
                        stage_out.push(tok.clone());
                    },
                }
                k += 1;
            }
            proof {
                assert(stage_out.deep_view() =~= goal[i as int][j as int]);
            }
            chain_out.push(stage_out);
            j += 1;
        }
        proof {
            assert forall|b: int| 0 <= b < m implies chain_out.deep_view()[b] == goal[i as int][b] by {
                assert(chain_out.deep_view()[b] == chain_out@[b].deep_view());
            }
            assert(goal[i as int].len() == m);
            assert(chain_out.deep_view() =~= goal[i as int]);
        }
        out.push(chain_out);
        i += 1;
    }
    proof {
        assert forall|a: int| 0 <= a < n implies out.deep_view()[a] == goal[a] by {
            assert(out.deep_view()[a] == out@[a].deep_view());
        }
        assert(goal.len() == n);
        assert(out.deep_view() =~= goal);
    }
    (out, replaced)
}

/// The compiled invocation: the chains to run, and the lazily created
/// temporary directory with its path where the placeholder asked for one.
/// The directory guard keeps the directory alive for the invocation and
/// removes it when dropped.
pub struct CompiledPipelines {
    pub chains: Vec<Vec<Vec<String>>>,
    pub temp_dir: Option<tempfile::TempDir>,
    pub temp_dir_path: Option<String>,
    pub replaced: Vec<(String, String)>,
}

/// Relies on `tempfile::tempdir` and `TempDir::path`: creates a fresh
/// temporary directory and hands back its guard and its path. The path
/// depends on the machine and on chance, so nothing is promised of it.
#[verifier::external_body]
fn create_temp_dir() -> Option<(tempfile::TempDir, String)> {
    match tempfile::tempdir() {
        Ok(td) => match td.path().to_str() {
            Some(s) => {
                let p = s.to_string();
                Some((td, p))
            },
            None => None,
        },
        Err(_) => None,
    }
}

/// Compiles the command line: splits it into chains and stages, and, the
/// first time the placeholder stands in path-prefix position in any stage
/// token, creates one temporary directory whose path replaces every such
/// occurrence. No directory is created when the placeholder never occurs
/// in valid position.
pub fn compile_pipelines(
    tokens: &[&str],
    pipe_str: &str,
    separator_str: &str,
    tempdir_placeholder: &str,
) -> (r: Result<CompiledPipelines, OOError>)
    ensures
        !stages_nonempty(chains_of(tokens.deep_view(), pipe_str@, separator_str@)) ==> r is Err,
        stages_nonempty(chains_of(tokens.deep_view(), pipe_str@, separator_str@)) && !needs_tempdir(
            chains_of(tokens.deep_view(), pipe_str@, separator_str@),
            tempdir_placeholder@,
        ) ==> r is Ok,
        r matches Err(e) ==> e is CLIError,
        r matches Ok(c) ==> ({
            let chains0 = chains_of(tokens.deep_view(), pipe_str@, separator_str@);
            &&& stages_nonempty(chains0)
            &&& if needs_tempdir(chains0, tempdir_placeholder@) {
                &&& c.temp_dir is Some
                &&& c.temp_dir_path matches Some(p) && c.chains.deep_view() == subst_chains(
                    chains0,
                    tempdir_placeholder@,
                    p@,
                )
            } else {
                &&& c.temp_dir is None
                &&& c.temp_dir_path is None
                &&& c.chains.deep_view() == chains0
            }
        }),
{
    let chains = match split_command_line(tokens, pipe_str, separator_str) {
        Ok(c) => c,
        Err(e) => { return Err(e) },
    };
    if !pipelines_need_tempdir(&chains, tempdir_placeholder) {
        return Ok(
            CompiledPipelines {
                chains,
                temp_dir: None,
                temp_dir_path: None,
                replaced: Vec::new(),
            },
        );
    }
    match create_temp_dir() {
        Some((td, path)) => {
            let (new_chains, replaced) = substitute_pipelines(
                &chains,
                tempdir_placeholder,
                path.as_str(),
            );
            Ok(
                CompiledPipelines {
                    chains: new_chains,
                    temp_dir: Some(td),
                    temp_dir_path: Some(path),
                    replaced,
                },
            )
        },
        None => Err(cli_error("could not create a temporary directory")),
    }
}

} // verus!
