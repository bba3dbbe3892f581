//! The argument model: three redirection slots, the option set, and the
//! trailing command line, built from the raw argument vector through the
//! `ng_clp` classifier.

use vstd::prelude::*;

use crate::clp::{
    ng_invalid, ng_argument, ng_name, ng_value, ng_next_index, short_opt_safe,
    lemma_ng_next_index_bounds,
};
use crate::errors::{OOError, cli_error};
use crate::strutil::{is_double_dash, first_pos, lemma_first_pos, double_dash_token, str_eq, find_char};

verus! {

/// The mathematical model of an argument set: every string as its
/// character sequence.
#[verifier::ext_equal]
pub struct ArgsM {
    pub fds: Seq<Seq<char>>,
    pub command_line: Seq<Seq<char>>,
    pub force_overwrite: bool,
    pub envs: Seq<(Seq<char>, Seq<char>)>,
    pub working_directory: Option<Seq<char>>,
    pub keep_going: bool,
    pub debug_info: bool,
    pub pipe_str: Option<Seq<char>>,
    pub separator_str: Option<Seq<char>>,
    pub tempdir_placeholder: Option<Seq<char>>,
}

/// The argument set of one invocation: the redirection slots in `fds`, the
/// command line to run, and the recognized options.
#[derive(Debug, PartialEq)]
pub struct Args<'s> {
    pub fds: Vec<&'s str>,
    pub command_line: Vec<&'s str>,
    pub force_overwrite: bool,
    pub envs: Vec<(&'s str, &'s str)>,
    pub working_directory: Option<&'s str>,
    pub keep_going: bool,
    pub debug_info: bool,
    pub pipe_str: Option<&'s str>,
    pub separator_str: Option<&'s str>,
    pub tempdir_placeholder: Option<&'s str>,
}

impl<'s> View for Args<'s> {
    type V = ArgsM;

    open spec fn view(&self) -> ArgsM {
        ArgsM {
            fds: self.fds.deep_view(),
            command_line: self.command_line.deep_view(),
            force_overwrite: self.force_overwrite,
            envs: Seq::new(self.envs@.len(), |i: int| (self.envs@[i].0@, self.envs@[i].1@)),
            working_directory: match self.working_directory {
                Some(s) => Some(s@),
                None => None,
            },
            keep_going: self.keep_going,
            debug_info: self.debug_info,
            pipe_str: match self.pipe_str {
                Some(s) => Some(s@),
                None => None,
            },
            separator_str: match self.separator_str {
                Some(s) => Some(s@),
                None => None,
            },
            tempdir_placeholder: match self.tempdir_placeholder {
                Some(s) => Some(s@),
                None => None,
            },
        }
    }
}

/// The empty argument set every parse starts from.
pub open spec fn init_model() -> ArgsM {
    ArgsM {
        fds: Seq::empty(),
        command_line: Seq::empty(),
        force_overwrite: false,
        envs: Seq::empty(),
        working_directory: None,
        keep_going: false,
        debug_info: false,
        pipe_str: None,
        separator_str: None,
        tempdir_placeholder: None,
    }
}

/// A three-character shorthand supplying all three slots at once, each
/// character one of `-`, `.`, `=`.
pub open spec fn shorthand_chars(s: Seq<char>) -> bool {
    s.len() == 3 && forall|i: int| 0 <= i < 3 ==> (s[i] == '-' || s[i] == '.' || s[i] == '=')
}

/// The three slots a shorthand expands to.
pub open spec fn shorthand_fds(s: Seq<char>) -> Seq<Seq<char>> {
    Seq::new(3, |i: int| seq![s[i]])
}

/// `fds` padded with passthrough slots up to three entries.
pub open spec fn padded_fds(fds: Seq<Seq<char>>) -> Seq<Seq<char>> {
    fds + Seq::new((3 - fds.len()) as nat, |i: int| seq!['-'])
}

/// How an argument parse can end.
pub enum ParseOutcome {
    Parsed(ArgsM),
    Help,
    Version,
    Rejected,
}

/// Takes the tokens from `i` on (skipping one leading `--`) as the command
/// line; an empty command line is a configuration error.
pub open spec fn finish_model(args: Seq<Seq<char>>, i: int, acc: ArgsM) -> ParseOutcome {
    let cmd = if i < args.len() {
        if is_double_dash(args[i]) {
            args.subrange(i + 1, args.len() as int)
        } else {
            args.subrange(i, args.len() as int)
        }
    } else {
        Seq::empty()
    };
    if cmd.len() == 0 {
        ParseOutcome::Rejected
    } else {
        ParseOutcome::Parsed(ArgsM { command_line: cmd, ..acc })
    }
}

/// What one recognized token does: ends the parse, or updates the model and
/// consumes a number of tokens.
#[verifier::ext_equal]
pub enum StepKind {
    Terminal(ParseOutcome),
    Next(ArgsM, int),
}

/// The effect of the classified token at `i` on the model, following the
/// option registry: help and version end the parse, flags and value options
/// update their field, `--` pads the slots, a plain value fills the next
/// slot, and anything else is an unknown option.
pub open spec fn option_effect(args: Seq<Seq<char>>, i: int, acc: ArgsM) -> StepKind {
    let name = ng_name(args, i);
    let value = ng_value(args, i);
    if name == "-h"@ || name == "--help"@ {
        StepKind::Terminal(ParseOutcome::Help)
    } else if name == "-V"@ || name == "--version"@ {
        StepKind::Terminal(ParseOutcome::Version)
    } else if name == "-F"@ || name == "--force-overwrite"@ {
        StepKind::Next(ArgsM { force_overwrite: true, ..acc }, 1)
    } else if name == "-k"@ || name == "--keep-going"@ {
        StepKind::Next(ArgsM { keep_going: true, ..acc }, 1)
    } else if name == "--debug-info"@ {
        StepKind::Next(ArgsM { debug_info: true, ..acc }, 1)
    } else if name == "-e"@ {
        match value {
            Some(v) => match first_pos(v, '=') {
                Some(p) => StepKind::Next(
                    ArgsM {
                        envs: acc.envs.push((v.subrange(0, p), v.subrange(p + 1, v.len() as int))),
                        ..acc
                    },
                    2,
                ),
                None => StepKind::Terminal(ParseOutcome::Rejected),
            },
            None => StepKind::Terminal(ParseOutcome::Rejected),
        }
    } else if name == "-d"@ || name == "--working-directory"@ {
        match value {
            Some(v) => StepKind::Next(ArgsM { working_directory: Some(v), ..acc }, 2),
            None => StepKind::Terminal(ParseOutcome::Rejected),
        }
    } else if name == "-p"@ || name == "--pipe"@ {
        match value {
            Some(v) => StepKind::Next(ArgsM { pipe_str: Some(v), ..acc }, 2),
            None => StepKind::Terminal(ParseOutcome::Rejected),
        }
    } else if name == "-s"@ || name == "--separator"@ {
        match value {
            Some(v) => StepKind::Next(ArgsM { separator_str: Some(v), ..acc }, 2),
            None => StepKind::Terminal(ParseOutcome::Rejected),
        }
    } else if name == "-t"@ || name == "--tempdir-placeholder"@ {
        match value {
            Some(v) => StepKind::Next(ArgsM { tempdir_placeholder: Some(v), ..acc }, 2),
            None => StepKind::Terminal(ParseOutcome::Rejected),
        }
    } else if name == "--"@ {
        StepKind::Terminal(finish_model(args, i, ArgsM { fds: padded_fds(acc.fds), ..acc }))
    } else if ng_argument(name) {
        StepKind::Next(ArgsM { fds: acc.fds.push(name), ..acc }, 1)
    } else {
        StepKind::Next(acc, 0)
    }
}

/// One round of the slot-filling state machine at token `i`: the shorthand
/// check, classification, the token's effect, and advancing; the parse ends
/// when the slots are full or the tokens run out.
pub open spec fn parse_step(args: Seq<Seq<char>>, i: int, acc: ArgsM) -> ParseOutcome
    decreases args.len() - i,
{
    if !(0 <= i < args.len() && acc.fds.len() < 3) {
        ParseOutcome::Rejected
    } else {
        let a = args[i];
        if acc.fds.len() == 0 && shorthand_chars(a) {
            finish_model(args, i + 1, ArgsM { fds: shorthand_fds(a), ..acc })
        } else if !short_opt_safe(a) {
            ParseOutcome::Rejected
        } else if ng_invalid(a) {
            ParseOutcome::Rejected
        } else {
            match option_effect(args, i, acc) {
                StepKind::Terminal(o) => o,
                StepKind::Next(acc2, eat) => match ng_next_index(args, i, eat) {
                    Some(ni) => if ni >= args.len() || acc2.fds.len() >= 3 {
                        finish_model(args, ni, acc2)
                    } else {
                        parse_step(args, ni, acc2)
                    },
                    None => ParseOutcome::Rejected,
                },
            }
        }
    }
}

/// The contract tying an executable parse result to a parse outcome.
pub open spec fn outcome_matches<'s>(o: ParseOutcome, r: Result<Args<'s>, OOError>) -> bool {
    match o {
        ParseOutcome::Parsed(m) => r matches Ok(a) && a@ == m,
        ParseOutcome::Help => r matches Err(e) && e is HelpRequested,
        ParseOutcome::Version => r matches Err(e) && e is VersionRequested,
        ParseOutcome::Rejected => r matches Err(e) && e is CLIError,
    }
}

/// Expands a three-character shorthand (each character one of `-`, `.`,
/// `=`) into the three slot tokens.
#[verifier::loop_isolation(false)]
pub fn unpack_shorthand_args(a: &str) -> (r: Option<Vec<&'static str>>)
    ensures
        r is Some <==> shorthand_chars(a@),
        r matches Some(v) ==> v.deep_view() == shorthand_fds(a@),
{
    proof {
        reveal_strlit("-");
        reveal_strlit(".");
        reveal_strlit("=");
    }
    if a.unicode_len() != 3 {
        return None;
    }
    let mut v: Vec<&'static str> = Vec::new();
    let mut k: usize = 0;
    while k < 3
        invariant
            k <= 3,
            v@.len() == k,
            forall|i: int| 0 <= i < k ==> v@[i]@ =~= seq![a@[i]],
            forall|i: int| 0 <= i < k ==> (a@[i] == '-' || a@[i] == '.' || a@[i] == '='),
        decreases 3 - k,
    {
        let c = a.get_char(k);
        if c == '-' {
            v.push("-");
            proof {
                reveal_strlit("-");
                assert(v@[k as int]@ =~= seq![c]);
            }
        } else if c == '.' {
            v.push(".");
            proof {
                reveal_strlit(".");
                assert(v@[k as int]@ =~= seq![c]);
            }
        } else if c == '=' {
            v.push("=");
            proof {
                reveal_strlit("=");
                assert(v@[k as int]@ =~= seq![c]);
            }
        } else {
            return None;
        }
        k += 1;
    }
    proof {
        assert forall|i: int| 0 <= i < 3 implies v.deep_view()[i] == shorthand_fds(a@)[i] by {
            assert(v.deep_view()[i] == v@[i]@);
            assert(v@[i]@ =~= seq![a@[i]]);
        }
        assert(v.deep_view() =~= shorthand_fds(a@));
    }
    Some(v)
}

/// Whether a token is safe to hand to the `ng_clp` classifier (see
/// `short_opt_safe`).
fn token_safe(a: &str) -> (r: bool)
    ensures
        r == short_opt_safe(a@),
{
    if a.unicode_len() >= 2 && a.get_char(0) == '-' && a.get_char(1) != '-' {
        (a.get_char(1) as u32) < 128
    } else {
        true
    }
}

impl<'s> Args<'s> {
    /// Builds the argument model from the raw argument vector (whose first
    /// entry is the program name). The outcome is exactly
    /// `parse_step(argv, 1, init_model())`: the slots fill until three
    /// tokens (or a shorthand, or `--`) supplied them, the recognized
    /// options update their fields, and the remaining tokens must form a
    /// non-empty command line.
    pub fn parse(argv: &[&'s str]) -> (r: Result<Args<'s>, OOError>)
        requires
            argv@.len() >= 2,
        ensures
            outcome_matches(parse_step(argv.deep_view(), 1, init_model()), r),
    {
        let args = Args {
            fds: Vec::new(),
            command_line: Vec::new(),
            force_overwrite: false,
            envs: Vec::new(),
            working_directory: None,
            keep_going: false,
            debug_info: false,
            pipe_str: None,
            separator_str: None,
            tempdir_placeholder: None,
        };
        proof {
            assert(args@ =~= init_model());
        }
        parse_go(argv, 1, args)
    }
}

/// The slot-filling loop from token `i` on, carrying the model built so
/// far.
#[verifier::loop_isolation(false)]
fn parse_go<'s>(argv: &[&'s str], i: usize, acc: Args<'s>) -> (r: Result<Args<'s>, OOError>)
    requires
        1 <= i < argv@.len(),
        acc@.fds.len() < 3,
    ensures
        outcome_matches(parse_step(argv.deep_view(), i as int, acc@), r),
    decreases argv@.len() - i,
{
    let mut acc = acc;
    let ghost acc0 = acc@;
    let ghost args = argv.deep_view();
    let n = argv.len();
    let a: &'s str = argv[i];
    proof {
        assert(args[i as int] == a@);
    }
    if acc.fds.len() == 0 {
        if let Some(sh) = unpack_shorthand_args(a) {
            acc.fds = sh;
            proof {
                assert(acc@ =~= (ArgsM { fds: shorthand_fds(a@), ..acc0 }));
                assert(parse_step(args, i as int, acc0) == finish_model(args, i + 1, acc@));
            }
            return parse_finish(argv, i + 1, acc);
        }
    }
    if !token_safe(a) {
        return Err(cli_error("malformed option token"));
    }
    let pr = match ng_clp::parse(argv, i) {
        Ok(p) => p,
        Err(e) => { return Err(OOError::CLIError { message: e.to_string() }) },
    };
    let name: &'s str = pr.0;
    let eat: usize;
    if str_eq(name, "-h") || str_eq(name, "--help") {
        return Err(OOError::HelpRequested);
    } else if str_eq(name, "-V") || str_eq(name, "--version") {
        return Err(OOError::VersionRequested);
    } else if str_eq(name, "-F") || str_eq(name, "--force-overwrite") {
        acc.force_overwrite = true;
        eat = 1;
    } else if str_eq(name, "-k") || str_eq(name, "--keep-going") {
        acc.keep_going = true;
        eat = 1;
    } else if str_eq(name, "--debug-info") {
        acc.debug_info = true;
        eat = 1;
    } else if str_eq(name, "-e") {
        let value = match ng_clp::unwrap_argument(pr) {
            Ok(v) => v,
            Err(e) => { return Err(OOError::CLIError { message: e.to_string() }) },
        };
        proof {
            lemma_first_pos(value@, '=');
        }
        let p = match find_char(value, '=') {
            Some(p) => p,
            None => {
                let mut m = "option -e's argument should be `VAR=VALUE`: ".to_owned();
                m.append(name);
                return Err(OOError::CLIError { message: m });
            },
        };
        let n = value.unicode_len();
        acc.envs.push((value.substring_char(0, p), value.substring_char(p + 1, n)));
        eat = 2;
    } else if str_eq(name, "-d") || str_eq(name, "--working-directory") {
        match ng_clp::unwrap_argument(pr) {
            Ok(v) => { acc.working_directory = Some(v) },
            Err(e) => { return Err(OOError::CLIError { message: e.to_string() }) },
        }
        eat = 2;
    } else if str_eq(name, "-p") || str_eq(name, "--pipe") {
        match ng_clp::unwrap_argument(pr) {
            Ok(v) => { acc.pipe_str = Some(v) },
            Err(e) => { return Err(OOError::CLIError { message: e.to_string() }) },
        }
        eat = 2;
    } else if str_eq(name, "-s") || str_eq(name, "--separator") {
        match ng_clp::unwrap_argument(pr) {
            Ok(v) => { acc.separator_str = Some(v) },
            Err(e) => { return Err(OOError::CLIError { message: e.to_string() }) },
        }
        eat = 2;
    } else if str_eq(name, "-t") || str_eq(name, "--tempdir-placeholder") {
        match ng_clp::unwrap_argument(pr) {
            Ok(v) => { acc.tempdir_placeholder = Some(v) },
            Err(e) => { return Err(OOError::CLIError { message: e.to_string() }) },
        }
        eat = 2;
    } else if str_eq(name, "--") {
        proof {
            reveal_strlit("-");
        }
        let ghost pre = acc@;
        while acc.fds.len() < 3
            invariant
                pre.fds.len() <= acc@.fds.len() <= 3,
                acc@ =~= (ArgsM { fds: acc@.fds, ..pre }),
                acc.fds@.len() == acc@.fds.len(),
                forall|k: int| 0 <= k < pre.fds.len() ==> acc.fds@[k]@ == pre.fds[k],
                forall|k: int| pre.fds.len() <= k < acc.fds@.len() ==> acc.fds@[k]@ =~= seq!['-'],
            decreases 3 - acc@.fds.len(),
        {
            acc.fds.push("-");
            proof {
                reveal_strlit("-");
                assert(acc.fds@[acc.fds@.len() - 1]@ =~= seq!['-']);
            }
        }
        proof {
            assert forall|k: int| 0 <= k < 3 implies acc@.fds[k] == padded_fds(pre.fds)[k] by {
                assert(acc@.fds[k] == acc.fds@[k]@);
            }
            assert(acc@.fds =~= padded_fds(pre.fds));
        }
        return parse_finish(argv, i, acc);
    } else if ng_clp::is_argument(name) {
        acc.fds.push(name);
        eat = 1;
    } else {
        eat = 0;
    }
    proof {
        assert(option_effect(args, i as int, acc0) =~~= StepKind::Next(acc@, eat as int));
    }
    let ni = match ng_clp::next_index(argv, i, eat) {
        Ok(ni) => ni,
        Err(e) => { return Err(OOError::CLIError { message: e.to_string() }) },
    };
    proof {
        lemma_ng_next_index_bounds(args, i as int, eat as int);
    }
    if ni >= n || acc.fds.len() >= 3 {
        parse_finish(argv, ni, acc)
    } else {
        parse_go(argv, ni, acc)
    }
}

/// Takes the remaining tokens (skipping one leading `--`) as the command
/// line.
#[verifier::loop_isolation(false)]
fn parse_finish<'s>(argv: &[&'s str], i: usize, acc: Args<'s>) -> (r: Result<Args<'s>, OOError>)
    requires
        i <= argv@.len(),
    ensures
        outcome_matches(finish_model(argv.deep_view(), i as int, acc@), r),
{
    let mut acc = acc;
    let ghost args = argv.deep_view();
    let n = argv.len();
    let mut i = i;
    if i < n && double_dash_token(argv[i]) {
        i += 1;
    }
    let mut cmd: Vec<&'s str> = Vec::new();
    let ghost from = i as int;
    while i < n
        invariant
            from <= i as int <= args.len(),
            cmd.deep_view() =~= args.subrange(from, i as int),
        decreases argv@.len() - i,
    {
        cmd.push(argv[i]);
        proof {
            assert(cmd.deep_view() =~= args.subrange(from, i + 1));
        }
        i += 1;
    }
    if cmd.len() == 0 {
        return Err(cli_error("no command line specified"));
    }
    acc.command_line = cmd;
    Ok(acc)
}

} // verus!
