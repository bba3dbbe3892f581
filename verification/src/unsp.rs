//! A token classifier over owned strings. Given an argument vector and a
//! position it reports every reading of the token there: a plain value, a
//! flag, an option carrying a value (inline or in the following token), or
//! the explicit `--` separator, each with the number of tokens it consumes.
//! When a token is ambiguous (an option name that may or may not take the
//! next token as its value), all candidate readings are returned and the
//! caller picks one by matching the name against its option registry.

use vstd::prelude::*;

use crate::strutil::{
    dash_token, double_dash_token, begins_with, begins_double_dash, find_char, first_pos,
    lemma_first_pos, is_dash, is_double_dash, starts_dash, starts_double_dash,
};

verus! {

#[derive(Debug, PartialEq)]
pub enum Arg {
    Value(String),
    ValueOption(String, String),
    FlagOption(String),
    Separator(String),
}

impl Arg {
    pub fn value(v: &str) -> (r: Self)
        ensures
            r matches Arg::Value(s) && s@ == v@,
    {
        Arg::Value(v.to_owned())
    }

    pub fn value_option(n: &str, v: &str) -> (r: Self)
        ensures
            r matches Arg::ValueOption(rn, rv) && rn@ == n@ && rv@ == v@,
    {
        Arg::ValueOption(n.to_owned(), v.to_owned())
    }

    pub fn flag_option(n: &str) -> (r: Self)
        ensures
            r matches Arg::FlagOption(rn) && rn@ == n@,
    {
        Arg::FlagOption(n.to_owned())
    }

    pub fn separator(s: &str) -> (r: Self)
        ensures
            r matches Arg::Separator(rs) && rs@ == s@,
    {
        Arg::Separator(s.to_owned())
    }
}

/// `e` is the reading "plain value `s`, consuming `eat` tokens".
pub open spec fn reads_value(e: (Arg, usize), s: Seq<char>, eat: int) -> bool {
    e.0 matches Arg::Value(v) && v@ == s && e.1 == eat
}

/// `e` is the reading "option `n` with value `v`, consuming `eat` tokens".
pub open spec fn reads_value_option(e: (Arg, usize), n: Seq<char>, v: Seq<char>, eat: int) -> bool {
    e.0 matches Arg::ValueOption(rn, rv) && rn@ == n && rv@ == v && e.1 == eat
}

/// `e` is the reading "flag `n`, consuming `eat` tokens".
pub open spec fn reads_flag(e: (Arg, usize), n: Seq<char>, eat: int) -> bool {
    e.0 matches Arg::FlagOption(rn) && rn@ == n && e.1 == eat
}

/// `e` is the reading "separator `s`, consuming `eat` tokens".
pub open spec fn reads_separator(e: (Arg, usize), s: Seq<char>, eat: int) -> bool {
    e.0 matches Arg::Separator(rs) && rs@ == s && e.1 == eat
}

/// The readings offered for a token that is an option name with no inline
/// value: with a following token that looks like a value, both the
/// two-token option reading and the flag reading; otherwise only the flag
/// reading.
pub open spec fn ambiguous_readings(args: Seq<Seq<char>>, index: int, name: Seq<char>, r: Seq<
    (Arg, usize),
>) -> bool {
    if index + 1 < args.len() && (is_dash(args[index + 1]) || !starts_dash(args[index + 1])) {
        r.len() == 2 && reads_value_option(r[0], name, args[index + 1], 2) && reads_flag(
            r[1],
            name,
            1,
        )
    } else {
        r.len() == 1 && reads_flag(r[0], name, 1)
    }
}

/// The full classification contract for the token at `index`.
pub open spec fn classification(args: Seq<Seq<char>>, index: int, r: Seq<(Arg, usize)>) -> bool {
    let a = args[index];
    if is_dash(a) {
        r.len() == 1 && reads_value(r[0], a, 1)
    } else if is_double_dash(a) {
        r.len() == 1 && reads_separator(r[0], a, 1)
    } else if starts_double_dash(a) {
        match first_pos(a, '=') {
            Some(i) => r.len() == 1 && reads_value_option(
                r[0],
                a.subrange(0, i),
                a.subrange(i + 1, a.len() as int),
                1,
            ),
            None => ambiguous_readings(args, index, a, r),
        }
    } else if starts_dash(a) {
        if a.len() > 2 {
            r.len() == 1 && reads_value_option(
                r[0],
                a.subrange(0, 2),
                a.subrange(2, a.len() as int),
                1,
            )
        } else {
            ambiguous_readings(args, index, a, r)
        }
    } else {
        r.len() == 1 && reads_value(r[0], a, 1)
    }
}

/// Classifies the token at `index`, returning every candidate reading.
pub fn parse(arguments: &[&str], index: usize) -> (r: Vec<(Arg, usize)>)
    requires
        index < arguments@.len(),
    ensures
        classification(arguments.deep_view(), index as int, r@),
{
    let a: &str = arguments[index];
    proof {
        assert(arguments.deep_view()[index as int] == a@);
        lemma_first_pos(a@, '=');
    }
    let mut r: Vec<(Arg, usize)> = Vec::new();
    if dash_token(a) {
        r.push((Arg::value(a), 1));
    } else if double_dash_token(a) {
        r.push((Arg::separator(a), 1));
    } else if begins_double_dash(a) {
        match find_char(a, '=') {
            Some(i) => {
                let n = a.unicode_len();
                let name = a.substring_char(0, i);
                let value = a.substring_char(i + 1, n);
                r.push((Arg::value_option(name, value), 1));
            },
            None => {
                push_ambiguous(arguments, index, a, &mut r);
            },
        }
    } else if begins_with(a, '-') {
        if a.unicode_len() > 2 {
            let name = a.substring_char(0, 2);
            let value = a.substring_char(2, a.unicode_len());
            r.push((Arg::value_option(name, value), 1));
        } else {
            push_ambiguous(arguments, index, a, &mut r);
        }
    } else {
        r.push((Arg::value(a), 1));
    }
    r
}

/// Pushes the candidate readings for an option name with no inline value.
fn push_ambiguous(arguments: &[&str], index: usize, a: &str, r: &mut Vec<(Arg, usize)>)
    requires
        index < arguments@.len(),
        old(r)@.len() == 0,
    ensures
        ambiguous_readings(arguments.deep_view(), index as int, a@, final(r)@),
{
    let n = arguments.len();
    if index < n - 1 {
        let b: &str = arguments[index + 1];
        if dash_token(b) || !begins_with(b, '-') {
            r.push((Arg::value_option(a, b), 2));
            r.push((Arg::flag_option(a), 1));
        } else {
            r.push((Arg::flag_option(a), 1));
        }
    } else {
        r.push((Arg::flag_option(a), 1));
    }
}

} // verus!
