//! A token classifier that borrows from the argument vector. For the token
//! at a position it reports the token's kind, how many tokens a flag reading
//! consumes, and how many tokens a value reading consumes together with the
//! value itself; a token that admits both readings reports both at once.

use vstd::prelude::*;

use crate::strutil::{
    dash_token, double_dash_token, begins_with, begins_double_dash, find_char, first_pos,
    lemma_first_pos, is_dash, is_double_dash, starts_dash, starts_double_dash,
};

verus! {

#[derive(Debug, PartialEq)]
pub enum Arg<'a> {
    Value,
    Option(&'a str),
    Separator(&'a str),
}

/// The classification contract: `r.0` is the token's kind, `r.1` the token
/// count of a flag reading, `r.2` the token count and value of a value
/// reading.
pub open spec fn arg_parse_result<'a>(
    args: Seq<Seq<char>>,
    index: int,
    r: (Arg<'a>, Option<usize>, Option<(usize, &'a str)>),
) -> bool {
    let a = args[index];
    if is_dash(a) {
        &&& r.0 is Value
        &&& r.1 is None
        &&& r.2 matches Some((e, v)) && e == 1 && v@ == a
    } else if is_double_dash(a) {
        &&& r.0 matches Arg::Separator(s) && s@ == a
        &&& r.1 matches Some(e) && e == 1
        &&& r.2 is None
    } else if starts_double_dash(a) {
        match first_pos(a, '=') {
            Some(i) => {
                &&& r.0 matches Arg::Option(n) && n@ == a.subrange(0, i)
                &&& r.1 is None
                &&& r.2 matches Some((e, v)) && e == 1 && v@ == a.subrange(i + 1, a.len() as int)
            },
            None => ambiguous_option(args, index, a, r),
        }
    } else if starts_dash(a) {
        if a.len() > 2 {
            &&& r.0 matches Arg::Option(n) && n@ == a.subrange(0, 2)
            &&& r.1 is None
            &&& r.2 matches Some((e, v)) && e == 1 && v@ == a.subrange(2, a.len() as int)
        } else {
            ambiguous_option(args, index, a, r)
        }
    } else {
        &&& r.0 is Value
        &&& r.1 is None
        &&& r.2 matches Some((e, v)) && e == 1 && v@ == a
    }
}

/// The reading of an option name with no inline value: always valid as a
/// one-token flag, and also as a two-token option when the next token looks
/// like a value.
pub open spec fn ambiguous_option<'a>(
    args: Seq<Seq<char>>,
    index: int,
    name: Seq<char>,
    r: (Arg<'a>, Option<usize>, Option<(usize, &'a str)>),
) -> bool {
    &&& r.0 matches Arg::Option(n) && n@ == name
    &&& r.1 matches Some(e) && e == 1
    &&& if index + 1 < args.len() && (is_dash(args[index + 1]) || !starts_dash(args[index + 1])) {
        r.2 matches Some((e, v)) && e == 2 && v@ == args[index + 1]
    } else {
        r.2 is None
    }
}

/// Classifies the token at `index`.
pub fn arg_parse<'a>(arguments: &'a [&'a str], index: usize) -> (r: (
    Arg<'a>,
    Option<usize>,
    Option<(usize, &'a str)>,
))
    requires
        index < arguments@.len(),
    ensures
        arg_parse_result(arguments.deep_view(), index as int, r),
{
    let a: &'a str = arguments[index];
    proof {
        assert(arguments.deep_view()[index as int] == a@);
        lemma_first_pos(a@, '=');
    }
    if dash_token(a) {
        (Arg::Value, None, Some((1, a)))
    } else if double_dash_token(a) {
        (Arg::Separator(a), Some(1), None)
    } else if begins_double_dash(a) {
        match find_char(a, '=') {
            Some(i) => {
                let n = a.unicode_len();
                (Arg::Option(a.substring_char(0, i)), None, Some((1, a.substring_char(i + 1, n))))
            },
            None => parse_ambiguous(arguments, index, a),
        }
    } else if begins_with(a, '-') {
        if a.unicode_len() > 2 {
            let n = a.unicode_len();
            (Arg::Option(a.substring_char(0, 2)), None, Some((1, a.substring_char(2, n))))
        } else {
            parse_ambiguous(arguments, index, a)
        }
    } else {
        (Arg::Value, None, Some((1, a)))
    }
}

/// Classifies an option name with no inline value against the next token.
fn parse_ambiguous<'a>(arguments: &'a [&'a str], index: usize, a: &'a str) -> (r: (
    Arg<'a>,
    Option<usize>,
    Option<(usize, &'a str)>,
))
    requires
        index < arguments@.len(),
    ensures
        ambiguous_option(arguments.deep_view(), index as int, a@, r),
{
    let n = arguments.len();
    if index < n - 1 {
        let b: &'a str = arguments[index + 1];
        if dash_token(b) || !begins_with(b, '-') {
            (Arg::Option(a), Some(1), Some((2, b)))
        } else {
            (Arg::Option(a), Some(1), None)
        }
    } else {
        (Arg::Option(a), Some(1), None)
    }
}

} // verus!
