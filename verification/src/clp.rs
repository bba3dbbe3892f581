//! Trusted interface to the `ng_clp` argument-classifier crate. Each
//! `assume_specification` states, over character sequences, exactly what the
//! named `ng_clp` function computes; the argument-model builder is verified
//! against these contracts.

use vstd::prelude::*;

use crate::strutil::{is_dash, is_double_dash, starts_dash, starts_double_dash, first_pos};

verus! {

#[verifier::external_type_specification]
#[verifier::external_body]
pub struct ExParseError(ng_clp::ParseError);

/// A token `ng_clp` rejects outright: one starting with `---` or `--=`.
pub open spec fn ng_invalid(s: Seq<char>) -> bool {
    s.len() >= 3 && s[0] == '-' && s[1] == '-' && (s[2] == '-' || s[2] == '=')
}

/// A token `ng_clp` takes for a plain value: `-` itself, or anything not
/// starting with `-`.
pub open spec fn ng_argument(s: Seq<char>) -> bool {
    !ng_invalid(s) && (is_dash(s) || !starts_dash(s))
}

/// `ng_clp` byte-slices a short-option token after its second character;
/// that is sound only when the second character is a single byte. Tokens
/// where it is not make `ng_clp` panic, so they are kept out by `requires`.
pub open spec fn short_opt_safe(s: Seq<char>) -> bool {
    (s.len() >= 2 && s[0] == '-' && s[1] != '-') ==> (s[1] as u32) < 128
}

/// The option name (or the token itself) that `ng_clp::parse` reports for
/// the token at `index`.
pub open spec fn ng_name(args: Seq<Seq<char>>, index: int) -> Seq<char> {
    let a = args[index];
    if ng_argument(a) || is_double_dash(a) {
        a
    } else if starts_double_dash(a) {
        match first_pos(a, '=') {
            Some(i) => a.subrange(0, i),
            None => a,
        }
    } else if a.len() > 2 {
        a.subrange(0, 2)
    } else {
        a
    }
}

/// The candidate option value that `ng_clp::parse` reports for the token at
/// `index`: an inline value, or the following token where that one looks
/// like a value.
pub open spec fn ng_value(args: Seq<Seq<char>>, index: int) -> Option<Seq<char>> {
    let a = args[index];
    if ng_argument(a) || is_double_dash(a) {
        None
    } else if starts_double_dash(a) {
        match first_pos(a, '=') {
            Some(i) => Some(a.subrange(i + 1, a.len() as int)),
            None => if index + 1 < args.len() && ng_argument(args[index + 1]) {
                Some(args[index + 1])
            } else {
                None
            },
        }
    } else if a.len() > 2 {
        Some(a.subrange(2, a.len() as int))
    } else if index + 1 < args.len() && ng_argument(args[index + 1]) {
        Some(args[index + 1])
    } else {
        None
    }
}

/// What `ng_clp::parse` returns on success for the token at `index`.
pub open spec fn ng_parse_ok<'s>(args: Seq<Seq<char>>, index: int, p: (
    &'s str,
    Option<&'s str>,
)) -> bool {
    &&& p.0@ == ng_name(args, index)
    &&& match ng_value(args, index) {
        Some(v) => p.1 matches Some(w) && w@ == v,
        None => p.1 is None,
    }
}

/// The index `ng_clp::next_index` advances to after the token at `index`
/// was consumed `eat` ways, or `None` where it reports an error.
pub open spec fn ng_next_index(args: Seq<Seq<char>>, index: int, eat: int) -> Option<int> {
    if index >= args.len() {
        None
    } else {
        let a = args[index];
        if ng_invalid(a) {
            None
        } else if eat == 0 {
            None
        } else if !(eat == 1 || eat == 2) {
            None
        } else if ng_argument(a) {
            if eat == 2 {
                None
            } else {
                Some(index + 1)
            }
        } else if is_double_dash(a) {
            if eat == 2 {
                None
            } else {
                Some(index + 1)
            }
        } else if starts_double_dash(a) {
            match first_pos(a, '=') {
                Some(_) => if eat == 1 {
                    None
                } else {
                    Some(index + 1)
                },
                None => if eat == 2 {
                    if index + 1 < args.len() && ng_argument(args[index + 1]) {
                        Some(index + 2)
                    } else {
                        None
                    }
                } else {
                    Some(index + 1)
                },
            }
        } else if a.len() > 2 {
            if eat == 1 {
                None
            } else {
                Some(index + 1)
            }
        } else {
            if index + 1 < args.len() && ng_argument(args[index + 1]) {
                Some(index + eat)
            } else if eat == 2 {
                None
            } else {
                Some(index + 1)
            }
        }
    }
}

/// A successful `next_index` lands strictly beyond `index` and within the
/// argument vector.
pub proof fn lemma_ng_next_index_bounds(args: Seq<Seq<char>>, index: int, eat: int)
    ensures
        ng_next_index(args, index, eat) matches Some(ni) ==> index < ni <= args.len(),
{
}

/// Relies on `ng_clp::is_argument`: true of `-` and of tokens not starting
/// with `-`, false of invalid tokens, flags, options and the separator.
pub assume_specification [ ng_clp::is_argument ](a: &str) -> (r: bool)
    ensures
        r == ng_argument(a@),
;

/// Relies on `ng_clp::parse`: classifies the token at `index` into a name
/// and a candidate value, failing on an out-of-range index or an invalid
/// token.
pub assume_specification<'s, 'a> [ ng_clp::parse ](argv: &'a [&'s str], index: usize) -> (r:
    Result<(&'s str, Option<&'s str>), ng_clp::ParseError>)
    requires
        index < argv@.len() ==> short_opt_safe(argv.deep_view()[index as int]),
    ensures
        r is Ok <==> (index < argv@.len() && !ng_invalid(argv.deep_view()[index as int])),
        r matches Ok(p) ==> ng_parse_ok(argv.deep_view(), index as int, p),
;

/// Relies on `ng_clp::next_index`: advances past the token at `index` after
/// it was consumed `eat` ways, reporting an error for an unknown option
/// (`eat == 0`), a value handed to a flag, or a missing option value.
pub assume_specification [ ng_clp::next_index ](argv: &[&str], index: usize, eat: usize) -> (r:
    Result<usize, ng_clp::ParseError>)
    requires
        index < argv@.len() ==> short_opt_safe(argv.deep_view()[index as int]),
    ensures
        r is Ok <==> ng_next_index(argv.deep_view(), index as int, eat as int) is Some,
        r matches Ok(ni) ==> ng_next_index(argv.deep_view(), index as int, eat as int) == Some(
            ni as int,
        ),
;

/// Relies on `ng_clp::unwrap_argument`: yields the value of a parse result,
/// failing where the result carries none.
pub assume_specification<'s> [ ng_clp::unwrap_argument ](parse_result: (
    &'s str,
    Option<&'s str>,
)) -> (r: Result<&'s str, ng_clp::ParseError>)
    ensures
        r is Ok <==> parse_result.1 is Some,
        r matches Ok(v) ==> (parse_result.1 matches Some(w) && v@ == w@),
;

} // verus!
