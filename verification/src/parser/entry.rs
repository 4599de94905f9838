//! The entry points of the parser.  Each takes a whole text and accepts it
//! only if the production matches all of it.

use super::ast::{Decl, Expr, SpecExpr};
use super::decimal::same_number;
use super::grammar::{parse_decl, parse_expr};
use super::lexical::{
    identifier_end, is_identifier, is_numeral, lemma_identifier_is_whole_match,
    lemma_numeral_is_whole_match, numeral_end, scan_identifier,
};
use super::numeral::{lemma_numeral_value, numeral_at, read_numeral, written_scale, written_unscaled};
use super::parse::{read_decl, read_expr};
use super::text::{chars_of, string_of};
use vstd::prelude::*;

verus! {

/// The one failure of the parser: the text is not what the production
/// asks for.
#[derive(Debug, Clone, Copy, PartialEq, Eq, Structural)]
pub struct ParseError {
    /// How many characters of the text the production matched before it
    /// stopped; 0 where it matched nothing.
    pub position: usize,
}

/// What is accepted of a text of length `len`: what was found, if it ends
/// where the text ends.
pub open spec fn accepted<T>(found: Option<(T, int)>, len: nat) -> Option<T> {
    match found {
        Some((value, end)) => if end == len {
            Some(value)
        } else {
            None
        },
        None => None,
    }
}

/// Where a production stopped.
pub open spec fn stopped<T>(found: Option<(T, int)>) -> int {
    match found {
        Some((_, end)) => end,
        None => 0,
    }
}

/// Where the longest identifier at the start of `s` stops.
pub open spec fn identifier_stop(s: Seq<char>) -> int {
    match identifier_end(s, 0) {
        Some(end) => end,
        None => 0,
    }
}

/// Where the longest numeral at the start of `s` stops.
pub open spec fn numeral_stop(s: Seq<char>) -> int {
    match numeral_end(s, 0) {
        Some(end) => end,
        None => 0,
    }
}

/// Parses an identifier: a letter, then letters, digits and underscores.
pub fn id(input: &str) -> (r: Result<String, ParseError>)
    ensures
        r is Ok <==> is_identifier(input@),
        r matches Ok(name) ==> name@ == input@,
        r matches Err(error) ==> error.position == identifier_stop(input@),
{
    let chars = chars_of(input);
    proof {
        lemma_identifier_is_whole_match(input@);
    }
    match scan_identifier(chars.as_slice(), 0) {
        Some(end) => {
            if end == chars.len() {
                let name = string_of(chars.as_slice(), 0, end);
                assert(input@.subrange(0, end as int) =~= input@);
                Ok(name)
            } else {
                Err(ParseError { position: end })
            }
        },
        None => Err(ParseError { position: 0 }),
    }
}

/// Parses an identifier as an expression.
pub fn var(input: &str) -> (r: Result<Expr, ParseError>)
    ensures
        r is Ok <==> is_identifier(input@),
        r matches Ok(e) ==> e@ == SpecExpr::Id(input@),
        r matches Err(error) ==> error.position == identifier_stop(input@),
{
    match id(input) {
        Ok(name) => Ok(Expr::Id(name)),
        Err(error) => Err(error),
    }
}

/// Parses a numeral: an optional `-`, an integer part without needless
/// zeros, and an optional point with digits behind it.  The result is the
/// number that the text writes down, held exactly.
pub fn numeral(input: &str) -> (r: Result<Expr, ParseError>)
    ensures
        r is Ok <==> is_numeral(input@),
        r matches Ok(e) ==> e@ == SpecExpr::Numeral(numeral_at(input@, 0)),
        r matches Ok(e) ==> e@->Numeral_0.is_canonical() && same_number(
            e@->Numeral_0.unscaled(),
            e@->Numeral_0.scale(),
            written_unscaled(input@, 0),
            written_scale(input@, 0),
        ),
        r matches Err(error) ==> error.position == numeral_stop(input@),
{
    let chars = chars_of(input);
    proof {
        lemma_numeral_is_whole_match(input@);
    }
    match read_numeral(chars.as_slice(), 0) {
        Some((decimal, end)) => {
            if end == chars.len() {
                proof {
                    lemma_numeral_value(input@, 0);
                }
                Ok(Expr::Numeral(decimal))
            } else {
                Err(ParseError { position: end })
            }
        },
        None => Err(ParseError { position: 0 }),
    }
}

/// Parses an expression.
pub fn expr(input: &str) -> (r: Result<Expr, ParseError>)
    ensures
        r is Ok <==> accepted(parse_expr(input@, 0), input@.len()) is Some,
        r matches Ok(e) ==> Some(e@) == accepted(parse_expr(input@, 0), input@.len()),
        r matches Err(error) ==> error.position == stopped(parse_expr(input@, 0)),
{
    let chars = chars_of(input);
    match read_expr(chars.as_slice(), 0) {
        Some((e, end)) => {
            if end == chars.len() {
                Ok(e)
            } else {
                Err(ParseError { position: end })
            }
        },
        None => Err(ParseError { position: 0 }),
    }
}

/// Parses a declaration.
pub fn decl(input: &str) -> (r: Result<Decl, ParseError>)
    ensures
        r is Ok <==> accepted(parse_decl(input@, 0), input@.len()) is Some,
        r matches Ok(d) ==> Some(d@) == accepted(parse_decl(input@, 0), input@.len()),
        r matches Err(error) ==> error.position == stopped(parse_decl(input@, 0)),
{
    let chars = chars_of(input);
    match read_decl(chars.as_slice(), 0) {
        Some((d, end)) => {
            if end == chars.len() {
                Ok(d)
            } else {
                Err(ParseError { position: end })
            }
        },
        None => Err(ParseError { position: 0 }),
    }
}

} // verus!
