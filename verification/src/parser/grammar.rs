//! The grammar, as functions from a text and a place in it to what stands
//! there and where it ends.
//!
//! ```text
//! Atom = Numeral | Id "(" Args ")" | Id | "(" Expr ")"
//! Op2  = Atom "*" Op2 | Atom
//! Op1  = Op2 "+" Op1 | Op2 "-" Op1 | Op2
//! Expr = "let " Decl " in " Expr | Op1
//! Decl = "var " Id " = " Expr | "function " Id "(" Params ")" "{" Expr "}"
//! Params = Id, separated by ","     Args = Expr, separated by ","
//! ```
//!
//! Choice is ordered: the first alternative that matches is taken, and each
//! token is the longest that the lexical rules allow.  So every text has at
//! most one reading.  The operators associate to the right.
//!
//! Where a definition compares two places before it goes on (`pos < end`),
//! it does so to show that it ends: the comparison always holds, as
//! [`lemma_atom_advances`] and the lemmas after it show.

use super::ast::{SpecDecl, SpecExpr};
use super::lexical::{
    fraction_end, identifier_end, integer_end, lemma_digits_end, lemma_word_end, numeral_end,
};
use super::numeral::numeral_at;
use vstd::prelude::*;

verus! {

/// `"let "`
pub open spec fn word_let() -> Seq<char> {
    seq!['l', 'e', 't', ' ']
}

/// `" in "`
pub open spec fn word_in() -> Seq<char> {
    seq![' ', 'i', 'n', ' ']
}

/// `"var "`
pub open spec fn word_var() -> Seq<char> {
    seq!['v', 'a', 'r', ' ']
}

/// `" = "`
pub open spec fn word_is() -> Seq<char> {
    seq![' ', '=', ' ']
}

/// `"function "`
pub open spec fn word_function() -> Seq<char> {
    seq!['f', 'u', 'n', 'c', 't', 'i', 'o', 'n', ' ']
}

/// The character `c` stands at `pos`.
pub open spec fn has_char(s: Seq<char>, pos: int, c: char) -> bool {
    0 <= pos < s.len() && s[pos] == c
}

/// The characters of `word` stand at `pos`.
pub open spec fn has_word(s: Seq<char>, pos: int, word: Seq<char>) -> bool {
    &&& 0 <= pos
    &&& pos + word.len() <= s.len()
    &&& forall|i: int| 0 <= i < word.len() ==> s[pos + i] == #[trigger] word[i]
}

/// The atom at `pos` and where it ends.
pub open spec fn parse_atom(s: Seq<char>, pos: int) -> Option<(SpecExpr, int)>
    decreases s.len() - pos, 0nat,
{
    if numeral_end(s, pos) is Some {
        Some((SpecExpr::Numeral(numeral_at(s, pos)), numeral_end(s, pos)->0))
    } else if identifier_end(s, pos) is Some {
        let end = identifier_end(s, pos)->0;
        let name = s.subrange(pos, end);
        if pos < end && has_char(s, end, '(') {
            let args = parse_args(s, end + 1);
            if has_char(s, args.1, ')') {
                Some((SpecExpr::FunCall(name, args.0), args.1 + 1))
            } else {
                Some((SpecExpr::Id(name), end))
            }
        } else {
            Some((SpecExpr::Id(name), end))
        }
    } else if has_char(s, pos, '(') {
        match parse_expr(s, pos + 1) {
            Some((inner, end)) => if has_char(s, end, ')') {
                Some((inner, end + 1))
            } else {
                None
            },
            None => None,
        }
    } else {
        None
    }
}

/// The product at `pos` and where it ends.
pub open spec fn parse_op2(s: Seq<char>, pos: int) -> Option<(SpecExpr, int)>
    decreases s.len() - pos, 1nat,
{
    match parse_atom(s, pos) {
        Some((left, end)) => if pos < end && has_char(s, end, '*') {
            match parse_op2(s, end + 1) {
                Some((right, stop)) => Some(
                    (SpecExpr::Times(Box::new(left), Box::new(right)), stop),
                ),
                None => Some((left, end)),
            }
        } else {
            Some((left, end))
        },
        None => None,
    }
}

/// The sum or difference at `pos` and where it ends.
pub open spec fn parse_op1(s: Seq<char>, pos: int) -> Option<(SpecExpr, int)>
    decreases s.len() - pos, 2nat,
{
    match parse_op2(s, pos) {
        Some((left, end)) => if pos < end && (has_char(s, end, '+') || has_char(s, end, '-')) {
            match parse_op1(s, end + 1) {
                Some((right, stop)) => if s[end] == '+' {
                    Some((SpecExpr::Plus(Box::new(left), Box::new(right)), stop))
                } else {
                    Some((SpecExpr::Minus(Box::new(left), Box::new(right)), stop))
                },
                None => Some((left, end)),
            }
        } else {
            Some((left, end))
        },
        None => None,
    }
}

/// The `let` expression at `pos` and where it ends.
pub open spec fn parse_let(s: Seq<char>, pos: int) -> Option<(SpecExpr, int)>
    decreases s.len() - pos, 3nat,
{
    if has_word(s, pos, word_let()) {
        match parse_decl(s, pos + 4) {
            Some((decl, end)) => if pos < end && has_word(s, end, word_in()) {
                match parse_expr(s, end + 4) {
                    Some((body, stop)) => Some(
                        (SpecExpr::Let(Box::new(decl), Box::new(body)), stop),
                    ),
                    None => None,
                }
            } else {
                None
            },
            None => None,
        }
    } else {
        None
    }
}

/// The expression at `pos` and where it ends.
pub open spec fn parse_expr(s: Seq<char>, pos: int) -> Option<(SpecExpr, int)>
    decreases s.len() - pos, 4nat,
{
    match parse_let(s, pos) {
        Some(found) => Some(found),
        None => parse_op1(s, pos),
    }
}

/// The declaration at `pos` and where it ends.
pub open spec fn parse_decl(s: Seq<char>, pos: int) -> Option<(SpecDecl, int)>
    decreases s.len() - pos, 5nat,
{
    if has_word(s, pos, word_var()) {
        match identifier_end(s, pos + 4) {
            Some(end) => if pos < end && has_word(s, end, word_is()) {
                match parse_expr(s, end + 3) {
                    Some((value, stop)) => Some(
                        (SpecDecl::VarDecl(s.subrange(pos + 4, end), Box::new(value)), stop),
                    ),
                    None => None,
                }
            } else {
                None
            },
            None => None,
        }
    } else if has_word(s, pos, word_function()) {
        match identifier_end(s, pos + 9) {
            Some(end) => if pos < end && has_char(s, end, '(') {
                let params = parse_params(s, end + 1);
                if end < params.1 && has_char(s, params.1, ')') && has_char(s, params.1 + 1, '{') {
                    match parse_expr(s, params.1 + 2) {
                        Some((body, stop)) => if has_char(s, stop, '}') {
                            Some(
                                (
                                    SpecDecl::FunDecl(
                                        s.subrange(pos + 9, end),
                                        params.0,
                                        Box::new(body),
                                    ),
                                    stop + 1,
                                ),
                            )
                        } else {
                            None
                        },
                        None => None,
                    }
                } else {
                    None
                }
            } else {
                None
            },
            None => None,
        }
    } else {
        None
    }
}

/// The parameter names from `pos` on, each after a comma, and where the
/// last one ends.
pub open spec fn parse_more_params(s: Seq<char>, pos: int) -> (Seq<Seq<char>>, int)
    decreases s.len() - pos,
{
    if has_char(s, pos, ',') && identifier_end(s, pos + 1) is Some && pos < identifier_end(
        s,
        pos + 1,
    )->0 <= s.len() {
        let end = identifier_end(s, pos + 1)->0;
        let rest = parse_more_params(s, end);
        (seq![s.subrange(pos + 1, end)] + rest.0, rest.1)
    } else {
        (Seq::empty(), pos)
    }
}

/// The parameter list at `pos`: no name, or names with a comma between
/// each two, and where it ends.
pub open spec fn parse_params(s: Seq<char>, pos: int) -> (Seq<Seq<char>>, int) {
    match identifier_end(s, pos) {
        Some(end) => {
            let rest = parse_more_params(s, end);
            (seq![s.subrange(pos, end)] + rest.0, rest.1)
        },
        None => (Seq::empty(), pos),
    }
}

/// The arguments from `pos` on, each after a comma, and where the last one
/// ends.
pub open spec fn parse_more_args(s: Seq<char>, pos: int) -> (Seq<SpecExpr>, int)
    decreases s.len() - pos, 6nat,
{
    if has_char(s, pos, ',') {
        match parse_expr(s, pos + 1) {
            Some((arg, end)) => if pos < end <= s.len() {
                let rest = parse_more_args(s, end);
                (seq![arg] + rest.0, rest.1)
            } else {
                (Seq::empty(), pos)
            },
            None => (Seq::empty(), pos),
        }
    } else {
        (Seq::empty(), pos)
    }
}

/// The argument list at `pos`: no expression, or expressions with a comma
/// between each two, and where it ends.
pub open spec fn parse_args(s: Seq<char>, pos: int) -> (Seq<SpecExpr>, int)
    decreases s.len() - pos, 7nat,
{
    match parse_expr(s, pos) {
        Some((arg, end)) => if pos <= end <= s.len() {
            let rest = parse_more_args(s, end);
            (seq![arg] + rest.0, rest.1)
        } else {
            (Seq::empty(), pos)
        },
        None => (Seq::empty(), pos),
    }
}

/// What was found ends behind `pos` and inside the text.
pub open spec fn ends_behind<T>(found: Option<(T, int)>, s: Seq<char>, pos: int) -> bool {
    match found {
        Some((_, end)) => pos < end <= s.len(),
        None => true,
    }
}

/// A token is not empty and ends inside the text.
pub proof fn lemma_tokens_advance(s: Seq<char>, pos: int)
    requires
        0 <= pos <= s.len(),
    ensures
        identifier_end(s, pos) is Some ==> pos < identifier_end(s, pos)->0 <= s.len(),
        numeral_end(s, pos) is Some ==> pos < numeral_end(s, pos)->0 <= s.len(),
{
    if identifier_end(s, pos) is Some {
        lemma_word_end(s, pos + 1);
    }
    if numeral_end(s, pos) is Some {
        let start = if has_char(s, pos, '-') {
            pos + 1
        } else {
            pos
        };
        lemma_digits_end(s, start + 1);
        let point = integer_end(s, start)->0;
        if fraction_end(s, point) != point {
            lemma_digits_end(s, point + 2);
        }
    }
}

/// Whatever the grammar finds at a place is not empty and ends inside the
/// text.
pub proof fn lemma_atom_advances(s: Seq<char>, pos: int)
    requires
        0 <= pos <= s.len(),
    ensures
        ends_behind(parse_atom(s, pos), s, pos),
    decreases s.len() - pos, 0nat,
{
    lemma_tokens_advance(s, pos);
    if numeral_end(s, pos) is Some {
    } else if identifier_end(s, pos) is Some {
        let end = identifier_end(s, pos)->0;
        if has_char(s, end, '(') {
            lemma_args_advance(s, end + 1);
        }
    } else if has_char(s, pos, '(') {
        lemma_expr_advances(s, pos + 1);
    }
}

/// See [`lemma_atom_advances`].
pub proof fn lemma_op2_advances(s: Seq<char>, pos: int)
    requires
        0 <= pos <= s.len(),
    ensures
        ends_behind(parse_op2(s, pos), s, pos),
    decreases s.len() - pos, 1nat,
{
    lemma_atom_advances(s, pos);
    if let Some((_, end)) = parse_atom(s, pos) {
        if has_char(s, end, '*') {
            lemma_op2_advances(s, end + 1);
        }
    }
}

/// See [`lemma_atom_advances`].
pub proof fn lemma_op1_advances(s: Seq<char>, pos: int)
    requires
        0 <= pos <= s.len(),
    ensures
        ends_behind(parse_op1(s, pos), s, pos),
    decreases s.len() - pos, 2nat,
{
    lemma_op2_advances(s, pos);
    if let Some((_, end)) = parse_op2(s, pos) {
        if has_char(s, end, '+') || has_char(s, end, '-') {
            lemma_op1_advances(s, end + 1);
        }
    }
}

/// See [`lemma_atom_advances`].
pub proof fn lemma_let_advances(s: Seq<char>, pos: int)
    requires
        0 <= pos <= s.len(),
    ensures
        ends_behind(parse_let(s, pos), s, pos),
    decreases s.len() - pos, 3nat,
{
    if has_word(s, pos, word_let()) {
        lemma_decl_advances(s, pos + 4);
        if let Some((_, end)) = parse_decl(s, pos + 4) {
            if has_word(s, end, word_in()) {
                lemma_expr_advances(s, end + 4);
            }
        }
    }
}

/// See [`lemma_atom_advances`].
pub proof fn lemma_expr_advances(s: Seq<char>, pos: int)
    requires
        0 <= pos <= s.len(),
    ensures
        ends_behind(parse_expr(s, pos), s, pos),
    decreases s.len() - pos, 4nat,
{
    lemma_let_advances(s, pos);
    if parse_let(s, pos) is None {
        lemma_op1_advances(s, pos);
    }
}

/// See [`lemma_atom_advances`].
pub proof fn lemma_decl_advances(s: Seq<char>, pos: int)
    requires
        0 <= pos <= s.len(),
    ensures
        ends_behind(parse_decl(s, pos), s, pos),
    decreases s.len() - pos, 5nat,
{
    if has_word(s, pos, word_var()) {
        lemma_tokens_advance(s, pos + 4);
        if let Some(end) = identifier_end(s, pos + 4) {
            if has_word(s, end, word_is()) {
                lemma_expr_advances(s, end + 3);
            }
        }
    } else if has_word(s, pos, word_function()) {
        lemma_tokens_advance(s, pos + 9);
        if let Some(end) = identifier_end(s, pos + 9) {
            if has_char(s, end, '(') {
                lemma_params_advance(s, end + 1);
                let params = parse_params(s, end + 1);
                if has_char(s, params.1, ')') && has_char(s, params.1 + 1, '{') {
                    lemma_expr_advances(s, params.1 + 2);
                }
            }
        }
    }
}

/// A list of parameters may be empty, and ends inside the text.
pub proof fn lemma_more_params_advance(s: Seq<char>, pos: int)
    requires
        0 <= pos <= s.len(),
    ensures
        pos <= parse_more_params(s, pos).1 <= s.len(),
    decreases s.len() - pos,
{
    if has_char(s, pos, ',') {
        lemma_tokens_advance(s, pos + 1);
        if let Some(end) = identifier_end(s, pos + 1) {
            lemma_more_params_advance(s, end);
        }
    }
}

/// A list of parameters may be empty, and ends inside the text.
pub proof fn lemma_params_advance(s: Seq<char>, pos: int)
    requires
        0 <= pos <= s.len(),
    ensures
        pos <= parse_params(s, pos).1 <= s.len(),
{
    lemma_tokens_advance(s, pos);
    if let Some(end) = identifier_end(s, pos) {
        lemma_more_params_advance(s, end);
    }
}

/// A list of arguments may be empty, and ends inside the text.
pub proof fn lemma_more_args_advance(s: Seq<char>, pos: int)
    requires
        0 <= pos <= s.len(),
    ensures
        pos <= parse_more_args(s, pos).1 <= s.len(),
    decreases s.len() - pos, 6nat,
{
    if has_char(s, pos, ',') {
        lemma_expr_advances(s, pos + 1);
        if let Some((_, end)) = parse_expr(s, pos + 1) {
            lemma_more_args_advance(s, end);
        }
    }
}

/// A list of arguments may be empty, and ends inside the text.
pub proof fn lemma_args_advance(s: Seq<char>, pos: int)
    requires
        0 <= pos <= s.len(),
    ensures
        pos <= parse_args(s, pos).1 <= s.len(),
    decreases s.len() - pos, 7nat,
{
    lemma_expr_advances(s, pos);
    if let Some((_, end)) = parse_expr(s, pos) {
        lemma_more_args_advance(s, end);
    }
}

} // verus!
