//! The parser proper: it reads a text by the rules of the grammar.

use super::ast::{exprs_model, lemma_call_model, names_model, Decl, Expr, SpecDecl, SpecExpr};
use super::grammar::{
    has_char, has_word, parse_args, parse_atom, parse_decl, parse_expr, parse_let,
    parse_more_args, parse_more_params, parse_op1, parse_op2, parse_params, word_function,
    word_in, word_is, word_let, word_var,
};
use super::lexical::scan_identifier;
use super::numeral::read_numeral;
use super::text::string_of;
use vstd::prelude::*;

verus! {

/// The model of what reading an expression gave.
pub open spec fn found_expr(r: Option<(Expr, usize)>) -> Option<(SpecExpr, int)> {
    match r {
        Some((e, end)) => Some((e@, end as int)),
        None => None,
    }
}

/// The model of what reading a declaration gave.
pub open spec fn found_decl(r: Option<(Decl, usize)>) -> Option<(SpecDecl, int)> {
    match r {
        Some((d, end)) => Some((d@, end as int)),
        None => None,
    }
}

/// What was read ends behind `pos` and inside the text.
pub open spec fn advances<T>(r: Option<(T, usize)>, pos: usize, len: usize) -> bool {
    match r {
        Some((_, end)) => pos < end <= len,
        None => true,
    }
}

fn at_char(input: &[char], pos: usize, c: char) -> (r: bool)
    requires
        pos <= input.len(),
    ensures
        r == has_char(input@, pos as int, c),
{
    pos < input.len() && input[pos] == c
}

fn at_let(input: &[char], pos: usize) -> (r: bool)
    requires
        pos <= input.len(),
    ensures
        r == has_word(input@, pos as int, word_let()),
{
    let r = input.len() - pos >= 4 && input[pos] == 'l' && input[pos + 1] == 'e' && input[pos + 2]
        == 't' && input[pos + 3] == ' ';
    proof {
        let word = word_let();
        if has_word(input@, pos as int, word) {
            assert(word[0] == 'l' && word[1] == 'e' && word[2] == 't' && word[3] == ' ');
        }
    }
    r
}

fn at_in(input: &[char], pos: usize) -> (r: bool)
    requires
        pos <= input.len(),
    ensures
        r == has_word(input@, pos as int, word_in()),
{
    let r = input.len() - pos >= 4 && input[pos] == ' ' && input[pos + 1] == 'i' && input[pos + 2]
        == 'n' && input[pos + 3] == ' ';
    proof {
        let word = word_in();
        if has_word(input@, pos as int, word) {
            assert(word[0] == ' ' && word[1] == 'i' && word[2] == 'n' && word[3] == ' ');
        }
    }
    r
}

fn at_var(input: &[char], pos: usize) -> (r: bool)
    requires
        pos <= input.len(),
    ensures
        r == has_word(input@, pos as int, word_var()),
{
    let r = input.len() - pos >= 4 && input[pos] == 'v' && input[pos + 1] == 'a' && input[pos + 2]
        == 'r' && input[pos + 3] == ' ';
    proof {
        let word = word_var();
        if has_word(input@, pos as int, word) {
            assert(word[0] == 'v' && word[1] == 'a' && word[2] == 'r' && word[3] == ' ');
        }
    }
    r
}

fn at_is(input: &[char], pos: usize) -> (r: bool)
    requires
        pos <= input.len(),
    ensures
        r == has_word(input@, pos as int, word_is()),
{
    let r = input.len() - pos >= 3 && input[pos] == ' ' && input[pos + 1] == '=' && input[pos + 2]
        == ' ';
    proof {
        let word = word_is();
        if has_word(input@, pos as int, word) {
            assert(word[0] == ' ' && word[1] == '=' && word[2] == ' ');
        }
    }
    r
}

fn at_function(input: &[char], pos: usize) -> (r: bool)
    requires
        pos <= input.len(),
    ensures
        r == has_word(input@, pos as int, word_function()),
{
    let r = input.len() - pos >= 9 && input[pos] == 'f' && input[pos + 1] == 'u' && input[pos + 2]
        == 'n' && input[pos + 3] == 'c' && input[pos + 4] == 't' && input[pos + 5] == 'i'
        && input[pos + 6] == 'o' && input[pos + 7] == 'n' && input[pos + 8] == ' ';
    proof {
        let word = word_function();
        if has_word(input@, pos as int, word) {
            assert(word[0] == 'f' && word[1] == 'u' && word[2] == 'n' && word[3] == 'c');
            assert(word[4] == 't' && word[5] == 'i' && word[6] == 'o' && word[7] == 'n');
            assert(word[8] == ' ');
        }
    }
    r
}

/// Reads the atom at `pos`.
pub fn read_atom(input: &[char], pos: usize) -> (r: Option<(Expr, usize)>)
    requires
        pos <= input.len(),
    ensures
        found_expr(r) == parse_atom(input@, pos as int),
        advances(r, pos, input.len()),
    decreases input.len() - pos, 0nat,
{
    if let Some((decimal, end)) = read_numeral(input, pos) {
        return Some((Expr::Numeral(decimal), end));
    }
    if let Some(end) = scan_identifier(input, pos) {
        if at_char(input, end, '(') {
            let (args, stop) = read_args(input, end + 1);
            if at_char(input, stop, ')') {
                let name = string_of(input, pos, end);
                proof {
                    lemma_call_model(name, args);
                }
                return Some((Expr::FunCall(name, args), stop + 1));
            }
        }
        return Some((Expr::Id(string_of(input, pos, end)), end));
    }
    if at_char(input, pos, '(') {
        if let Some((inner, end)) = read_expr(input, pos + 1) {
            if at_char(input, end, ')') {
                return Some((inner, end + 1));
            }
        }
    }
    None
}

/// Reads the product at `pos`.
pub fn read_op2(input: &[char], pos: usize) -> (r: Option<(Expr, usize)>)
    requires
        pos <= input.len(),
    ensures
        found_expr(r) == parse_op2(input@, pos as int),
        advances(r, pos, input.len()),
    decreases input.len() - pos, 1nat,
{
    match read_atom(input, pos) {
        Some((left, end)) => {
            if at_char(input, end, '*') {
                match read_op2(input, end + 1) {
                    Some((right, stop)) => Some(
                        (Expr::Times(Box::new(left), Box::new(right)), stop),
                    ),
                    None => Some((left, end)),
                }
            } else {
                Some((left, end))
            }
        },
        None => None,
    }
}

/// Reads the sum or difference at `pos`.
pub fn read_op1(input: &[char], pos: usize) -> (r: Option<(Expr, usize)>)
    requires
        pos <= input.len(),
    ensures
        found_expr(r) == parse_op1(input@, pos as int),
        advances(r, pos, input.len()),
    decreases input.len() - pos, 2nat,
{
    match read_op2(input, pos) {
        Some((left, end)) => {
            let plus = at_char(input, end, '+');
            if plus || at_char(input, end, '-') {
                match read_op1(input, end + 1) {
                    Some((right, stop)) => if plus {
                        Some((Expr::Plus(Box::new(left), Box::new(right)), stop))
                    } else {
                        Some((Expr::Minus(Box::new(left), Box::new(right)), stop))
                    },
                    None => Some((left, end)),
                }
            } else {
                Some((left, end))
            }
        },
        None => None,
    }
}

/// Reads the `let` expression at `pos`.
pub fn read_let(input: &[char], pos: usize) -> (r: Option<(Expr, usize)>)
    requires
        pos <= input.len(),
    ensures
        found_expr(r) == parse_let(input@, pos as int),
        advances(r, pos, input.len()),
    decreases input.len() - pos, 3nat,
{
    if !at_let(input, pos) {
        return None;
    }
    match read_decl(input, pos + 4) {
        Some((decl, end)) => {
            if !at_in(input, end) {
                return None;
            }
            match read_expr(input, end + 4) {
                Some((body, stop)) => Some((Expr::Let(Box::new(decl), Box::new(body)), stop)),
                None => None,
            }
        },
        None => None,
    }
}

/// Reads the expression at `pos`.
pub fn read_expr(input: &[char], pos: usize) -> (r: Option<(Expr, usize)>)
    requires
        pos <= input.len(),
    ensures
        found_expr(r) == parse_expr(input@, pos as int),
        advances(r, pos, input.len()),
    decreases input.len() - pos, 4nat,
{
    match read_let(input, pos) {
        Some(found) => Some(found),
        None => read_op1(input, pos),
    }
}

/// Reads the declaration at `pos`.
pub fn read_decl(input: &[char], pos: usize) -> (r: Option<(Decl, usize)>)
    requires
        pos <= input.len(),
    ensures
        found_decl(r) == parse_decl(input@, pos as int),
        advances(r, pos, input.len()),
    decreases input.len() - pos, 5nat,
{
    if at_var(input, pos) {
        let end = match scan_identifier(input, pos + 4) {
            Some(end) => end,
            None => { return None; },
        };
        if !at_is(input, end) {
            return None;
        }
        match read_expr(input, end + 3) {
            Some((value, stop)) => Some(
                (Decl::VarDecl(string_of(input, pos + 4, end), Box::new(value)), stop),
            ),
            None => None,
        }
    } else if at_function(input, pos) {
        let end = match scan_identifier(input, pos + 9) {
            Some(end) => end,
            None => { return None; },
        };
        if !at_char(input, end, '(') {
            return None;
        }
        let (params, close) = read_params(input, end + 1);
        if !at_char(input, close, ')') || !at_char(input, close + 1, '{') {
            return None;
        }
        match read_expr(input, close + 2) {
            Some((body, stop)) => {
                if at_char(input, stop, '}') {
                    Some(
                        (
                            Decl::FunDecl(string_of(input, pos + 9, end), params, Box::new(body)),
                            stop + 1,
                        ),
                    )
                } else {
                    None
                }
            },
            None => None,
        }
    } else {
        None
    }
}

/// Reads the parameter list at `pos`.
pub fn read_params(input: &[char], pos: usize) -> (r: (Vec<String>, usize))
    requires
        pos <= input.len(),
    ensures
        names_model(r.0@) == parse_params(input@, pos as int).0,
        r.1 == parse_params(input@, pos as int).1,
        pos <= r.1 <= input.len(),
{
    let mut names: Vec<String> = Vec::new();
    let mut stop = match scan_identifier(input, pos) {
        Some(end) => {
            names.push(string_of(input, pos, end));
            end
        },
        None => {
            assert(names_model(names@) =~= Seq::empty());
            return (names, pos);
        },
    };
    assert(names_model(names@) =~= seq![input@.subrange(pos as int, stop as int)]);
    while at_char(input, stop, ',')
        invariant
            pos <= stop <= input.len(),
            parse_params(input@, pos as int).0 == names_model(names@) + parse_more_params(
                input@,
                stop as int,
            ).0,
            parse_params(input@, pos as int).1 == parse_more_params(input@, stop as int).1,
        decreases input.len() - stop,
    {
        match scan_identifier(input, stop + 1) {
            Some(end) => {
                let ghost before = names_model(names@);
                let ghost rest = parse_more_params(input@, end as int).0;
                let ghost name = input@.subrange(stop + 1, end as int);
                names.push(string_of(input, stop + 1, end));
                assert(names_model(names@) =~= before.push(name));
                assert(before + (seq![name] + rest) =~= before.push(name) + rest);
                stop = end;
            },
            None => {
                assert(names_model(names@) + Seq::<Seq<char>>::empty() =~= names_model(names@));
                return (names, stop);
            },
        }
    }
    assert(names_model(names@) + Seq::<Seq<char>>::empty() =~= names_model(names@));
    (names, stop)
}

/// Reads the argument list at `pos`.
pub fn read_args(input: &[char], pos: usize) -> (r: (Vec<Expr>, usize))
    requires
        pos <= input.len(),
    ensures
        exprs_model(r.0@) == parse_args(input@, pos as int).0,
        r.1 == parse_args(input@, pos as int).1,
        pos <= r.1 <= input.len(),
    decreases input.len() - pos, 7nat,
{
    let mut args: Vec<Expr> = Vec::new();
    let mut stop = match read_expr(input, pos) {
        Some((first, end)) => {
            assert(exprs_model(args@.push(first)) =~= seq![first@]);
            args.push(first);
            end
        },
        None => {
            assert(exprs_model(args@) =~= Seq::empty());
            return (args, pos);
        },
    };
    while at_char(input, stop, ',')
        invariant
            pos <= stop <= input.len(),
            parse_args(input@, pos as int).0 == exprs_model(args@) + parse_more_args(
                input@,
                stop as int,
            ).0,
            parse_args(input@, pos as int).1 == parse_more_args(input@, stop as int).1,
        decreases input.len() - stop,
    {
        match read_expr(input, stop + 1) {
            Some((arg, end)) => {
                let ghost before = exprs_model(args@);
                let ghost rest = parse_more_args(input@, end as int).0;
                assert(exprs_model(args@.push(arg)) =~= before.push(arg@));
                assert(before + (seq![arg@] + rest) =~= before.push(arg@) + rest);
                args.push(arg);
                stop = end;
            },
            None => {
                assert(exprs_model(args@) + Seq::<SpecExpr>::empty() =~= exprs_model(args@));
                return (args, stop);
            },
        }
    }
    assert(exprs_model(args@) + Seq::<SpecExpr>::empty() =~= exprs_model(args@));
    (args, stop)
}

} // verus!
