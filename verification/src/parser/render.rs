//! The textual rendering of a syntax tree.  It is canonical; it is not
//! meant to be read back: it writes no parentheses.

use super::ast::{names_model, Decl, Expr, SpecDecl, SpecExpr};
use super::decimal::{Decimal, SpecDecimal};
use super::entry::ParseError;
use super::grammar::{word_function, word_in, word_is, word_let, word_var};
use super::text::collect;
use vstd::prelude::*;

verus! {

/// The character that writes a digit.
pub open spec fn digit_char(digit: u8) -> char {
    if digit == 1 {
        '1'
    } else if digit == 2 {
        '2'
    } else if digit == 3 {
        '3'
    } else if digit == 4 {
        '4'
    } else if digit == 5 {
        '5'
    } else if digit == 6 {
        '6'
    } else if digit == 7 {
        '7'
    } else if digit == 8 {
        '8'
    } else if digit == 9 {
        '9'
    } else {
        '0'
    }
}

/// The characters that write a run of digits.
pub open spec fn digit_chars(digits: Seq<u8>) -> Seq<char> {
    Seq::new(digits.len(), |i: int| digit_char(digits[i]))
}

/// A decimal as text: `-` if it is negative, its integer part, and a point
/// with the fraction behind it if it has one.
pub open spec fn render_decimal(d: SpecDecimal) -> Seq<char> {
    let sign = if d.negative {
        seq!['-']
    } else {
        Seq::empty()
    };
    let fraction = if d.fraction.len() > 0 {
        seq!['.'] + digit_chars(d.fraction)
    } else {
        Seq::empty()
    };
    sign + digit_chars(d.integer) + fraction
}

/// The names of `names`, one behind the other with nothing between them.
pub open spec fn render_names(names: Seq<Seq<char>>) -> Seq<char>
    decreases names.len(),
{
    if names.len() == 0 {
        Seq::empty()
    } else {
        render_names(names.drop_last()) + names.last()
    }
}

/// An expression as text: an operator stands between its operands, and
/// each argument of a call stands behind a comma.
pub open spec fn render_expr(e: SpecExpr) -> Seq<char>
    decreases e, 0nat,
{
    match e {
        SpecExpr::Id(name) => name,
        SpecExpr::Numeral(d) => render_decimal(d),
        SpecExpr::Times(l, r) => render_expr(*l) + seq!['*'] + render_expr(*r),
        SpecExpr::Plus(l, r) => render_expr(*l) + seq!['+'] + render_expr(*r),
        SpecExpr::Minus(l, r) => render_expr(*l) + seq!['-'] + render_expr(*r),
        SpecExpr::Let(d, body) => word_let() + render_decl(*d) + word_in() + render_expr(*body),
        SpecExpr::FunCall(name, args) => name + seq!['('] + render_args(args, args.len())
            + seq![')'],
    }
}

/// The first `count` arguments as text, each behind a comma.
pub open spec fn render_args(args: Seq<SpecExpr>, count: nat) -> Seq<char>
    decreases args, count,
{
    if count == 0 || count > args.len() {
        Seq::empty()
    } else {
        render_args(args, (count - 1) as nat) + seq![','] + render_expr(args[count - 1])
    }
}

/// A declaration as text.
pub open spec fn render_decl(d: SpecDecl) -> Seq<char>
    decreases d, 0nat,
{
    match d {
        SpecDecl::VarDecl(name, value) => word_var() + name + word_is() + render_expr(*value),
        SpecDecl::FunDecl(name, params, body) => word_function() + name + seq!['(']
            + render_names(params) + seq![')', '{'] + render_expr(*body) + seq!['}'],
    }
}

/// What [`e_res_to_str`] gives for a failure.
pub open spec fn word_err() -> Seq<char> {
    seq!['e', 'r', 'r']
}

/// The character that writes a digit.
fn char_of_digit(digit: u8) -> (r: char)
    ensures
        r == digit_char(digit),
{
    if digit == 1 {
        '1'
    } else if digit == 2 {
        '2'
    } else if digit == 3 {
        '3'
    } else if digit == 4 {
        '4'
    } else if digit == 5 {
        '5'
    } else if digit == 6 {
        '6'
    } else if digit == 7 {
        '7'
    } else if digit == 8 {
        '8'
    } else if digit == 9 {
        '9'
    } else {
        '0'
    }
}

/// Writes a run of digits behind what `out` holds.
fn write_digits(digits: &Vec<u8>, out: &mut Vec<char>)
    ensures
        final(out)@ == old(out)@ + digit_chars(digits@),
{
    let mut i: usize = 0;
    while i < digits.len()
        invariant
            i <= digits.len(),
            out@ == old(out)@ + digit_chars(digits@.take(i as int)),
        decreases digits.len() - i,
    {
        out.push(char_of_digit(digits[i]));
        assert(out@ =~= old(out)@ + digit_chars(digits@.take(i + 1)));
        i = i + 1;
    }
    assert(digits@.take(i as int) =~= digits@);
}

/// Writes the characters of `text` behind what `out` holds.
fn write_text(text: &str, out: &mut Vec<char>)
    ensures
        final(out)@ == old(out)@ + text@,
{
    for c in it: text.chars()
        invariant
            out@ == old(out)@ + it.seq().take(it.index()),
            it.seq() == text@,
    {
        out.push(c);
        assert(out@ =~= old(out)@ + it.seq().take(it.index() + 1));
    }
    assert(text@.take(text@.len() as int) =~= text@);
}

/// Writes a decimal behind what `out` holds.
fn write_decimal(d: &Decimal, out: &mut Vec<char>)
    ensures
        final(out)@ == old(out)@ + render_decimal(d@),
{
    if d.is_negative() {
        out.push('-');
    }
    write_digits(d.integer_digits(), out);
    if d.fraction_digits().len() > 0 {
        out.push('.');
        write_digits(d.fraction_digits(), out);
    }
    assert(out@ =~= old(out)@ + render_decimal(d@));
}

/// Writes an expression behind what `out` holds.
fn write_expr(e: &Expr, out: &mut Vec<char>)
    ensures
        final(out)@ == old(out)@ + render_expr(e@),
    decreases e,
{
    match e {
        Expr::Id(name) => {
            write_text(name.as_str(), out);
        },
        Expr::Numeral(d) => {
            write_decimal(d, out);
        },
        Expr::Times(l, r) => {
            write_expr(l, out);
            out.push('*');
            write_expr(r, out);
            assert(out@ =~= old(out)@ + render_expr(e@));
        },
        Expr::Plus(l, r) => {
            write_expr(l, out);
            out.push('+');
            write_expr(r, out);
            assert(out@ =~= old(out)@ + render_expr(e@));
        },
        Expr::Minus(l, r) => {
            write_expr(l, out);
            out.push('-');
            write_expr(r, out);
            assert(out@ =~= old(out)@ + render_expr(e@));
        },
        Expr::Let(d, body) => {
            out.push('l');
            out.push('e');
            out.push('t');
            out.push(' ');
            write_decl(d, out);
            out.push(' ');
            out.push('i');
            out.push('n');
            out.push(' ');
            write_expr(body, out);
            assert(out@ =~= old(out)@ + render_expr(e@));
        },
        Expr::FunCall(name, args) => {
            write_text(name.as_str(), out);
            out.push('(');
            let ghost start = out@;
            let mut i: usize = 0;
            while i < args.len()
                invariant
                    i <= args.len(),
                    e is FunCall,
                    e->FunCall_1 == *args,
                    out@ == start + render_args(e@->FunCall_1, i as nat),
                decreases args.len() - i,
            {
                assert(decreases_to!(*e => e->FunCall_1));
                assert(decreases_to!(e->FunCall_1 => e->FunCall_1[i as int]));
                assert(e@->FunCall_1[i as int] == args[i as int]@);
                out.push(',');
                write_expr(&args[i], out);
                assert(out@ =~= start + render_args(e@->FunCall_1, (i + 1) as nat));
                i = i + 1;
            }
            out.push(')');
            assert(out@ =~= old(out)@ + render_expr(e@));
        },
    }
}

/// Writes a declaration behind what `out` holds.
fn write_decl(d: &Decl, out: &mut Vec<char>)
    ensures
        final(out)@ == old(out)@ + render_decl(d@),
    decreases d,
{
    match d {
        Decl::VarDecl(name, value) => {
            out.push('v');
            out.push('a');
            out.push('r');
            out.push(' ');
            write_text(name.as_str(), out);
            out.push(' ');
            out.push('=');
            out.push(' ');
            write_expr(value, out);
            assert(out@ =~= old(out)@ + render_decl(d@));
        },
        Decl::FunDecl(name, params, body) => {
            out.push('f');
            out.push('u');
            out.push('n');
            out.push('c');
            out.push('t');
            out.push('i');
            out.push('o');
            out.push('n');
            out.push(' ');
            write_text(name.as_str(), out);
            out.push('(');
            let ghost start = out@;
            let mut i: usize = 0;
            while i < params.len()
                invariant
                    i <= params.len(),
                    out@ == start + render_names(names_model(params@).take(i as int)),
                decreases params.len() - i,
            {
                let ghost shorter = names_model(params@).take(i as int);
                let ghost longer = names_model(params@).take(i + 1);
                assert(longer.drop_last() =~= shorter);
                write_text(params[i].as_str(), out);
                assert(out@ =~= start + render_names(longer));
                i = i + 1;
            }
            assert(names_model(params@).take(i as int) =~= names_model(params@));
            out.push(')');
            out.push('{');
            write_expr(body, out);
            out.push('}');
            assert(out@ =~= old(out)@ + render_decl(d@));
        },
    }
}

/// The text that renders an expression.
pub fn expr_to_string(e: Expr) -> (r: String)
    ensures
        r@ == render_expr(e@),
{
    let mut out: Vec<char> = Vec::new();
    write_expr(&e, &mut out);
    assert(out@ =~= render_expr(e@));
    collect(out.as_slice())
}

/// The text that renders a declaration.
pub fn decl_to_string(d: Decl) -> (r: String)
    ensures
        r@ == render_decl(d@),
{
    let mut out: Vec<char> = Vec::new();
    write_decl(&d, &mut out);
    assert(out@ =~= render_decl(d@));
    collect(out.as_slice())
}

/// The text that renders the outcome of parsing an expression: the
/// expression, or `err` for a failure.
pub fn e_res_to_str(r: Result<Expr, ParseError>) -> (text: String)
    ensures
        text@ == match r {
            Ok(e) => render_expr(e@),
            Err(_) => word_err(),
        },
{
    match r {
        Ok(e) => expr_to_string(e),
        Err(_) => {
            let mut out: Vec<char> = Vec::new();
            out.push('e');
            out.push('r');
            out.push('r');
            assert(out@ =~= word_err());
            collect(out.as_slice())
        },
    }
}

impl Decimal {
    /// The text that renders the decimal.
    pub fn render(&self) -> (r: String)
        ensures
            r@ == render_decimal(self@),
    {
        let mut out: Vec<char> = Vec::new();
        write_decimal(self, &mut out);
        assert(out@ =~= render_decimal(self@));
        collect(out.as_slice())
    }
}

} // verus!
