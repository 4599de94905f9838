//! The syntax tree that the type checker reads.

use super::types::{clone_type, type_model, SpecType, Type};
use vstd::prelude::*;

verus! {

/// The comparison operators.  All six are typed by one rule.
#[derive(Debug, Clone, Copy, PartialEq, Eq, Hash)]
pub enum Comparison {
    LessEqual,
    Less,
    Equal,
    NotEqual,
    Greater,
    GreaterEqual,
}

/// An expression.
#[derive(Debug, PartialEq, Eq, Hash)]
pub enum Expr {
    /// A reference to a name.
    Id(String),
    /// A number literal.
    Numeral(i64),
    /// A string literal.
    StringLiteral(String),
    /// The literal for truth.
    True,
    /// The literal for falsehood.
    False,
    /// A comparison of the first operand with the second.
    Compare(Box<Expr>, Comparison, Box<Expr>),
    /// Multiplication.
    Times(Box<Expr>, Box<Expr>),
    /// Addition.
    Plus(Box<Expr>, Box<Expr>),
    /// Subtraction.
    Minus(Box<Expr>, Box<Expr>),
    /// A definition, and the expression in whose scope it holds.
    Let(Box<Defn>, Box<Expr>),
    /// A call of a named function on its arguments, in order.
    Call(String, Vec<Expr>),
}

/// A definition.
#[derive(Debug, PartialEq, Eq, Hash)]
pub enum Defn {
    /// A variable and the expression that gives its value.
    VarDefn(String, Box<Expr>),
    /// A function: its name, its parameters with their declared types, its
    /// declared result type, and its body.
    FunDefn(String, Vec<(String, Type)>, Type, Box<Expr>),
}

/// The mathematical model of an [`Expr`].
pub enum SpecExpr {
    Id(Seq<char>),
    Numeral(i64),
    StringLiteral(Seq<char>),
    True,
    False,
    Compare(Box<SpecExpr>, Comparison, Box<SpecExpr>),
    Times(Box<SpecExpr>, Box<SpecExpr>),
    Plus(Box<SpecExpr>, Box<SpecExpr>),
    Minus(Box<SpecExpr>, Box<SpecExpr>),
    Let(Box<SpecDefn>, Box<SpecExpr>),
    Call(Seq<char>, Seq<SpecExpr>),
}

/// The mathematical model of a [`Defn`].
pub enum SpecDefn {
    VarDefn(Seq<char>, Box<SpecExpr>),
    FunDefn(Seq<char>, Seq<(Seq<char>, SpecType)>, SpecType, Box<SpecExpr>),
}

/// The model of a parameter list: each name with the model of its type.
pub open spec fn params_model(params: Seq<(String, Type)>) -> Seq<(Seq<char>, SpecType)> {
    Seq::new(params.len(), |i: int| (params[i].0@, type_model(params[i].1)))
}

/// The model of one expression.
pub open spec fn expr_model(e: Expr) -> SpecExpr
    decreases e,
{
    match e {
        Expr::Id(name) => SpecExpr::Id(name@),
        Expr::Numeral(n) => SpecExpr::Numeral(n),
        Expr::StringLiteral(text) => SpecExpr::StringLiteral(text@),
        Expr::True => SpecExpr::True,
        Expr::False => SpecExpr::False,
        Expr::Compare(l, op, r) => SpecExpr::Compare(
            Box::new(expr_model(*l)),
            op,
            Box::new(expr_model(*r)),
        ),
        Expr::Times(l, r) => SpecExpr::Times(Box::new(expr_model(*l)), Box::new(expr_model(*r))),
        Expr::Plus(l, r) => SpecExpr::Plus(Box::new(expr_model(*l)), Box::new(expr_model(*r))),
        Expr::Minus(l, r) => SpecExpr::Minus(Box::new(expr_model(*l)), Box::new(expr_model(*r))),
        Expr::Let(d, body) => SpecExpr::Let(
            Box::new(defn_model(*d)),
            Box::new(expr_model(*body)),
        ),
        Expr::Call(name, args) => SpecExpr::Call(
            name@,
            Seq::new(
                args.len() as nat,
                |i: int|
                    if 0 <= i < args.len() {
                        expr_model(args[i])
                    } else {
                        SpecExpr::True
                    },
            ),
        ),
    }
}

/// The model of one definition.
pub open spec fn defn_model(d: Defn) -> SpecDefn
    decreases d,
{
    match d {
        Defn::VarDefn(name, value) => SpecDefn::VarDefn(name@, Box::new(expr_model(*value))),
        Defn::FunDefn(name, params, result, body) => SpecDefn::FunDefn(
            name@,
            params_model(params@),
            type_model(result),
            Box::new(expr_model(*body)),
        ),
    }
}

impl View for Expr {
    type V = SpecExpr;

    open spec fn view(&self) -> SpecExpr {
        expr_model(*self)
    }
}

impl View for Defn {
    type V = SpecDefn;

    open spec fn view(&self) -> SpecDefn {
        defn_model(*self)
    }
}

/// A copy of `e` with the same model.
pub fn clone_expr(e: &Expr) -> (r: Expr)
    ensures
        r@ == e@,
    decreases e,
{
    match e {
        Expr::Id(name) => Expr::Id(name.clone()),
        Expr::Numeral(n) => Expr::Numeral(*n),
        Expr::StringLiteral(text) => Expr::StringLiteral(text.clone()),
        Expr::True => Expr::True,
        Expr::False => Expr::False,
        Expr::Compare(l, op, r) => Expr::Compare(
            Box::new(clone_expr(l)),
            *op,
            Box::new(clone_expr(r)),
        ),
        Expr::Times(l, r) => Expr::Times(Box::new(clone_expr(l)), Box::new(clone_expr(r))),
        Expr::Plus(l, r) => Expr::Plus(Box::new(clone_expr(l)), Box::new(clone_expr(r))),
        Expr::Minus(l, r) => Expr::Minus(Box::new(clone_expr(l)), Box::new(clone_expr(r))),
        Expr::Let(d, body) => Expr::Let(Box::new(clone_defn(d)), Box::new(clone_expr(body))),
        Expr::Call(name, args) => {
            let mut copies: Vec<Expr> = Vec::new();
            let mut i: usize = 0;
            while i < args.len()
                invariant
                    i <= args.len(),
                    copies.len() == i,
                    e is Call,
                    e->Call_1 == *args,
                    forall|k: int| 0 <= k < i ==> (#[trigger] copies[k])@ == args[k]@,
                decreases args.len() - i,
            {
                assert(decreases_to!(*e => e->Call_1));
                assert(decreases_to!(e->Call_1 => e->Call_1[i as int]));
                let copy = clone_expr(&args[i]);
                copies.push(copy);
                i = i + 1;
            }
            let r = Expr::Call(name.clone(), copies);
            assert(r@->Call_1 =~= e@->Call_1);
            r
        },
    }
}

/// A copy of `d` with the same model.
pub fn clone_defn(d: &Defn) -> (r: Defn)
    ensures
        r@ == d@,
    decreases d,
{
    match d {
        Defn::VarDefn(name, value) => Defn::VarDefn(name.clone(), Box::new(clone_expr(value))),
        Defn::FunDefn(name, params, result, body) => {
            let mut copies: Vec<(String, Type)> = Vec::new();
            let mut i: usize = 0;
            while i < params.len()
                invariant
                    i <= params.len(),
                    copies.len() == i,
                    forall|k: int|
                        0 <= k < i ==> (#[trigger] copies[k]).0@ == params[k].0@ && copies[k].1@
                            == params[k].1@,
                decreases params.len() - i,
            {
                let copy = (params[i].0.clone(), clone_type(&params[i].1));
                copies.push(copy);
                i = i + 1;
            }
            let r = Defn::FunDefn(
                name.clone(),
                copies,
                clone_type(result),
                Box::new(clone_expr(body)),
            );
            assert(r@->FunDefn_1 =~= d@->FunDefn_1);
            r
        },
    }
}

impl Clone for Expr {
    fn clone(&self) -> (r: Self)
        ensures
            r@ == self@,
    {
        clone_expr(self)
    }
}

impl Clone for Defn {
    fn clone(&self) -> (r: Self)
        ensures
            r@ == self@,
    {
        clone_defn(self)
    }
}

} // verus!
