//! The syntax tree that the parser builds, and its structural equality.

use super::decimal::{Decimal, SpecDecimal};
use vstd::prelude::*;

verus! {

/// An expression.
#[derive(Debug)]
pub enum Expr {
    /// A reference to a name.
    Id(String),
    /// A number literal.
    Numeral(Decimal),
    /// Multiplication.
    Times(Box<Expr>, Box<Expr>),
    /// Addition.
    Plus(Box<Expr>, Box<Expr>),
    /// Subtraction.
    Minus(Box<Expr>, Box<Expr>),
    /// A declaration, and the expression in whose scope it holds.
    Let(Box<Decl>, Box<Expr>),
    /// A call of a named function on its arguments, in order.
    FunCall(String, Vec<Expr>),
}

/// A declaration.
#[derive(Debug)]
pub enum Decl {
    /// A variable and the expression that gives its value.
    VarDecl(String, Box<Expr>),
    /// A function: its name, the names of its parameters, and its body.
    FunDecl(String, Vec<String>, Box<Expr>),
}

/// The mathematical model of an [`Expr`].
pub enum SpecExpr {
    Id(Seq<char>),
    Numeral(SpecDecimal),
    Times(Box<SpecExpr>, Box<SpecExpr>),
    Plus(Box<SpecExpr>, Box<SpecExpr>),
    Minus(Box<SpecExpr>, Box<SpecExpr>),
    Let(Box<SpecDecl>, Box<SpecExpr>),
    FunCall(Seq<char>, Seq<SpecExpr>),
}

/// The mathematical model of a [`Decl`].
pub enum SpecDecl {
    VarDecl(Seq<char>, Box<SpecExpr>),
    FunDecl(Seq<char>, Seq<Seq<char>>, Box<SpecExpr>),
}

/// The model of a list of names.
pub open spec fn names_model(names: Seq<String>) -> Seq<Seq<char>> {
    Seq::new(names.len(), |i: int| names[i]@)
}

/// The model of one expression.
pub open spec fn expr_model(e: Expr) -> SpecExpr
    decreases e,
{
    match e {
        Expr::Id(name) => SpecExpr::Id(name@),
        Expr::Numeral(n) => SpecExpr::Numeral(n@),
        Expr::Times(l, r) => SpecExpr::Times(Box::new(expr_model(*l)), Box::new(expr_model(*r))),
        Expr::Plus(l, r) => SpecExpr::Plus(Box::new(expr_model(*l)), Box::new(expr_model(*r))),
        Expr::Minus(l, r) => SpecExpr::Minus(Box::new(expr_model(*l)), Box::new(expr_model(*r))),
        Expr::Let(d, body) => SpecExpr::Let(
            Box::new(decl_model(*d)),
            Box::new(expr_model(*body)),
        ),
        Expr::FunCall(name, args) => SpecExpr::FunCall(
            name@,
            Seq::new(
                args.len() as nat,
                |i: int|
                    if 0 <= i < args.len() {
                        expr_model(args[i])
                    } else {
                        SpecExpr::Id(Seq::empty())
                    },
            ),
        ),
    }
}

/// The model of one declaration.
pub open spec fn decl_model(d: Decl) -> SpecDecl
    decreases d,
{
    match d {
        Decl::VarDecl(name, value) => SpecDecl::VarDecl(name@, Box::new(expr_model(*value))),
        Decl::FunDecl(name, params, body) => SpecDecl::FunDecl(
            name@,
            names_model(params@),
            Box::new(expr_model(*body)),
        ),
    }
}

impl View for Expr {
    type V = SpecExpr;

    open spec fn view(&self) -> SpecExpr {
        expr_model(*self)
    }
}

impl View for Decl {
    type V = SpecDecl;

    open spec fn view(&self) -> SpecDecl {
        decl_model(*self)
    }
}

/// The models of the expressions in `exprs`, in order.
pub open spec fn exprs_model(exprs: Seq<Expr>) -> Seq<SpecExpr> {
    Seq::new(exprs.len(), |i: int| exprs[i]@)
}

/// The model of a call is made of the models of its arguments.
pub proof fn lemma_call_model(name: String, args: Vec<Expr>)
    ensures
        Expr::FunCall(name, args)@ == SpecExpr::FunCall(name@, exprs_model(args@)),
{
    assert(Expr::FunCall(name, args)@->FunCall_1 =~= exprs_model(args@));
}

/// A copy of a list of names.
pub fn clone_names(names: &Vec<String>) -> (r: Vec<String>)
    ensures
        names_model(r@) == names_model(names@),
{
    let mut copies: Vec<String> = Vec::new();
    let mut i: usize = 0;
    while i < names.len()
        invariant
            i <= names.len(),
            copies.len() == i,
            forall|k: int| 0 <= k < i ==> (#[trigger] copies[k])@ == names[k]@,
        decreases names.len() - i,
    {
        copies.push(names[i].clone());
        i = i + 1;
    }
    assert(names_model(copies@) =~= names_model(names@));
    copies
}

/// A copy of `e` with the same model.
pub fn clone_expr(e: &Expr) -> (r: Expr)
    ensures
        r@ == e@,
    decreases e,
{
    match e {
        Expr::Id(name) => Expr::Id(name.clone()),
        Expr::Numeral(n) => Expr::Numeral(n.clone()),
        Expr::Times(l, r) => Expr::Times(Box::new(clone_expr(l)), Box::new(clone_expr(r))),
        Expr::Plus(l, r) => Expr::Plus(Box::new(clone_expr(l)), Box::new(clone_expr(r))),
        Expr::Minus(l, r) => Expr::Minus(Box::new(clone_expr(l)), Box::new(clone_expr(r))),
        Expr::Let(d, body) => Expr::Let(Box::new(clone_decl(d)), Box::new(clone_expr(body))),
        Expr::FunCall(name, args) => {
            let mut copies: Vec<Expr> = Vec::new();
            let mut i: usize = 0;
            while i < args.len()
                invariant
                    i <= args.len(),
                    copies.len() == i,
                    e is FunCall,
                    e->FunCall_1 == *args,
                    forall|k: int| 0 <= k < i ==> (#[trigger] copies[k])@ == args[k]@,
                decreases args.len() - i,
            {
                assert(decreases_to!(*e => e->FunCall_1));
                assert(decreases_to!(e->FunCall_1 => e->FunCall_1[i as int]));
                let copy = clone_expr(&args[i]);
                copies.push(copy);
                i = i + 1;
            }
            let r = Expr::FunCall(name.clone(), copies);
            assert(r@->FunCall_1 =~= e@->FunCall_1);
            r
        },
    }
}

/// A copy of `d` with the same model.
pub fn clone_decl(d: &Decl) -> (r: Decl)
    ensures
        r@ == d@,
    decreases d,
{
    match d {
        Decl::VarDecl(name, value) => Decl::VarDecl(name.clone(), Box::new(clone_expr(value))),
        Decl::FunDecl(name, params, body) => Decl::FunDecl(
            name.clone(),
            clone_names(params),
            Box::new(clone_expr(body)),
        ),
    }
}

impl Clone for Expr {
    fn clone(&self) -> (r: Self)
        ensures
            r@ == self@,
    {
        clone_expr(self)
    }
}

impl Clone for Decl {
    fn clone(&self) -> (r: Self)
        ensures
            r@ == self@,
    {
        clone_decl(self)
    }
}

/// Whether two names are the same.
fn same_name(a: &String, b: &String) -> (r: bool)
    ensures
        r == (a@ == b@),
{
    *a == *b
}

/// Whether two lists of names are the same.
fn same_names(a: &Vec<String>, b: &Vec<String>) -> (r: bool)
    ensures
        r == (names_model(a@) == names_model(b@)),
{
    if a.len() != b.len() {
        assert(names_model(a@).len() != names_model(b@).len());
        return false;
    }
    let mut i: usize = 0;
    while i < a.len()
        invariant
            i <= a.len(),
            a.len() == b.len(),
            forall|k: int| 0 <= k < i ==> (#[trigger] a[k])@ == b[k]@,
        decreases a.len() - i,
    {
        if !same_name(&a[i], &b[i]) {
            assert(names_model(a@)[i as int] == a[i as int]@);
            assert(names_model(b@)[i as int] == b[i as int]@);
            return false;
        }
        i = i + 1;
    }
    assert(names_model(a@) =~= names_model(b@));
    true
}

/// Whether two expressions have the same model.
pub fn same_expr(a: &Expr, b: &Expr) -> (r: bool)
    ensures
        r == (a@ == b@),
    decreases a,
{
    match (a, b) {
        (Expr::Id(x), Expr::Id(y)) => same_name(x, y),
        (Expr::Numeral(x), Expr::Numeral(y)) => x.same(y),
        (Expr::Times(la, ra), Expr::Times(lb, rb)) => same_expr(la, lb) && same_expr(ra, rb),
        (Expr::Plus(la, ra), Expr::Plus(lb, rb)) => same_expr(la, lb) && same_expr(ra, rb),
        (Expr::Minus(la, ra), Expr::Minus(lb, rb)) => same_expr(la, lb) && same_expr(ra, rb),
        (Expr::Let(da, ea), Expr::Let(db, eb)) => same_decl(da, db) && same_expr(ea, eb),
        (Expr::FunCall(fa, args_a), Expr::FunCall(fb, args_b)) => {
            if !same_name(fa, fb) {
                return false;
            }
            if args_a.len() != args_b.len() {
                assert(a@->FunCall_1.len() != b@->FunCall_1.len());
                return false;
            }
            let mut i: usize = 0;
            while i < args_a.len()
                invariant
                    i <= args_a.len(),
                    args_a.len() == args_b.len(),
                    a is FunCall,
                    b is FunCall,
                    a->FunCall_1 == *args_a,
                    b->FunCall_1 == *args_b,
                    forall|k: int| 0 <= k < i ==> (#[trigger] args_a[k])@ == args_b[k]@,
                decreases args_a.len() - i,
            {
                assert(decreases_to!(*a => a->FunCall_1));
                assert(decreases_to!(a->FunCall_1 => a->FunCall_1[i as int]));
                if !same_expr(&args_a[i], &args_b[i]) {
                    assert(a@->FunCall_1[i as int] == args_a[i as int]@);
                    assert(b@->FunCall_1[i as int] == args_b[i as int]@);
                    return false;
                }
                i = i + 1;
            }
            assert(a@->FunCall_1 =~= b@->FunCall_1);
            true
        },
        _ => false,
    }
}

/// Whether two declarations have the same model.
pub fn same_decl(a: &Decl, b: &Decl) -> (r: bool)
    ensures
        r == (a@ == b@),
    decreases a,
{
    match (a, b) {
        (Decl::VarDecl(x, ea), Decl::VarDecl(y, eb)) => same_name(x, y) && same_expr(ea, eb),
        (Decl::FunDecl(fa, pa, ea), Decl::FunDecl(fb, pb, eb)) => same_name(fa, fb)
            && same_names(pa, pb) && same_expr(ea, eb),
        _ => false,
    }
}

/// Structural equality of two expressions: every constructor and every
/// field agree, and two calls agree only if they have the same number of
/// arguments.
pub fn expr_eq(e1: Expr, e2: Expr) -> (r: bool)
    ensures
        r == (e1@ == e2@),
        e1 == e2 ==> r,
        e1 is FunCall && e2 is FunCall && e1->FunCall_1.len() != e2->FunCall_1.len() ==> !r,
{
    assert(e1 is FunCall ==> e1@->FunCall_1.len() == e1->FunCall_1.len());
    assert(e2 is FunCall ==> e2@->FunCall_1.len() == e2->FunCall_1.len());
    same_expr(&e1, &e2)
}

/// Structural equality of two declarations.
pub fn decl_eq(d1: Decl, d2: Decl) -> (r: bool)
    ensures
        r == (d1@ == d2@),
        d1 == d2 ==> r,
{
    same_decl(&d1, &d2)
}

impl PartialEq for Expr {
    fn eq(&self, other: &Self) -> (r: bool) {
        same_expr(self, other)
    }
}

impl Eq for Expr {

}

impl vstd::std_specs::cmp::PartialEqSpecImpl for Expr {
    open spec fn obeys_eq_spec() -> bool {
        true
    }

    open spec fn eq_spec(&self, other: &Self) -> bool {
        self@ == other@
    }
}

impl PartialEq for Decl {
    fn eq(&self, other: &Self) -> (r: bool) {
        same_decl(self, other)
    }
}

impl Eq for Decl {

}

impl vstd::std_specs::cmp::PartialEqSpecImpl for Decl {
    open spec fn obeys_eq_spec() -> bool {
        true
    }

    open spec fn eq_spec(&self, other: &Self) -> bool {
        self@ == other@
    }
}

} // verus!
