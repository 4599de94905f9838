//! The syntax tree that the evaluator reads, its values, and their
//! structural equality.

use vstd::prelude::*;

verus! {

/// A value: a program that needs no further evaluation.
#[derive(Debug, Clone, Copy, PartialEq, Eq, Hash, Structural)]
pub enum Value {
    /// A number.
    Numeral(i64),
}

/// An expression.
#[derive(Debug, Hash)]
pub enum Expr {
    /// A reference to a name.
    Id(String),
    /// A number literal.
    Numeral(i64),
    /// Multiplication.
    Times(Box<Expr>, Box<Expr>),
    /// Addition.
    Plus(Box<Expr>, Box<Expr>),
    /// Subtraction.
    Minus(Box<Expr>, Box<Expr>),
    /// A definition, and the expression in whose scope it holds.
    Let(Box<Defn>, Box<Expr>),
    /// A call of a named function on its arguments, in order.
    Call(String, Vec<Expr>),
}

/// A definition.
#[derive(Debug, Hash)]
pub enum Defn {
    /// A variable and the expression that gives its value.
    VarDefn(String, Box<Expr>),
    /// A function: its name, the names of its parameters, and its body.
    FunDefn(String, Vec<String>, Box<Expr>),
}

/// What an environment holds under a name.
#[derive(Debug, Hash)]
pub enum EnvRecord {
    /// A function: the names of its parameters and its body, which is kept
    /// unevaluated.  No environment is kept with it.
    FunRecord(Vec<String>, Box<Expr>),
    /// The value of a variable.
    VarRecord(Value),
}

/// The mathematical model of an [`Expr`].
pub enum SpecExpr {
    Id(Seq<char>),
    Numeral(i64),
    Times(Box<SpecExpr>, Box<SpecExpr>),
    Plus(Box<SpecExpr>, Box<SpecExpr>),
    Minus(Box<SpecExpr>, Box<SpecExpr>),
    Let(Box<SpecDefn>, Box<SpecExpr>),
    Call(Seq<char>, Seq<SpecExpr>),
}

/// The mathematical model of a [`Defn`].
pub enum SpecDefn {
    VarDefn(Seq<char>, Box<SpecExpr>),
    FunDefn(Seq<char>, Seq<Seq<char>>, Box<SpecExpr>),
}

/// The mathematical model of an [`EnvRecord`].
pub enum SpecRecord {
    FunRecord(Seq<Seq<char>>, SpecExpr),
    VarRecord(Value),
}

/// The model of a list of names.
pub open spec fn names_model(names: Seq<String>) -> Seq<Seq<char>> {
    Seq::new(names.len(), |i: int| names[i]@)
}

/// The model of one expression.
pub open spec fn expr_model(e: Expr) -> SpecExpr
    decreases e,
{
    match e {
        Expr::Id(name) => SpecExpr::Id(name@),
        Expr::Numeral(n) => SpecExpr::Numeral(n),
        Expr::Times(l, r) => SpecExpr::Times(Box::new(expr_model(*l)), Box::new(expr_model(*r))),
        Expr::Plus(l, r) => SpecExpr::Plus(Box::new(expr_model(*l)), Box::new(expr_model(*r))),
        Expr::Minus(l, r) => SpecExpr::Minus(Box::new(expr_model(*l)), Box::new(expr_model(*r))),
        Expr::Let(d, body) => SpecExpr::Let(
            Box::new(defn_model(*d)),
            Box::new(expr_model(*body)),
        ),
        Expr::Call(name, args) => SpecExpr::Call(
            name@,
            Seq::new(
                args.len() as nat,
                |i: int|
                    if 0 <= i < args.len() {
                        expr_model(args[i])
                    } else {
                        SpecExpr::Numeral(0)
                    },
            ),
        ),
    }
}

/// The model of one definition.
pub open spec fn defn_model(d: Defn) -> SpecDefn
    decreases d,
{
    match d {
        Defn::VarDefn(name, value) => SpecDefn::VarDefn(name@, Box::new(expr_model(*value))),
        Defn::FunDefn(name, params, body) => SpecDefn::FunDefn(
            name@,
            names_model(params@),
            Box::new(expr_model(*body)),
        ),
    }
}

impl View for Expr {
    type V = SpecExpr;

    open spec fn view(&self) -> SpecExpr {
        expr_model(*self)
    }
}

impl View for Defn {
    type V = SpecDefn;

    open spec fn view(&self) -> SpecDefn {
        defn_model(*self)
    }
}

impl View for EnvRecord {
    type V = SpecRecord;

    open spec fn view(&self) -> SpecRecord {
        match self {
            EnvRecord::FunRecord(params, body) => SpecRecord::FunRecord(
                names_model(params@),
                expr_model(**body),
            ),
            EnvRecord::VarRecord(value) => SpecRecord::VarRecord(*value),
        }
    }
}

/// A copy of a list of names.
pub fn clone_names(names: &Vec<String>) -> (r: Vec<String>)
    ensures
        names_model(r@) == names_model(names@),
{
    let mut copies: Vec<String> = Vec::new();
    let mut i: usize = 0;
    while i < names.len()
        invariant
            i <= names.len(),
            copies.len() == i,
            forall|k: int| 0 <= k < i ==> (#[trigger] copies[k])@ == names[k]@,
        decreases names.len() - i,
    {
        copies.push(names[i].clone());
        i = i + 1;
    }
    assert(names_model(copies@) =~= names_model(names@));
    copies
}

/// A copy of `e` with the same model.
pub fn clone_expr(e: &Expr) -> (r: Expr)
    ensures
        r@ == e@,
    decreases e,
{
    match e {
        Expr::Id(name) => Expr::Id(name.clone()),
        Expr::Numeral(n) => Expr::Numeral(*n),
        Expr::Times(l, r) => Expr::Times(Box::new(clone_expr(l)), Box::new(clone_expr(r))),
        Expr::Plus(l, r) => Expr::Plus(Box::new(clone_expr(l)), Box::new(clone_expr(r))),
        Expr::Minus(l, r) => Expr::Minus(Box::new(clone_expr(l)), Box::new(clone_expr(r))),
        Expr::Let(d, body) => Expr::Let(Box::new(clone_defn(d)), Box::new(clone_expr(body))),
        Expr::Call(name, args) => {
            let mut copies: Vec<Expr> = Vec::new();
            let mut i: usize = 0;
            while i < args.len()
                invariant
                    i <= args.len(),
                    copies.len() == i,
                    e is Call,
                    e->Call_1 == *args,
                    forall|k: int| 0 <= k < i ==> (#[trigger] copies[k])@ == args[k]@,
                decreases args.len() - i,
            {
                assert(decreases_to!(*e => e->Call_1));
                assert(decreases_to!(e->Call_1 => e->Call_1[i as int]));
                let copy = clone_expr(&args[i]);
                copies.push(copy);
                i = i + 1;
            }
            let r = Expr::Call(name.clone(), copies);
            assert(r@->Call_1 =~= e@->Call_1);
            r
        },
    }
}

/// A copy of `d` with the same model.
pub fn clone_defn(d: &Defn) -> (r: Defn)
    ensures
        r@ == d@,
    decreases d,
{
    match d {
        Defn::VarDefn(name, value) => Defn::VarDefn(name.clone(), Box::new(clone_expr(value))),
        Defn::FunDefn(name, params, body) => Defn::FunDefn(
            name.clone(),
            clone_names(params),
            Box::new(clone_expr(body)),
        ),
    }
}

impl Clone for Expr {
    fn clone(&self) -> (r: Self)
        ensures
            r@ == self@,
    {
        clone_expr(self)
    }
}

impl Clone for Defn {
    fn clone(&self) -> (r: Self)
        ensures
            r@ == self@,
    {
        clone_defn(self)
    }
}

impl Clone for EnvRecord {
    fn clone(&self) -> (r: Self)
        ensures
            r@ == self@,
    {
        match self {
            EnvRecord::FunRecord(params, body) => EnvRecord::FunRecord(
                clone_names(params),
                Box::new(clone_expr(body)),
            ),
            EnvRecord::VarRecord(value) => EnvRecord::VarRecord(*value),
        }
    }
}

/// Whether two names are the same.
fn same_name(a: &String, b: &String) -> (r: bool)
    ensures
        r == (a@ == b@),
{
    *a == *b
}

/// Whether two lists of names are the same.
fn same_names(a: &Vec<String>, b: &Vec<String>) -> (r: bool)
    ensures
        r == (names_model(a@) == names_model(b@)),
{
    if a.len() != b.len() {
        assert(names_model(a@).len() != names_model(b@).len());
        return false;
    }
    let mut i: usize = 0;
    while i < a.len()
        invariant
            i <= a.len(),
            a.len() == b.len(),
            forall|k: int| 0 <= k < i ==> (#[trigger] a[k])@ == b[k]@,
        decreases a.len() - i,
    {
        if !same_name(&a[i], &b[i]) {
            assert(names_model(a@)[i as int] == a[i as int]@);
            assert(names_model(b@)[i as int] == b[i as int]@);
            return false;
        }
        i = i + 1;
    }
    assert(names_model(a@) =~= names_model(b@));
    true
}

/// Whether two expressions have the same model: every constructor and
/// every field agree.
pub fn same_expr(a: &Expr, b: &Expr) -> (r: bool)
    ensures
        r == (a@ == b@),
    decreases a,
{
    match (a, b) {
        (Expr::Id(x), Expr::Id(y)) => same_name(x, y),
        (Expr::Numeral(x), Expr::Numeral(y)) => *x == *y,
        (Expr::Times(la, ra), Expr::Times(lb, rb)) => same_expr(la, lb) && same_expr(ra, rb),
        (Expr::Plus(la, ra), Expr::Plus(lb, rb)) => same_expr(la, lb) && same_expr(ra, rb),
        (Expr::Minus(la, ra), Expr::Minus(lb, rb)) => same_expr(la, lb) && same_expr(ra, rb),
        (Expr::Let(da, ea), Expr::Let(db, eb)) => same_defn(da, db) && same_expr(ea, eb),
        (Expr::Call(fa, args_a), Expr::Call(fb, args_b)) => {
            if !same_name(fa, fb) {
                return false;
            }
            if args_a.len() != args_b.len() {
                assert(a@->Call_1.len() != b@->Call_1.len());
                return false;
            }
            let mut i: usize = 0;
            while i < args_a.len()
                invariant
                    i <= args_a.len(),
                    args_a.len() == args_b.len(),
                    a is Call,
                    b is Call,
                    a->Call_1 == *args_a,
                    b->Call_1 == *args_b,
                    forall|k: int| 0 <= k < i ==> (#[trigger] args_a[k])@ == args_b[k]@,
                decreases args_a.len() - i,
            {
                assert(decreases_to!(*a => a->Call_1));
                assert(decreases_to!(a->Call_1 => a->Call_1[i as int]));
                if !same_expr(&args_a[i], &args_b[i]) {
                    assert(a@->Call_1[i as int] == args_a[i as int]@);
                    assert(b@->Call_1[i as int] == args_b[i as int]@);
                    return false;
                }
                i = i + 1;
            }
            assert(a@->Call_1 =~= b@->Call_1);
            true
        },
        _ => false,
    }
}

/// Whether two definitions have the same model.
pub fn same_defn(a: &Defn, b: &Defn) -> (r: bool)
    ensures
        r == (a@ == b@),
    decreases a,
{
    match (a, b) {
        (Defn::VarDefn(x, ea), Defn::VarDefn(y, eb)) => same_name(x, y) && same_expr(ea, eb),
        (Defn::FunDefn(fa, pa, ea), Defn::FunDefn(fb, pb, eb)) => same_name(fa, fb)
            && same_names(pa, pb) && same_expr(ea, eb),
        _ => false,
    }
}

/// Whether two records have the same model.
pub fn same_record(a: &EnvRecord, b: &EnvRecord) -> (r: bool)
    ensures
        r == (a@ == b@),
{
    match (a, b) {
        (EnvRecord::FunRecord(pa, ea), EnvRecord::FunRecord(pb, eb)) => same_names(pa, pb)
            && same_expr(ea, eb),
        (EnvRecord::VarRecord(x), EnvRecord::VarRecord(y)) => *x == *y,
        _ => false,
    }
}

impl PartialEq for Expr {
    fn eq(&self, other: &Self) -> (r: bool) {
        same_expr(self, other)
    }
}

impl Eq for Expr {

}

impl vstd::std_specs::cmp::PartialEqSpecImpl for Expr {
    open spec fn obeys_eq_spec() -> bool {
        true
    }

    open spec fn eq_spec(&self, other: &Self) -> bool {
        self@ == other@
    }
}

impl PartialEq for Defn {
    fn eq(&self, other: &Self) -> (r: bool) {
        same_defn(self, other)
    }
}

impl Eq for Defn {

}

impl vstd::std_specs::cmp::PartialEqSpecImpl for Defn {
    open spec fn obeys_eq_spec() -> bool {
        true
    }

    open spec fn eq_spec(&self, other: &Self) -> bool {
        self@ == other@
    }
}

impl PartialEq for EnvRecord {
    fn eq(&self, other: &Self) -> (r: bool) {
        same_record(self, other)
    }
}

impl Eq for EnvRecord {

}

impl vstd::std_specs::cmp::PartialEqSpecImpl for EnvRecord {
    open spec fn obeys_eq_spec() -> bool {
        true
    }

    open spec fn eq_spec(&self, other: &Self) -> bool {
        self@ == other@
    }
}

} // verus!
