//! The types of the language and their structural equality.

use vstd::prelude::*;

verus! {

/// The mathematical model of a [`Type`].
pub enum SpecType {
    Number,
    String,
    Boolean,
    Function(Seq<SpecType>, Box<SpecType>),
}

/// The type that the checker derives for a well-typed program.
#[derive(Debug, Hash)]
pub enum Type {
    /// The type of numerals and of arithmetic.
    Number,
    /// The type of string literals.
    String,
    /// The type of truth values and of comparisons.
    Boolean,
    /// The type of a function: its parameter types in order, and its result type.
    Function(Vec<Type>, Box<Type>),
}

/// The model of one type.
pub open spec fn type_model(t: Type) -> SpecType
    decreases t,
{
    match t {
        Type::Number => SpecType::Number,
        Type::String => SpecType::String,
        Type::Boolean => SpecType::Boolean,
        Type::Function(params, result) => SpecType::Function(
            Seq::new(
                params.len() as nat,
                |i: int|
                    if 0 <= i < params.len() {
                        type_model(params[i])
                    } else {
                        SpecType::Number
                    },
            ),
            Box::new(type_model(*result)),
        ),
    }
}

impl View for Type {
    type V = SpecType;

    open spec fn view(&self) -> SpecType {
        type_model(*self)
    }
}

/// A copy of `t` with the same model.
pub fn clone_type(t: &Type) -> (r: Type)
    ensures
        r@ == t@,
    decreases t,
{
    match t {
        Type::Number => Type::Number,
        Type::String => Type::String,
        Type::Boolean => Type::Boolean,
        Type::Function(params, result) => {
            let mut copies: Vec<Type> = Vec::new();
            let mut i: usize = 0;
            while i < params.len()
                invariant
                    i <= params.len(),
                    copies.len() == i,
                    *t == Type::Function(*params, *result),
                    forall|k: int| 0 <= k < i ==> (#[trigger] copies[k])@ == params[k]@,
                decreases params.len() - i,
            {
                proof {
                    assert(decreases_to!(*t => t->Function_0));
                    assert(decreases_to!(t->Function_0 => t->Function_0[i as int]));
                }
                let copy = clone_type(&params[i]);
                copies.push(copy);
                i = i + 1;
            }
            let r = Type::Function(copies, Box::new(clone_type(result)));
            assert(r@->Function_0 =~= t@->Function_0);
            r
        },
    }
}

impl Clone for Type {
    fn clone(&self) -> (r: Self)
        ensures
            r@ == self@,
    {
        clone_type(self)
    }
}

/// Structural equality of two types: the same constructor, the same
/// parameter types in the same number and order, the same result type.
pub fn type_eq(a: &Type, b: &Type) -> (r: bool)
    ensures
        r == (a@ == b@),
    decreases a,
{
    match (a, b) {
        (Type::Number, Type::Number) => true,
        (Type::String, Type::String) => true,
        (Type::Boolean, Type::Boolean) => true,
        (Type::Function(pa, ra), Type::Function(pb, rb)) => {
            if pa.len() != pb.len() {
                assert(a@->Function_0.len() != b@->Function_0.len());
                return false;
            }
            let mut i: usize = 0;
            while i < pa.len()
                invariant
                    i <= pa.len(),
                    pa.len() == pb.len(),
                    *a == Type::Function(*pa, *ra),
                    *b == Type::Function(*pb, *rb),
                    forall|k: int| 0 <= k < i ==> (#[trigger] pa[k])@ == pb[k]@,
                decreases pa.len() - i,
            {
                if !type_eq(&pa[i], &pb[i]) {
                    assert(a@->Function_0[i as int] == pa[i as int]@);
                    assert(b@->Function_0[i as int] == pb[i as int]@);
                    return false;
                }
                i = i + 1;
            }
            assert(a@->Function_0 =~= b@->Function_0);
            type_eq(ra, rb)
        },
        _ => false,
    }
}

impl PartialEq for Type {
    fn eq(&self, other: &Self) -> (r: bool) {
        type_eq(self, other)
    }
}

impl Eq for Type {

}

impl vstd::std_specs::cmp::PartialEqSpecImpl for Type {
    open spec fn obeys_eq_spec() -> bool {
        true
    }

    open spec fn eq_spec(&self, other: &Self) -> bool {
        self@ == other@
    }
}

} // verus!
