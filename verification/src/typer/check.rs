//! The typing rules, and the checker that decides them.

use super::ast::{params_model, Defn, Expr, SpecDefn, SpecExpr};
use super::context::Context;
use super::types::{clone_type, type_eq, SpecType, Type};
use vstd::prelude::*;

verus! {

/// A context as the rules see it: the names in scope, each with its type.
pub type Bindings = Map<Seq<char>, SpecType>;

/// `ctx` extended by the parameters in order: where two parameters share a
/// name, the later one is in scope.
pub open spec fn bind_params(ctx: Bindings, params: Seq<(Seq<char>, SpecType)>) -> Bindings
    decreases params.len(),
{
    if params.len() == 0 {
        ctx
    } else {
        bind_params(ctx, params.drop_last()).insert(params.last().0, params.last().1)
    }
}

/// The declared types of the parameters, in order.
pub open spec fn param_types(params: Seq<(Seq<char>, SpecType)>) -> Seq<SpecType> {
    Seq::new(params.len(), |i: int| params[i].1)
}

/// The type that a function definition declares for its name.
pub open spec fn declared_type(params: Seq<(Seq<char>, SpecType)>, result: SpecType) -> SpecType {
    SpecType::Function(param_types(params), Box::new(result))
}

/// The context in which the body of a function definition is typed: the
/// parameters are in scope, and over them the function's own name, so that
/// the body may call it.
pub open spec fn body_context(
    ctx: Bindings,
    name: Seq<char>,
    params: Seq<(Seq<char>, SpecType)>,
    result: SpecType,
) -> Bindings {
    bind_params(ctx, params).insert(name, declared_type(params, result))
}

/// Both operands of an arithmetic operator or a comparison are numbers.
pub open spec fn both_numbers(left: Option<SpecType>, right: Option<SpecType>) -> bool {
    left == Some(SpecType::Number) && right == Some(SpecType::Number)
}

/// The type of `e` in `ctx`, or `None` where `e` is ill-typed.
pub open spec fn type_of(ctx: Bindings, e: SpecExpr) -> Option<SpecType>
    decreases e,
{
    match e {
        SpecExpr::Id(name) => if ctx.contains_key(name) {
            Some(ctx[name])
        } else {
            None
        },
        SpecExpr::Numeral(_) => Some(SpecType::Number),
        SpecExpr::StringLiteral(_) => Some(SpecType::String),
        SpecExpr::True => Some(SpecType::Boolean),
        SpecExpr::False => Some(SpecType::Boolean),
        SpecExpr::Compare(l, _, r) => if both_numbers(type_of(ctx, *l), type_of(ctx, *r)) {
            Some(SpecType::Boolean)
        } else {
            None
        },
        SpecExpr::Times(l, r) | SpecExpr::Plus(l, r) | SpecExpr::Minus(l, r) => if both_numbers(
            type_of(ctx, *l),
            type_of(ctx, *r),
        ) {
            Some(SpecType::Number)
        } else {
            None
        },
        SpecExpr::Let(d, body) => match type_of_defn(ctx, *d) {
            Some((name, ty)) => type_of(ctx.insert(name, ty), *body),
            None => None,
        },
        SpecExpr::Call(name, args) => if !ctx.contains_key(name) {
            None
        } else {
            match ctx[name] {
                SpecType::Function(params, result) => if params.len() == args.len() && forall|
                    i: int,
                |
                    0 <= i < args.len() ==> type_of(ctx, #[trigger] args[i]) == Some(params[i]) {
                    Some(*result)
                } else {
                    None
                },
                other => Some(other),
            }
        },
    }
}

/// The name that `d` defines with its type in `ctx`, or `None` where `d`
/// is ill-typed.  The body of a function is typed, but its type is not
/// held against the declared result type.
pub open spec fn type_of_defn(ctx: Bindings, d: SpecDefn) -> Option<(Seq<char>, SpecType)>
    decreases d,
{
    match d {
        SpecDefn::VarDefn(name, value) => match type_of(ctx, *value) {
            Some(ty) => Some((name, ty)),
            None => None,
        },
        SpecDefn::FunDefn(name, params, result, body) => match type_of(
            body_context(ctx, name, params, result),
            *body,
        ) {
            Some(_) => Some((name, declared_type(params, result))),
            None => None,
        },
    }
}

/// Binding a name again shadows the earlier binding and leaves the earlier
/// context as it was: the name has its latest type in the new context and
/// still its earlier type in the earlier one, and nothing is left of the
/// shadowed binding.
pub proof fn lemma_rebinding_shadows(
    ctx: Bindings,
    name: Seq<char>,
    first: SpecType,
    second: SpecType,
)
    ensures
        type_of(ctx.insert(name, first).insert(name, second), SpecExpr::Id(name)) == Some(second),
        type_of(ctx.insert(name, first), SpecExpr::Id(name)) == Some(first),
        ctx.insert(name, first).insert(name, second) == ctx.insert(name, second),
        forall|other: Seq<char>|
            other != name ==> type_of(
                ctx.insert(name, first).insert(name, second),
                SpecExpr::Id(other),
            ) == type_of(ctx, SpecExpr::Id(other)),
{
    assert(ctx.insert(name, first).insert(name, second) =~= ctx.insert(name, second));
}

/// A call of a name whose type is no function type has that type, however
/// many arguments it has and whatever they are.
pub proof fn lemma_call_of_non_function(ctx: Bindings, name: Seq<char>, args: Seq<SpecExpr>)
    requires
        ctx.contains_key(name),
        !(ctx[name] is Function),
    ensures
        type_of(ctx, SpecExpr::Call(name, args)) == Some(ctx[name]),
{
}

/// Which parameter a name stands for: the last one of that name.
pub open spec fn last_param(params: Seq<(Seq<char>, SpecType)>, name: Seq<char>) -> Option<int>
    decreases params.len(),
{
    if params.len() == 0 {
        None
    } else if params.last().0 == name {
        Some(params.len() - 1)
    } else {
        last_param(params.drop_last(), name)
    }
}

/// In the context that the parameters extend, a name has the type of the
/// last parameter of that name, and where there is none, what it had
/// before.
pub proof fn lemma_bind_params(ctx: Bindings, params: Seq<(Seq<char>, SpecType)>, name: Seq<char>)
    ensures
        match last_param(params, name) {
            Some(i) => {
                &&& 0 <= i < params.len()
                &&& params[i].0 == name
                &&& forall|j: int| i < j < params.len() ==> (#[trigger] params[j]).0 != name
                &&& type_of(bind_params(ctx, params), SpecExpr::Id(name)) == Some(params[i].1)
            },
            None => {
                &&& forall|j: int| 0 <= j < params.len() ==> (#[trigger] params[j]).0 != name
                &&& type_of(bind_params(ctx, params), SpecExpr::Id(name)) == type_of(
                    ctx,
                    SpecExpr::Id(name),
                )
            },
        },
    decreases params.len(),
{
    if params.len() > 0 && params.last().0 != name {
        let shorter = params.drop_last();
        lemma_bind_params(ctx, shorter, name);
        assert forall|j: int| 0 <= j < shorter.len() implies shorter[j] == params[j] by {}
        match last_param(shorter, name) {
            Some(i) => {
                assert(shorter[i] == params[i]);
                assert forall|j: int| i < j < params.len() implies (#[trigger] params[j]).0
                    != name by {
                    if j < shorter.len() {
                        assert(shorter[j] == params[j]);
                    }
                }
            },
            None => {
                assert forall|j: int| 0 <= j < params.len() implies (#[trigger] params[j]).0
                    != name by {
                    if j < shorter.len() {
                        assert(shorter[j] == params[j]);
                    }
                }
            },
        }
    }
}

/// The model of a checker's answer for an expression.
pub open spec fn answer_model(answer: Option<Type>) -> Option<SpecType> {
    match answer {
        Some(ty) => Some(ty@),
        None => None,
    }
}

/// The model of a checker's answer for a definition.
pub open spec fn binding_model(answer: Option<(String, Type)>) -> Option<(Seq<char>, SpecType)> {
    match answer {
        Some((name, ty)) => Some((name@, ty@)),
        None => None,
    }
}

/// Whether a checker's answer is the type of numbers.
fn is_number(answer: &Option<Type>) -> (r: bool)
    ensures
        r == (answer_model(*answer) == Some(SpecType::Number)),
{
    match answer {
        Some(Type::Number) => true,
        _ => false,
    }
}

/// Types a definition in `con`: the name it defines with its type, or
/// `None` where it is ill-typed.
pub fn type_check_defn(con: &Context, d: &Defn) -> (r: Option<(String, Type)>)
    ensures
        binding_model(r) == type_of_defn(con@, d@),
    decreases d,
{
    match d {
        Defn::VarDefn(var, val) => match type_check_expr(con, val) {
            Some(ty) => Some((var.clone(), ty)),
            None => None,
        },
        Defn::FunDefn(func, params, result, body) => {
            let mut declared: Vec<Type> = Vec::new();
            let mut updated_con = con.clone();
            let mut i: usize = 0;
            while i < params.len()
                invariant
                    i <= params.len(),
                    declared.len() == i,
                    forall|k: int| 0 <= k < i ==> (#[trigger] declared[k])@ == params[k].1@,
                    updated_con@ == bind_params(con@, params_model(params@).take(i as int)),
                decreases params.len() - i,
            {
                let ghost before = params_model(params@).take(i as int);
                let ghost after = params_model(params@).take(i + 1);
                assert(after.drop_last() == before);
                declared.push(clone_type(&params[i].1));
                updated_con = updated_con.insert(params[i].0.clone(), clone_type(&params[i].1));
                i = i + 1;
            }
            assert(params_model(params@).take(i as int) == params_model(params@));
            let fun_type = Type::Function(declared, Box::new(clone_type(result)));
            assert(fun_type@ == declared_type(params_model(params@), result@)) by {
                assert(fun_type@->Function_0 =~= param_types(params_model(params@)));
            }
            updated_con = updated_con.insert(func.clone(), clone_type(&fun_type));
            match type_check_expr(&updated_con, body) {
                Some(_) => Some((func.clone(), fun_type)),
                None => None,
            }
        },
    }
}

/// Types an expression in `con`: its type, or `None` where it is ill-typed.
pub fn type_check_expr(con: &Context, e: &Expr) -> (r: Option<Type>)
    ensures
        answer_model(r) == type_of(con@, e@),
    decreases e,
{
    match e {
        Expr::Id(name) => match con.get(name) {
            Some(ty) => Some(clone_type(ty)),
            None => None,
        },
        Expr::Numeral(_) => Some(Type::Number),
        Expr::StringLiteral(_) => Some(Type::String),
        Expr::True => Some(Type::Boolean),
        Expr::False => Some(Type::Boolean),
        Expr::Compare(l, _, r) => {
            let left = type_check_expr(con, l);
            let right = type_check_expr(con, r);
            if is_number(&left) && is_number(&right) {
                Some(Type::Boolean)
            } else {
                None
            }
        },
        Expr::Times(l, r) => {
            let left = type_check_expr(con, l);
            let right = type_check_expr(con, r);
            if is_number(&left) && is_number(&right) {
                Some(Type::Number)
            } else {
                None
            }
        },
        Expr::Plus(l, r) => {
            let left = type_check_expr(con, l);
            let right = type_check_expr(con, r);
            if is_number(&left) && is_number(&right) {
                Some(Type::Number)
            } else {
                None
            }
        },
        Expr::Minus(l, r) => {
            let left = type_check_expr(con, l);
            let right = type_check_expr(con, r);
            if is_number(&left) && is_number(&right) {
                Some(Type::Number)
            } else {
                None
            }
        },
        Expr::Let(d, body) => match type_check_defn(con, d) {
            Some((name, ty)) => {
                let updated_con = con.insert(name, ty);
                type_check_expr(&updated_con, body)
            },
            None => None,
        },
        Expr::Call(name, args) => match con.get(name) {
            Some(Type::Function(params, result)) => {
                if params.len() != args.len() {
                    return None;
                }
                let mut i: usize = 0;
                while i < args.len()
                    invariant
                        i <= args.len(),
                        params.len() == args.len(),
                        e is Call,
                        e->Call_0 == *name,
                        e->Call_1 == *args,
                        con@.contains_key(name@),
                        con@[name@] is Function,
                        con@[name@]->Function_0 == Type::Function(*params, *result)@->Function_0,
                        forall|k: int|
                            0 <= k < i ==> type_of(con@, #[trigger] e@->Call_1[k]) == Some(
                                params[k]@,
                            ),
                    decreases args.len() - i,
                {
                    assert(decreases_to!(*e => e->Call_1));
                    assert(decreases_to!(e->Call_1 => e->Call_1[i as int]));
                    let found = type_check_expr(con, &args[i]);
                    let agrees = match &found {
                        Some(ty) => type_eq(&params[i], ty),
                        None => false,
                    };
                    if !agrees {
                        assert(e@->Call_1[i as int] == args[i as int]@);
                        assert(con@[name@]->Function_0[i as int] == params[i as int]@);
                        return None;
                    }
                    i = i + 1;
                }
                assert forall|k: int| 0 <= k < e@->Call_1.len() implies type_of(
                    con@,
                    #[trigger] e@->Call_1[k],
                ) == Some(con@[name@]->Function_0[k]) by {
                    assert(con@[name@]->Function_0[k] == params[k]@);
                }
                Some(clone_type(result))
            },
            Some(other) => Some(clone_type(other)),
            None => None,
        },
    }
}

} // verus!
