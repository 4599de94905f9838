//! The evaluation rules, and the evaluator that computes them.
//!
//! Scoping is dynamic: a function record keeps no environment, and the
//! body of a called function is evaluated in the environment of the call.
//! The arguments of a call are all evaluated in that environment, before
//! any parameter is bound.
//! Nothing raises an error: a name that is unbound, or bound to a function
//! where a value is asked for, evaluates to [`fallback`].

use super::ast::{
    clone_expr, clone_names, names_model, Defn, EnvRecord, Expr, SpecDefn, SpecExpr, SpecRecord,
    Value,
};
use super::env::Environment;
use vstd::prelude::*;

verus! {

/// An environment as the rules see it: the names in scope, each with its
/// record.
pub type Bindings = Map<Seq<char>, SpecRecord>;

/// How many calls may be nested, one inside the body of the other, when
/// [`eval_expr`] and [`eval_defn`] evaluate.
pub const CALL_DEPTH_LIMIT: usize = 1000;

/// The value that stands in where evaluation has none to give.
pub open spec fn fallback() -> Value {
    Value::Numeral(0)
}

/// The 64-bit two's complement number that is congruent to `x`.
pub open spec fn wrap(x: int) -> i64 {
    let low = x % 0x1_0000_0000_0000_0000;
    if low > i64::MAX {
        (low - 0x1_0000_0000_0000_0000) as i64
    } else {
        low as i64
    }
}

/// The product of two values.
pub open spec fn times(left: Value, right: Value) -> Value {
    Value::Numeral(wrap(left->0 * right->0))
}

/// The sum of two values.
pub open spec fn plus(left: Value, right: Value) -> Value {
    Value::Numeral(wrap(left->0 + right->0))
}

/// The difference of two values.
pub open spec fn minus(left: Value, right: Value) -> Value {
    Value::Numeral(wrap(left->0 - right->0))
}

/// What a reference to `name` evaluates to.
pub open spec fn value_of(env: Bindings, name: Seq<char>) -> Value {
    if env.contains_key(name) && env[name] is VarRecord {
        env[name]->VarRecord_0
    } else {
        fallback()
    }
}

/// `env` extended by a variable.
pub open spec fn bind_value(env: Bindings, name: Seq<char>, value: Value) -> Bindings {
    env.insert(name, SpecRecord::VarRecord(value))
}

/// The value of `e` in `env`, or `None` where reaching it takes more than
/// `depth` nested calls.
pub open spec fn eval(env: Bindings, e: SpecExpr, depth: nat) -> Option<Value>
    decreases depth, e, 0nat,
{
    match e {
        SpecExpr::Id(name) => Some(value_of(env, name)),
        SpecExpr::Numeral(n) => Some(Value::Numeral(n)),
        SpecExpr::Times(l, r) => match (eval(env, *l, depth), eval(env, *r, depth)) {
            (Some(left), Some(right)) => Some(times(left, right)),
            _ => None,
        },
        SpecExpr::Plus(l, r) => match (eval(env, *l, depth), eval(env, *r, depth)) {
            (Some(left), Some(right)) => Some(plus(left, right)),
            _ => None,
        },
        SpecExpr::Minus(l, r) => match (eval(env, *l, depth), eval(env, *r, depth)) {
            (Some(left), Some(right)) => Some(minus(left, right)),
            _ => None,
        },
        SpecExpr::Let(d, body) => match extend(env, *d, depth) {
            Some(inner) => eval(inner, *body, depth),
            None => None,
        },
        SpecExpr::Call(name, args) => if !env.contains_key(name) {
            Some(fallback())
        } else {
            match env[name] {
                SpecRecord::VarRecord(value) => Some(value),
                SpecRecord::FunRecord(params, body) => if depth == 0 {
                    None
                } else {
                    match bind_args(env, params, args, paired(params, args), depth) {
                        Some(inner) => eval(inner, body, (depth - 1) as nat),
                        None => None,
                    }
                },
            }
        },
    }
}

/// How many parameters get an argument: surplus arguments are dropped, and
/// surplus parameters stay unbound.
pub open spec fn paired(params: Seq<Seq<char>>, args: Seq<SpecExpr>) -> nat {
    if params.len() <= args.len() {
        params.len()
    } else {
        args.len()
    }
}

/// The environment of a call after the first `count` parameters are bound.
/// Every argument is evaluated in `env`, the environment of the caller; a
/// parameter that is bound earlier is not in scope in a later argument.
/// The values are bound one after the other, so that of two parameters of
/// one name the later one is in scope in the body.
pub open spec fn bind_args(
    env: Bindings,
    params: Seq<Seq<char>>,
    args: Seq<SpecExpr>,
    count: nat,
    depth: nat,
) -> Option<Bindings>
    decreases depth, args, count,
{
    if count == 0 || count > args.len() {
        Some(env)
    } else {
        match bind_args(env, params, args, (count - 1) as nat, depth) {
            Some(bound) => match eval(env, args[count - 1], depth) {
                Some(value) => Some(bind_value(bound, params[count - 1], value)),
                None => None,
            },
            None => None,
        }
    }
}

/// The environment that `d` extends `env` to, or `None` where reaching it
/// takes more than `depth` nested calls.
pub open spec fn extend(env: Bindings, d: SpecDefn, depth: nat) -> Option<Bindings>
    decreases depth, d, 0nat,
{
    match d {
        SpecDefn::VarDefn(name, value) => match eval(env, *value, depth) {
            Some(v) => Some(bind_value(env, name, v)),
            None => None,
        },
        SpecDefn::FunDefn(name, params, body) => Some(
            env.insert(name, SpecRecord::FunRecord(params, *body)),
        ),
    }
}

/// Binding a name again shadows the earlier binding and leaves the earlier
/// environment as it was: the name has its latest value in the new
/// environment and still its earlier value in the earlier one, and nothing
/// is left of the shadowed binding.
pub proof fn lemma_rebinding_shadows(
    env: Bindings,
    name: Seq<char>,
    first: Value,
    second: Value,
    depth: nat,
)
    ensures
        eval(bind_value(bind_value(env, name, first), name, second), SpecExpr::Id(name), depth)
            == Some(second),
        eval(bind_value(env, name, first), SpecExpr::Id(name), depth) == Some(first),
        bind_value(bind_value(env, name, first), name, second) == bind_value(env, name, second),
        forall|other: Seq<char>|
            other != name ==> eval(
                bind_value(bind_value(env, name, first), name, second),
                SpecExpr::Id(other),
                depth,
            ) == eval(env, SpecExpr::Id(other), depth),
{
    assert(bind_value(bind_value(env, name, first), name, second) =~= bind_value(
        env,
        name,
        second,
    ));
}

/// Every argument of a call is evaluated in the environment of the
/// caller: binding one more parameter binds it to the value that its
/// argument has in `env`, whatever the parameters before it are bound to.
pub proof fn lemma_arguments_see_the_caller(
    env: Bindings,
    params: Seq<Seq<char>>,
    args: Seq<SpecExpr>,
    count: nat,
    depth: nat,
)
    requires
        0 < count <= args.len(),
        bind_args(env, params, args, count, depth) is Some,
    ensures
        bind_args(env, params, args, (count - 1) as nat, depth) is Some,
        eval(env, args[count - 1], depth) is Some,
        bind_args(env, params, args, count, depth) == Some(
            bind_value(
                bind_args(env, params, args, (count - 1) as nat, depth)->0,
                params[count - 1],
                eval(env, args[count - 1], depth)->0,
            ),
        ),
{
}

/// A value that is reached with `depth` nested calls is reached with one
/// more, and is the same.
pub proof fn lemma_eval_one_deeper(env: Bindings, e: SpecExpr, depth: nat)
    requires
        eval(env, e, depth) is Some,
    ensures
        eval(env, e, depth + 1) == eval(env, e, depth),
    decreases depth, e, 0nat,
{
    match e {
        SpecExpr::Id(_) => {},
        SpecExpr::Numeral(_) => {},
        SpecExpr::Times(l, r) | SpecExpr::Plus(l, r) | SpecExpr::Minus(l, r) => {
            lemma_eval_one_deeper(env, *l, depth);
            lemma_eval_one_deeper(env, *r, depth);
        },
        SpecExpr::Let(d, body) => {
            lemma_extend_one_deeper(env, *d, depth);
            lemma_eval_one_deeper(extend(env, *d, depth)->0, *body, depth);
        },
        SpecExpr::Call(name, args) => {
            if env.contains_key(name) {
                match env[name] {
                    SpecRecord::VarRecord(_) => {},
                    SpecRecord::FunRecord(params, body) => {
                        let count = paired(params, args);
                        lemma_bind_args_one_deeper(env, params, args, count, depth);
                        let inner = bind_args(env, params, args, count, depth)->0;
                        lemma_eval_one_deeper(inner, body, (depth - 1) as nat);
                    },
                }
            }
        },
    }
}

/// An environment of a call that is reached with `depth` nested calls is
/// reached with one more, and is the same.
pub proof fn lemma_bind_args_one_deeper(
    env: Bindings,
    params: Seq<Seq<char>>,
    args: Seq<SpecExpr>,
    count: nat,
    depth: nat,
)
    requires
        bind_args(env, params, args, count, depth) is Some,
    ensures
        bind_args(env, params, args, count, depth + 1) == bind_args(
            env,
            params,
            args,
            count,
            depth,
        ),
    decreases depth, args, count,
{
    if !(count == 0 || count > args.len()) {
        lemma_bind_args_one_deeper(env, params, args, (count - 1) as nat, depth);
        lemma_eval_one_deeper(env, args[count - 1], depth);
    }
}

/// An extended environment that is reached with `depth` nested calls is
/// reached with one more, and is the same.
pub proof fn lemma_extend_one_deeper(env: Bindings, d: SpecDefn, depth: nat)
    requires
        extend(env, d, depth) is Some,
    ensures
        extend(env, d, depth + 1) == extend(env, d, depth),
    decreases depth, d, 0nat,
{
    match d {
        SpecDefn::VarDefn(_, value) => {
            lemma_eval_one_deeper(env, *value, depth);
        },
        SpecDefn::FunDefn(_, _, _) => {},
    }
}

/// The value of an expression does not depend on the limit: once `depth`
/// nested calls reach it, any greater limit gives the same value.
pub proof fn lemma_eval_is_stable(env: Bindings, e: SpecExpr, depth: nat, more: nat)
    requires
        eval(env, e, depth) is Some,
        depth <= more,
    ensures
        eval(env, e, more) == eval(env, e, depth),
    decreases more - depth,
{
    if depth < more {
        lemma_eval_is_stable(env, e, depth, (more - 1) as nat);
        lemma_eval_one_deeper(env, e, (more - 1) as nat);
    }
}

/// What [`eval_expr`] gives for `e` in `env`: the value of `e` where at
/// most [`CALL_DEPTH_LIMIT`] nested calls reach it, else the fallback.
pub open spec fn value_within_limit(env: Bindings, e: SpecExpr) -> Value {
    match eval(env, e, CALL_DEPTH_LIMIT as nat) {
        Some(value) => value,
        None => fallback(),
    }
}

/// What [`eval_defn`] extends `env` to.
pub open spec fn extension_within_limit(env: Bindings, d: SpecDefn) -> Bindings {
    match d {
        SpecDefn::VarDefn(name, value) => bind_value(env, name, value_within_limit(env, *value)),
        SpecDefn::FunDefn(name, params, body) => env.insert(
            name,
            SpecRecord::FunRecord(params, *body),
        ),
    }
}

/// The model of what the bounded evaluation of a definition gives.
pub open spec fn extension_model(answer: Option<Environment>) -> Option<Bindings> {
    match answer {
        Some(env) => Some(env@),
        None => None,
    }
}

fn value_times(left: Value, right: Value) -> (r: Value)
    ensures
        r == times(left, right),
{
    let Value::Numeral(a) = left;
    let Value::Numeral(b) = right;
    Value::Numeral(a.wrapping_mul(b))
}

fn value_plus(left: Value, right: Value) -> (r: Value)
    ensures
        r == plus(left, right),
{
    let Value::Numeral(a) = left;
    let Value::Numeral(b) = right;
    Value::Numeral(a.wrapping_add(b))
}

fn value_minus(left: Value, right: Value) -> (r: Value)
    ensures
        r == minus(left, right),
{
    let Value::Numeral(a) = left;
    let Value::Numeral(b) = right;
    Value::Numeral(a.wrapping_sub(b))
}

/// The single place where evaluation gives a value that the program did
/// not compute.
fn fallback_value() -> (r: Value)
    ensures
        r == fallback(),
{
    Value::Numeral(0)
}

/// Evaluates a definition in `env` with at most `depth` nested calls: the
/// extended environment, or `None` where more calls are needed.  `env` is
/// left as it was.
pub fn eval_defn_bounded(env: &Environment, d: &Defn, depth: usize) -> (r: Option<Environment>)
    ensures
        extension_model(r) == extend(env@, d@, depth as nat),
    decreases depth, d,
{
    match d {
        Defn::VarDefn(name, value) => match eval_expr_bounded(env, value, depth) {
            Some(v) => Some(env.insert(name.clone(), EnvRecord::VarRecord(v))),
            None => None,
        },
        Defn::FunDefn(name, params, body) => Some(
            env.insert(
                name.clone(),
                EnvRecord::FunRecord(clone_names(params), Box::new(clone_expr(body))),
            ),
        ),
    }
}

/// Evaluates an expression in `env` with at most `depth` nested calls: its
/// value, or `None` where more calls are needed.
pub fn eval_expr_bounded(env: &Environment, e: &Expr, depth: usize) -> (r: Option<Value>)
    ensures
        r == eval(env@, e@, depth as nat),
    decreases depth, e,
{
    match e {
        Expr::Id(name) => match env.get(name) {
            Some(EnvRecord::VarRecord(value)) => Some(*value),
            Some(EnvRecord::FunRecord(_, _)) => Some(fallback_value()),
            None => Some(fallback_value()),
        },
        Expr::Numeral(n) => Some(Value::Numeral(*n)),
        Expr::Times(l, r) => {
            let left = eval_expr_bounded(env, l, depth);
            let right = eval_expr_bounded(env, r, depth);
            match (left, right) {
                (Some(a), Some(b)) => Some(value_times(a, b)),
                _ => None,
            }
        },
        Expr::Plus(l, r) => {
            let left = eval_expr_bounded(env, l, depth);
            let right = eval_expr_bounded(env, r, depth);
            match (left, right) {
                (Some(a), Some(b)) => Some(value_plus(a, b)),
                _ => None,
            }
        },
        Expr::Minus(l, r) => {
            let left = eval_expr_bounded(env, l, depth);
            let right = eval_expr_bounded(env, r, depth);
            match (left, right) {
                (Some(a), Some(b)) => Some(value_minus(a, b)),
                _ => None,
            }
        },
        Expr::Let(d, body) => match eval_defn_bounded(env, d, depth) {
            Some(inner) => eval_expr_bounded(&inner, body, depth),
            None => None,
        },
        Expr::Call(name, args) => match env.get(name) {
            Some(EnvRecord::VarRecord(value)) => Some(*value),
            Some(EnvRecord::FunRecord(params, body)) => {
                if depth == 0 {
                    return None;
                }
                let count = if params.len() <= args.len() {
                    params.len()
                } else {
                    args.len()
                };
                let ghost spec_params = names_model(params@);
                let ghost spec_args = e@->Call_1;
                let mut inner = env.clone();
                let mut i: usize = 0;
                while i < count
                    invariant
                        i <= count,
                        count <= params.len(),
                        count <= args.len(),
                        depth > 0,
                        e is Call,
                        e->Call_0 == *name,
                        e->Call_1 == *args,
                        spec_params == names_model(params@),
                        spec_args == e@->Call_1,
                        count == paired(spec_params, spec_args),
                        env@.contains_key(name@),
                        env@[name@] == SpecRecord::FunRecord(spec_params, body@),
                        bind_args(env@, spec_params, spec_args, i as nat, depth as nat) == Some(
                            inner@,
                        ),
                    decreases count - i,
                {
                    assert(decreases_to!(*e => e->Call_1));
                    assert(decreases_to!(e->Call_1 => e->Call_1[i as int]));
                    assert(spec_args[i as int] == args[i as int]@);
                    match eval_expr_bounded(env, &args[i], depth) {
                        Some(v) => {
                            inner = inner.insert(params[i].clone(), EnvRecord::VarRecord(v));
                        },
                        None => {
                            assert(bind_args(
                                env@,
                                spec_params,
                                spec_args,
                                (i + 1) as nat,
                                depth as nat,
                            ) is None);
                            proof {
                                unbound_stays_unbound(
                                    env@,
                                    spec_params,
                                    spec_args,
                                    (i + 1) as nat,
                                    count as nat,
                                    depth as nat,
                                );
                            }
                            return None;
                        },
                    }
                    i = i + 1;
                }
                eval_expr_bounded(&inner, body, depth - 1)
            },
            None => Some(fallback_value()),
        },
    }
}

/// Once an argument needs more nested calls than `depth`, so does binding
/// any longer run of parameters.
proof fn unbound_stays_unbound(
    env: Bindings,
    params: Seq<Seq<char>>,
    args: Seq<SpecExpr>,
    failed: nat,
    count: nat,
    depth: nat,
)
    requires
        failed <= count <= args.len(),
        bind_args(env, params, args, failed, depth) is None,
    ensures
        bind_args(env, params, args, count, depth) is None,
    decreases count,
{
    if failed < count {
        unbound_stays_unbound(env, params, args, failed, (count - 1) as nat, depth);
    }
}

/// Evaluates an expression in `env`.  It gives the fallback value where
/// the program nests more than [`CALL_DEPTH_LIMIT`] calls.
pub fn eval_expr(env: &Environment, e: &Expr) -> (r: Value)
    ensures
        r == value_within_limit(env@, e@),
        forall|depth: nat|
            depth <= CALL_DEPTH_LIMIT && eval(env@, e@, depth) is Some ==> eval(env@, e@, depth)
                == Some(r),
{
    proof {
        assert forall|depth: nat|
            depth <= CALL_DEPTH_LIMIT && eval(env@, e@, depth) is Some implies eval(
            env@,
            e@,
            depth,
        ) == Some(value_within_limit(env@, e@)) by {
            lemma_eval_is_stable(env@, e@, depth, CALL_DEPTH_LIMIT as nat);
        }
    }
    match eval_expr_bounded(env, e, CALL_DEPTH_LIMIT) {
        Some(value) => value,
        None => fallback_value(),
    }
}

/// Evaluates a definition in `env`: the environment extended by what it
/// defines.  `env` is left as it was.
pub fn eval_defn(env: &Environment, d: &Defn) -> (r: Environment)
    ensures
        r@ == extension_within_limit(env@, d@),
{
    match d {
        Defn::VarDefn(name, value) => env.insert(
            name.clone(),
            EnvRecord::VarRecord(eval_expr(env, value)),
        ),
        Defn::FunDefn(name, params, body) => env.insert(
            name.clone(),
            EnvRecord::FunRecord(clone_names(params), Box::new(clone_expr(body))),
        ),
    }
}

} // verus!
