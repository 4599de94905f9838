use toi_lang::evaluator::{
    eval_defn, eval_defn_bounded, eval_expr, eval_expr_bounded, Defn, EnvRecord, Environment, Expr,
    Value, CALL_DEPTH_LIMIT,
};

fn num(n: i64) -> Expr {
    Expr::Numeral(n)
}

fn name(text: &str) -> Expr {
    Expr::Id(text.to_string())
}

fn times(l: Expr, r: Expr) -> Expr {
    Expr::Times(Box::new(l), Box::new(r))
}

fn plus(l: Expr, r: Expr) -> Expr {
    Expr::Plus(Box::new(l), Box::new(r))
}

fn minus(l: Expr, r: Expr) -> Expr {
    Expr::Minus(Box::new(l), Box::new(r))
}

fn let_in(d: Defn, body: Expr) -> Expr {
    Expr::Let(Box::new(d), Box::new(body))
}

fn var_defn(x: &str, value: Expr) -> Defn {
    Defn::VarDefn(x.to_string(), Box::new(value))
}

fn fun_defn(f: &str, params: &[&str], body: Expr) -> Defn {
    Defn::FunDefn(f.to_string(), params.iter().map(|p| p.to_string()).collect(), Box::new(body))
}

fn call(f: &str, args: Vec<Expr>) -> Expr {
    Expr::Call(f.to_string(), args)
}

fn value_in_empty(e: Expr) -> Value {
    eval_expr(&Environment::new(), &e)
}

#[test]
fn numerals_and_arithmetic_evaluate() {
    assert_eq!(value_in_empty(num(3)), Value::Numeral(3));
    assert_eq!(value_in_empty(times(num(3), num(5))), Value::Numeral(15));
    assert_eq!(value_in_empty(plus(num(3), num(5))), Value::Numeral(8));
    assert_eq!(value_in_empty(minus(num(3), num(5))), Value::Numeral(-2));
}

#[test]
fn let_binds_a_variable() {
    let square = let_in(var_defn("x", num(10)), times(name("x"), name("x")));
    assert_eq!(value_in_empty(square), Value::Numeral(100));
    let difference = minus(
        let_in(var_defn("x", num(10)), times(name("x"), name("x"))),
        let_in(var_defn("x", num(20)), times(name("x"), name("x"))),
    );
    assert_eq!(value_in_empty(difference), Value::Numeral(-300));
}

#[test]
fn definitions_extend_the_environment() {
    let empty = Environment::new();
    let first = eval_defn(&empty, &var_defn("x", num(2)));
    assert_eq!(first.get(&"x".to_string()), Some(&EnvRecord::VarRecord(Value::Numeral(2))));
    assert_eq!(first.get(&"z".to_string()), None);
    let second = eval_defn(&empty, &var_defn("z", plus(num(2), num(2))));
    assert_eq!(second.get(&"z".to_string()), Some(&EnvRecord::VarRecord(Value::Numeral(4))));
    assert_eq!(second.get(&"x".to_string()), None);
    let third = eval_defn(&empty, &fun_defn("f", &["a", "b"], plus(name("a"), name("b"))));
    assert_eq!(
        third.get(&"f".to_string()),
        Some(&EnvRecord::FunRecord(
            vec!["a".to_string(), "b".to_string()],
            Box::new(plus(name("a"), name("b")))
        ))
    );
    assert_eq!(empty.get(&"x".to_string()), None);
    assert_eq!(empty.get(&"f".to_string()), None);
}

#[test]
fn functions_are_called() {
    let sq = fun_defn("sq", &["x"], times(name("x"), name("x")));
    assert_eq!(
        value_in_empty(let_in(sq.clone(), call("sq", vec![num(4)]))),
        Value::Numeral(16)
    );
    assert_eq!(
        value_in_empty(let_in(sq, call("sq", vec![call("sq", vec![num(4)])]))),
        Value::Numeral(256)
    );
    let f = fun_defn("f", &["a"], plus(name("a"), num(2)));
    assert_eq!(
        value_in_empty(let_in(f, times(call("f", vec![num(3)]), call("f", vec![num(5)])))),
        Value::Numeral(35)
    );
    let g = fun_defn("f", &["c"], plus(num(5), name("c")));
    assert_eq!(
        value_in_empty(times(
            let_in(g.clone(), call("f", vec![num(5)])),
            let_in(g.clone(), call("f", vec![num(10)])),
        )),
        Value::Numeral(150)
    );
    assert_eq!(
        value_in_empty(let_in(
            g,
            call("f", vec![call("f", vec![call("f", vec![num(10)])])])
        )),
        Value::Numeral(25)
    );
}

#[test]
fn functions_defined_in_functions_are_called() {
    let inner = fun_defn("g", &["b"], minus(num(0), name("b")));
    let outer = fun_defn(
        "f",
        &["a"],
        let_in(inner.clone(), call("g", vec![times(num(2), name("a"))])),
    );
    assert_eq!(value_in_empty(let_in(outer, call("f", vec![num(5)]))), Value::Numeral(-10));
    let double = fun_defn("f", &["a"], times(num(2), name("a")));
    assert_eq!(
        value_in_empty(let_in(
            double,
            let_in(inner, call("f", vec![call("g", vec![num(2)])]))
        )),
        Value::Numeral(-4)
    );
}

#[test]
fn unbound_names_evaluate_to_zero() {
    assert_eq!(value_in_empty(name("undefined")), Value::Numeral(0));
    assert_eq!(value_in_empty(call("undefined", vec![num(1)])), Value::Numeral(0));
    assert_eq!(value_in_empty(plus(name("undefined"), num(7))), Value::Numeral(7));
}

#[test]
fn a_function_used_as_a_value_evaluates_to_zero() {
    let f = fun_defn("f", &["a"], num(9));
    assert_eq!(value_in_empty(let_in(f, plus(name("f"), num(1)))), Value::Numeral(1));
}

#[test]
fn calling_a_variable_gives_its_value() {
    let e = let_in(var_defn("x", num(42)), call("x", vec![num(1), num(2)]));
    assert_eq!(value_in_empty(e), Value::Numeral(42));
}

#[test]
fn the_call_site_decides_what_a_free_name_means() {
    // f reads y, which is free in it.  Each call sees the y of its own place.
    let f = fun_defn("f", &[], name("y"));
    let e = let_in(
        var_defn("y", num(1)),
        let_in(
            f,
            plus(
                call("f", vec![]),
                let_in(var_defn("y", num(10)), call("f", vec![])),
            ),
        ),
    );
    assert_eq!(value_in_empty(e), Value::Numeral(11));
}

#[test]
fn a_parameter_of_the_caller_is_in_scope_in_the_callee() {
    // g reads a, the parameter of f.  Called from the body of f it finds it;
    // called from outside, where a is unbound, it finds zero.
    let g = fun_defn("g", &[], name("a"));
    let f = fun_defn("f", &["a"], call("g", vec![]));
    let inside = let_in(g.clone(), let_in(f, call("f", vec![num(7)])));
    assert_eq!(value_in_empty(inside), Value::Numeral(7));
    let outside = let_in(g, call("g", vec![]));
    assert_eq!(value_in_empty(outside), Value::Numeral(0));
}

#[test]
fn surplus_arguments_are_dropped_and_missing_ones_stay_unbound() {
    let f = fun_defn("f", &["a", "b"], plus(name("a"), name("b")));
    assert_eq!(
        value_in_empty(let_in(f.clone(), call("f", vec![num(1), num(2), num(3)]))),
        Value::Numeral(3)
    );
    assert_eq!(value_in_empty(let_in(f.clone(), call("f", vec![num(1)]))), Value::Numeral(1));
    let with_b = let_in(var_defn("b", num(100)), let_in(f, call("f", vec![num(1)])));
    assert_eq!(value_in_empty(with_b), Value::Numeral(101));
}

#[test]
fn arguments_are_evaluated_where_the_call_stands() {
    let f = fun_defn("f", &["a", "b"], name("b"));
    let e = let_in(var_defn("a", num(1)), let_in(f, call("f", vec![num(5), name("a")])));
    assert_eq!(value_in_empty(e), Value::Numeral(1));
    let g = fun_defn("f", &["a", "b"], name("b"));
    let e = let_in(var_defn("a", num(10)), let_in(g, call("f", vec![num(1), name("a")])));
    assert_eq!(value_in_empty(e), Value::Numeral(10));
    let unbound = let_in(
        fun_defn("f", &["a", "b"], plus(name("a"), name("b"))),
        call("f", vec![num(3), name("a")]),
    );
    assert_eq!(value_in_empty(unbound), Value::Numeral(3));
}

#[test]
fn of_two_parameters_of_one_name_the_later_is_in_scope() {
    let f = fun_defn("f", &["a", "a"], name("a"));
    let e = let_in(f, call("f", vec![num(1), num(2)]));
    assert_eq!(value_in_empty(e), Value::Numeral(2));
}

#[test]
fn arithmetic_wraps_around() {
    assert_eq!(value_in_empty(plus(num(i64::MAX), num(1))), Value::Numeral(i64::MIN));
    assert_eq!(value_in_empty(minus(num(i64::MIN), num(1))), Value::Numeral(i64::MAX));
    assert_eq!(value_in_empty(times(num(i64::MAX), num(2))), Value::Numeral(-2));
    assert_eq!(value_in_empty(times(num(i64::MIN), num(-1))), Value::Numeral(i64::MIN));
}

#[test]
fn endless_recursion_ends_in_the_fallback() {
    let f = fun_defn("f", &["x"], call("f", vec![name("x")]));
    let e = let_in(f, call("f", vec![num(1)]));
    let empty = Environment::new();
    assert_eq!(eval_expr(&empty, &e), Value::Numeral(0));
    assert_eq!(eval_expr_bounded(&empty, &e, CALL_DEPTH_LIMIT), None);
    assert_eq!(eval_expr_bounded(&empty, &e, 0), None);
    let d = var_defn("v", e);
    assert!(eval_defn_bounded(&empty, &d, 5).is_none());
    let bound = eval_defn(&empty, &d);
    assert_eq!(bound.get(&"v".to_string()), Some(&EnvRecord::VarRecord(Value::Numeral(0))));
}

#[test]
fn the_depth_counts_nested_calls() {
    let one = fun_defn("one", &[], num(1));
    let two = fun_defn("two", &[], plus(call("one", vec![]), call("one", vec![])));
    let e = let_in(one, let_in(two, call("two", vec![])));
    let empty = Environment::new();
    assert_eq!(eval_expr_bounded(&empty, &e, 0), None);
    assert_eq!(eval_expr_bounded(&empty, &e, 1), None);
    assert_eq!(eval_expr_bounded(&empty, &e, 2), Some(Value::Numeral(2)));
    assert_eq!(eval_expr_bounded(&empty, &e, 3), Some(Value::Numeral(2)));
    assert_eq!(eval_expr_bounded(&empty, &num(5), 0), Some(Value::Numeral(5)));
}

#[test]
fn a_later_binding_shadows_and_the_old_environment_stays() {
    let empty = Environment::new();
    let x = "x".to_string();
    let first = empty.insert(x.clone(), EnvRecord::VarRecord(Value::Numeral(1)));
    let second = first.insert(x.clone(), EnvRecord::VarRecord(Value::Numeral(2)));
    assert_eq!(second.get(&x), Some(&EnvRecord::VarRecord(Value::Numeral(2))));
    assert_eq!(first.get(&x), Some(&EnvRecord::VarRecord(Value::Numeral(1))));
    assert_eq!(empty.get(&x), None);
    assert_eq!(eval_expr(&first, &name("x")), Value::Numeral(1));
    assert_eq!(eval_expr(&second, &name("x")), Value::Numeral(2));
    let copy = first.clone();
    assert_eq!(copy.get(&x), Some(&EnvRecord::VarRecord(Value::Numeral(1))));
    let bounded = eval_defn_bounded(&first, &var_defn("x", plus(name("x"), num(10))), 0).unwrap();
    assert_eq!(bounded.get(&x), Some(&EnvRecord::VarRecord(Value::Numeral(11))));
    assert_eq!(first.get(&x), Some(&EnvRecord::VarRecord(Value::Numeral(1))));
}

#[test]
fn copies_are_equal() {
    let e = let_in(
        fun_defn("f", &["a", "b"], plus(name("a"), name("b"))),
        call("f", vec![num(1), times(num(2), name("q"))]),
    );
    assert_eq!(e.clone(), e);
    let record = EnvRecord::FunRecord(vec!["a".to_string()], Box::new(name("a")));
    assert_eq!(record.clone(), record);
}

#[test]
fn definitions_give_the_expected_environment() {
    let empty = Environment::new();
    let x2 = Environment::new().insert("x".to_string(), EnvRecord::VarRecord(Value::Numeral(2)));
    assert!(eval_defn(&empty, &var_defn("x", num(2))) == x2);
    let z4 = Environment::new().insert("z".to_string(), EnvRecord::VarRecord(Value::Numeral(4)));
    assert!(eval_defn(&empty, &var_defn("z", plus(num(2), num(2)))) == z4);
    assert!(eval_defn(&empty, &var_defn("z", plus(num(2), num(2)))) != x2);
    assert!(eval_defn_bounded(&empty, &var_defn("x", num(2)), 0).unwrap() == x2);
}

#[test]
fn environments_are_equal_when_they_bind_the_same() {
    let x = "x".to_string();
    let y = "y".to_string();
    let one = EnvRecord::VarRecord(Value::Numeral(1));
    let two = EnvRecord::VarRecord(Value::Numeral(2));
    let f = EnvRecord::FunRecord(vec![x.clone()], Box::new(name("x")));
    let g = EnvRecord::FunRecord(vec![y.clone()], Box::new(name("x")));
    let empty = Environment::new();
    assert!(empty == Environment::new());
    let a = empty.insert(x.clone(), one.clone()).insert(y.clone(), f.clone());
    let b = empty.insert(y.clone(), f.clone()).insert(x.clone(), one.clone());
    assert!(a == b);
    assert!(a == a.clone());
    assert!(a != empty);
    assert!(a != empty.insert(x.clone(), one.clone()));
    assert!(a != a.insert(x.clone(), two.clone()));
    assert!(a != empty.insert(x.clone(), one.clone()).insert(y.clone(), g));
    assert!(a.insert(x.clone(), two.clone()).insert(x.clone(), one.clone()) == a);
    assert!(a != a.insert("z".to_string(), two));
}

#[test]
fn the_size_counts_the_names() {
    let x = "x".to_string();
    let one = EnvRecord::VarRecord(Value::Numeral(1));
    let empty = Environment::new();
    assert_eq!(empty.size(), 0);
    let first = empty.insert(x.clone(), one.clone());
    assert_eq!(first.size(), 1);
    assert_eq!(first.insert(x.clone(), one.clone()).size(), 1);
    assert_eq!(first.insert("y".to_string(), one).size(), 2);
    assert_eq!(empty.size(), 0);
}

#[test]
fn the_names_are_those_that_are_bound() {
    let one = EnvRecord::VarRecord(Value::Numeral(1));
    let empty = Environment::new();
    assert_eq!(empty.names(), Vec::<String>::new());
    let env = empty
        .insert("b".to_string(), one.clone())
        .insert("a".to_string(), one.clone())
        .insert("c".to_string(), one.clone())
        .insert("a".to_string(), one);
    let mut names = env.names();
    names.sort();
    assert_eq!(names, vec!["a".to_string(), "b".to_string(), "c".to_string()]);
}

#[test]
fn syntax_trees_are_compared_by_every_field() {
    let f = |params: &[&str], arg: i64| {
        let_in(fun_defn("f", params, plus(name("a"), name("b"))), call("f", vec![num(arg)]))
    };
    assert_eq!(f(&["a", "b"], 1), f(&["a", "b"], 1));
    assert_ne!(f(&["a", "b"], 1), f(&["a", "b"], 2));
    assert_ne!(f(&["a", "b"], 1), f(&["a"], 1));
    assert_ne!(f(&["a", "b"], 1), f(&["a", "c"], 1));
    assert_ne!(call("f", vec![num(1)]), call("f", vec![num(1), num(2)]));
    assert_ne!(call("f", vec![num(1)]), call("g", vec![num(1)]));
    assert_ne!(plus(num(1), num(2)), minus(num(1), num(2)));
    assert_ne!(times(num(1), num(2)), times(num(2), num(1)));
    assert_ne!(name("x"), num(1));
    assert_ne!(var_defn("x", num(1)), var_defn("y", num(1)));
    assert_ne!(var_defn("f", num(1)), fun_defn("f", &[], num(1)));
    assert_ne!(
        EnvRecord::VarRecord(Value::Numeral(1)),
        EnvRecord::FunRecord(vec![], Box::new(num(1)))
    );
}
