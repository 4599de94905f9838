use toi_lang::typer::{
    type_check_defn, type_check_expr, Comparison, Context, Defn, Expr, Type,
};

fn num(n: i64) -> Expr {
    Expr::Numeral(n)
}

fn name(text: &str) -> Expr {
    Expr::Id(text.to_string())
}

fn text(t: &str) -> Expr {
    Expr::StringLiteral(t.to_string())
}

fn compare(l: Expr, op: Comparison, r: Expr) -> Expr {
    Expr::Compare(Box::new(l), op, Box::new(r))
}

fn times(l: Expr, r: Expr) -> Expr {
    Expr::Times(Box::new(l), Box::new(r))
}

fn plus(l: Expr, r: Expr) -> Expr {
    Expr::Plus(Box::new(l), Box::new(r))
}

fn minus(l: Expr, r: Expr) -> Expr {
    Expr::Minus(Box::new(l), Box::new(r))
}

fn let_in(d: Defn, body: Expr) -> Expr {
    Expr::Let(Box::new(d), Box::new(body))
}

fn var_defn(x: &str, value: Expr) -> Defn {
    Defn::VarDefn(x.to_string(), Box::new(value))
}

fn fun_defn(f: &str, params: &[(&str, Type)], result: Type, body: Expr) -> Defn {
    Defn::FunDefn(
        f.to_string(),
        params.iter().map(|(p, t)| (p.to_string(), t.clone())).collect(),
        result,
        Box::new(body),
    )
}

fn call(f: &str, args: Vec<Expr>) -> Expr {
    Expr::Call(f.to_string(), args)
}

fn function(params: Vec<Type>, result: Type) -> Type {
    Type::Function(params, Box::new(result))
}

fn type_in_empty(e: Expr) -> Option<Type> {
    type_check_expr(&Context::new(), &e)
}

#[test]
fn literals_have_their_types() {
    assert_eq!(type_in_empty(num(1)), Some(Type::Number));
    assert_eq!(type_in_empty(text("hi")), Some(Type::String));
    assert_eq!(type_in_empty(Expr::True), Some(Type::Boolean));
    assert_eq!(type_in_empty(Expr::False), Some(Type::Boolean));
}

#[test]
fn names_have_the_type_of_the_context() {
    let ctx = Context::new().insert("x".to_string(), Type::String);
    assert_eq!(type_check_expr(&ctx, &name("x")), Some(Type::String));
    assert_eq!(type_check_expr(&ctx, &name("y")), None);
    assert_eq!(type_in_empty(name("x")), None);
}

#[test]
fn comparisons_take_numbers() {
    let ops = [
        Comparison::LessEqual,
        Comparison::Less,
        Comparison::Equal,
        Comparison::NotEqual,
        Comparison::Greater,
        Comparison::GreaterEqual,
    ];
    for op in ops {
        assert_eq!(type_in_empty(compare(num(1), op, num(2))), Some(Type::Boolean));
        assert_eq!(type_in_empty(compare(num(1), op, text("x"))), None);
        assert_eq!(type_in_empty(compare(Expr::True, op, num(1))), None);
        assert_eq!(type_in_empty(compare(name("nowhere"), op, num(1))), None);
    }
}

#[test]
fn comparing_a_number_with_a_string_is_ill_typed() {
    assert_eq!(type_in_empty(compare(num(1), Comparison::Equal, text("x"))), None);
}

#[test]
fn arithmetic_takes_numbers() {
    assert_eq!(type_in_empty(times(num(1), num(2))), Some(Type::Number));
    assert_eq!(type_in_empty(plus(num(1), num(2))), Some(Type::Number));
    assert_eq!(type_in_empty(minus(num(1), num(2))), Some(Type::Number));
    assert_eq!(type_in_empty(times(num(1), Expr::True)), None);
    assert_eq!(type_in_empty(plus(text("a"), text("b"))), None);
    assert_eq!(type_in_empty(minus(num(1), name("nowhere"))), None);
    assert_eq!(
        type_in_empty(plus(num(1), compare(num(1), Comparison::Less, num(2)))),
        None
    );
}

#[test]
fn let_extends_the_context() {
    assert_eq!(
        type_in_empty(let_in(var_defn("x", num(1)), plus(name("x"), num(1)))),
        Some(Type::Number)
    );
    assert_eq!(
        type_in_empty(let_in(var_defn("x", text("s")), plus(name("x"), num(1)))),
        None
    );
    assert_eq!(type_in_empty(let_in(var_defn("x", name("nowhere")), num(1))), None);
    assert_eq!(
        type_in_empty(let_in(
            var_defn("x", num(1)),
            let_in(var_defn("x", Expr::True), name("x"))
        )),
        Some(Type::Boolean)
    );
}

#[test]
fn definitions_give_a_name_and_a_type() {
    let empty = Context::new();
    assert_eq!(
        type_check_defn(&empty, &var_defn("x", num(1))),
        Some(("x".to_string(), Type::Number))
    );
    assert_eq!(type_check_defn(&empty, &var_defn("x", name("y"))), None);
    let eq = fun_defn(
        "f",
        &[("x", Type::Number), ("y", Type::Number)],
        Type::Boolean,
        compare(name("x"), Comparison::Equal, name("y")),
    );
    assert_eq!(
        type_check_defn(&empty, &eq),
        Some(("f".to_string(), function(vec![Type::Number, Type::Number], Type::Boolean)))
    );
    let bad_body = fun_defn("f", &[("x", Type::String)], Type::Number, plus(name("x"), num(1)));
    assert_eq!(type_check_defn(&empty, &bad_body), None);
}

#[test]
fn the_declared_result_type_is_not_held_against_the_body() {
    let f = fun_defn("f", &[("x", Type::Number)], Type::String, plus(name("x"), num(1)));
    assert_eq!(
        type_check_defn(&Context::new(), &f),
        Some(("f".to_string(), function(vec![Type::Number], Type::String)))
    );
    assert_eq!(
        type_in_empty(let_in(f, call("f", vec![num(1)]))),
        Some(Type::String)
    );
}

#[test]
fn a_function_may_call_itself() {
    let f = fun_defn(
        "f",
        &[("x", Type::Number)],
        Type::Number,
        plus(call("f", vec![minus(name("x"), num(1))]), num(1)),
    );
    assert_eq!(
        type_check_defn(&Context::new(), &f),
        Some(("f".to_string(), function(vec![Type::Number], Type::Number)))
    );
}

#[test]
fn a_later_parameter_shadows_an_earlier_one_and_the_name_of_the_function_both() {
    let shadowed = fun_defn(
        "f",
        &[("x", Type::String), ("x", Type::Number)],
        Type::Number,
        plus(name("x"), num(1)),
    );
    assert!(type_check_defn(&Context::new(), &shadowed).is_some());
    let reversed = fun_defn(
        "f",
        &[("x", Type::Number), ("x", Type::String)],
        Type::Number,
        plus(name("x"), num(1)),
    );
    assert_eq!(type_check_defn(&Context::new(), &reversed), None);
    let own_name = fun_defn("f", &[("f", Type::Number)], Type::Number, plus(name("f"), num(1)));
    assert_eq!(type_check_defn(&Context::new(), &own_name), None);
}

#[test]
fn calls_check_their_arguments() {
    let ctx = Context::new()
        .insert("f".to_string(), function(vec![Type::Number, Type::String], Type::Boolean));
    assert_eq!(type_check_expr(&ctx, &call("f", vec![num(1), text("a")])), Some(Type::Boolean));
    assert_eq!(type_check_expr(&ctx, &call("f", vec![text("a"), num(1)])), None);
    assert_eq!(type_check_expr(&ctx, &call("f", vec![num(1)])), None);
    assert_eq!(type_check_expr(&ctx, &call("f", vec![num(1), text("a"), num(2)])), None);
    assert_eq!(type_check_expr(&ctx, &call("f", vec![])), None);
    assert_eq!(type_check_expr(&ctx, &call("f", vec![num(1), name("nowhere")])), None);
    assert_eq!(type_check_expr(&ctx, &call("g", vec![])), None);
}

#[test]
fn function_typed_arguments_are_compared_by_structure() {
    let unary = function(vec![Type::Number], Type::Number);
    let binary = function(vec![Type::Number, Type::Number], Type::Number);
    let to_string = function(vec![Type::Number], Type::String);
    let ctx = Context::new()
        .insert("apply".to_string(), function(vec![unary.clone(), Type::Number], Type::Number))
        .insert("inc".to_string(), unary.clone())
        .insert("add".to_string(), binary.clone())
        .insert("show".to_string(), to_string.clone());
    assert_eq!(
        type_check_expr(&ctx, &call("apply", vec![name("inc"), num(1)])),
        Some(Type::Number)
    );
    assert_eq!(type_check_expr(&ctx, &call("apply", vec![name("add"), num(1)])), None);
    assert_eq!(type_check_expr(&ctx, &call("apply", vec![name("show"), num(1)])), None);
    assert_eq!(unary, unary.clone());
    assert_ne!(unary, binary);
    assert_ne!(unary, to_string);
    assert_ne!(unary, Type::Number);
}

#[test]
fn calling_a_number_gives_number_whatever_the_arguments() {
    let ctx = Context::new().insert("n".to_string(), Type::Number);
    assert_eq!(type_check_expr(&ctx, &call("n", vec![])), Some(Type::Number));
    assert_eq!(type_check_expr(&ctx, &call("n", vec![num(1)])), Some(Type::Number));
    assert_eq!(
        type_check_expr(&ctx, &call("n", vec![text("a"), Expr::True, name("nowhere")])),
        Some(Type::Number)
    );
    let s = Context::new().insert("s".to_string(), Type::String);
    assert_eq!(type_check_expr(&s, &call("s", vec![num(1)])), Some(Type::String));
}

#[test]
fn a_later_binding_shadows_and_the_old_context_stays() {
    let empty = Context::new();
    let x = "x".to_string();
    let first = empty.insert(x.clone(), Type::Number);
    let second = first.insert(x.clone(), Type::String);
    assert_eq!(second.get(&x), Some(&Type::String));
    assert_eq!(first.get(&x), Some(&Type::Number));
    assert_eq!(empty.get(&x), None);
    assert_eq!(type_check_expr(&first, &name("x")), Some(Type::Number));
    assert_eq!(type_check_expr(&second, &name("x")), Some(Type::String));
    assert_eq!(first.clone().get(&x), Some(&Type::Number));
}

#[test]
fn syntax_trees_are_copied() {
    let e = let_in(
        fun_defn("f", &[("x", Type::Number)], Type::Number, name("x")),
        call("f", vec![compare(num(1), Comparison::Less, num(2))]),
    );
    assert_eq!(e.clone(), e);
}

#[test]
fn contexts_are_equal_when_they_bind_the_same() {
    let x = "x".to_string();
    let y = "y".to_string();
    let empty = Context::new();
    assert!(empty == Context::new());
    let unary = function(vec![Type::Number], Type::Number);
    let a = empty.insert(x.clone(), Type::Number).insert(y.clone(), unary.clone());
    let b = empty.insert(y.clone(), unary.clone()).insert(x.clone(), Type::Number);
    assert!(a == b);
    assert!(a == a.clone());
    assert!(a != empty);
    assert!(a != empty.insert(x.clone(), Type::Number));
    assert!(a != a.insert(x.clone(), Type::String));
    assert!(a != a.insert(y.clone(), function(vec![Type::Number], Type::String)));
    assert!(a.insert(x.clone(), Type::String).insert(x.clone(), Type::Number) == a);
    assert!(a != a.insert("z".to_string(), Type::Number));
}

#[test]
fn the_size_of_a_context_counts_the_names() {
    let x = "x".to_string();
    let empty = Context::new();
    assert_eq!(empty.size(), 0);
    let first = empty.insert(x.clone(), Type::Number);
    assert_eq!(first.size(), 1);
    assert_eq!(first.insert(x.clone(), Type::String).size(), 1);
    assert_eq!(first.insert("y".to_string(), Type::Number).size(), 2);
    assert_eq!(empty.size(), 0);
}

#[test]
fn the_names_of_a_context_are_those_that_are_bound() {
    let empty = Context::new();
    assert_eq!(empty.names(), Vec::<String>::new());
    let ctx = empty
        .insert("b".to_string(), Type::Number)
        .insert("a".to_string(), Type::String)
        .insert("c".to_string(), Type::Boolean)
        .insert("a".to_string(), Type::Number);
    let mut names = ctx.names();
    names.sort();
    assert_eq!(names, vec!["a".to_string(), "b".to_string(), "c".to_string()]);
}
