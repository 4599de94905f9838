use toi_lang::parser::{
    decl, decl_eq, decl_to_string, e_res_to_str, expr, expr_eq, expr_to_string, id, numeral, var,
    Decimal, Decl, Expr, ParseError,
};

fn digits(text: &str) -> Vec<u8> {
    text.bytes().map(|b| b - b'0').collect()
}

fn dec(negative: bool, integer: &str, fraction: &str) -> Decimal {
    Decimal::new(negative, digits(integer), digits(fraction)).unwrap()
}

fn num(n: i64) -> Expr {
    Expr::Numeral(dec(n < 0, &n.unsigned_abs().to_string(), ""))
}

fn name(text: &str) -> Expr {
    Expr::Id(text.to_string())
}

fn times(l: Expr, r: Expr) -> Expr {
    Expr::Times(Box::new(l), Box::new(r))
}

fn plus(l: Expr, r: Expr) -> Expr {
    Expr::Plus(Box::new(l), Box::new(r))
}

fn minus(l: Expr, r: Expr) -> Expr {
    Expr::Minus(Box::new(l), Box::new(r))
}

fn let_in(d: Decl, body: Expr) -> Expr {
    Expr::Let(Box::new(d), Box::new(body))
}

fn var_decl(x: &str, value: Expr) -> Decl {
    Decl::VarDecl(x.to_string(), Box::new(value))
}

fn fun_decl(f: &str, params: &[&str], body: Expr) -> Decl {
    Decl::FunDecl(f.to_string(), params.iter().map(|p| p.to_string()).collect(), Box::new(body))
}

fn call(f: &str, args: Vec<Expr>) -> Expr {
    Expr::FunCall(f.to_string(), args)
}

fn parses_to(input: &str, expected: Expr) {
    match expr(input) {
        Ok(found) => assert!(
            expr_eq(found.clone(), expected.clone()),
            "{} gave {}, not {}",
            input,
            expr_to_string(found),
            expr_to_string(expected)
        ),
        Err(error) => panic!("{} did not parse: stopped at {}", input, error.position),
    }
}

fn decl_parses_to(input: &str, expected: Decl) {
    match decl(input) {
        Ok(found) => assert!(
            decl_eq(found.clone(), expected.clone()),
            "{} gave {}, not {}",
            input,
            decl_to_string(found),
            decl_to_string(expected)
        ),
        Err(error) => panic!("{} did not parse: stopped at {}", input, error.position),
    }
}

#[test]
fn identifiers_are_accepted() {
    for text in ["a", "A", "aB", "Ab", "a_2b", "c3", "d7_"] {
        assert_eq!(id(text), Ok(text.to_string()));
    }
}

#[test]
fn identifiers_are_rejected() {
    assert_eq!(id("0ab"), Err(ParseError { position: 0 }));
    assert_eq!(id("_8e"), Err(ParseError { position: 0 }));
    assert_eq!(id("-29"), Err(ParseError { position: 0 }));
    assert_eq!(id(""), Err(ParseError { position: 0 }));
    assert_eq!(id("ab cd"), Err(ParseError { position: 2 }));
    assert_eq!(id("caf\u{e9}"), Err(ParseError { position: 3 }));
}

#[test]
fn var_gives_an_identifier_expression() {
    assert_eq!(var("xyzzy"), Ok(name("xyzzy")));
    assert_eq!(var("9x"), Err(ParseError { position: 0 }));
}

#[test]
fn numerals_are_accepted() {
    assert_eq!(numeral("3"), Ok(Expr::Numeral(dec(false, "3", ""))));
    assert_eq!(numeral("-3"), Ok(Expr::Numeral(dec(true, "3", ""))));
    assert_eq!(numeral("7.0"), Ok(Expr::Numeral(dec(false, "7", ""))));
    assert_eq!(numeral("-1.000"), Ok(Expr::Numeral(dec(true, "1", ""))));
    assert_eq!(numeral("0.738"), Ok(Expr::Numeral(dec(false, "0", "738"))));
    assert_eq!(numeral("-0"), Ok(Expr::Numeral(dec(false, "0", ""))));
    assert_eq!(numeral("0"), Ok(Expr::Numeral(dec(false, "0", ""))));
    assert_eq!(numeral("-0.0"), Ok(Expr::Numeral(dec(false, "0", ""))));
    assert_eq!(numeral("10.0500"), Ok(Expr::Numeral(dec(false, "10", "05"))));
    assert_eq!(numeral("-0.5"), Ok(Expr::Numeral(dec(true, "0", "5"))));
    assert_eq!(
        numeral("123456789012345678901234567890.5"),
        Ok(Expr::Numeral(dec(false, "123456789012345678901234567890", "5")))
    );
}

#[test]
fn numerals_are_rejected() {
    assert_eq!(numeral("00.7"), Err(ParseError { position: 1 }));
    assert_eq!(numeral("00"), Err(ParseError { position: 1 }));
    assert_eq!(numeral("-9."), Err(ParseError { position: 2 }));
    assert_eq!(numeral("9."), Err(ParseError { position: 1 }));
    assert_eq!(numeral("_1"), Err(ParseError { position: 0 }));
    assert_eq!(numeral("+32"), Err(ParseError { position: 0 }));
    assert_eq!(numeral("--1"), Err(ParseError { position: 0 }));
    assert_eq!(numeral("-"), Err(ParseError { position: 0 }));
    assert_eq!(numeral(""), Err(ParseError { position: 0 }));
    assert_eq!(numeral(".5"), Err(ParseError { position: 0 }));
    assert_eq!(numeral("1.2.3"), Err(ParseError { position: 3 }));
    assert_eq!(numeral("01"), Err(ParseError { position: 1 }));
}

#[test]
fn equal_numbers_are_equal_numerals() {
    assert!(expr_eq(numeral("7.0").unwrap(), numeral("7").unwrap()));
    assert!(expr_eq(numeral("-0").unwrap(), numeral("0").unwrap()));
    assert!(expr_eq(numeral("1.50").unwrap(), numeral("1.5").unwrap()));
    assert!(!expr_eq(numeral("1.5").unwrap(), numeral("1.05").unwrap()));
    assert!(!expr_eq(numeral("-1").unwrap(), numeral("1").unwrap()));
}

#[test]
fn decimal_takes_canonical_parts_only() {
    assert!(Decimal::new(false, vec![0], vec![]).is_some());
    assert!(Decimal::new(true, vec![0], vec![]).is_none());
    assert!(Decimal::new(true, vec![0], vec![1]).is_some());
    assert!(Decimal::new(false, vec![], vec![]).is_none());
    assert!(Decimal::new(false, vec![0, 1], vec![]).is_none());
    assert!(Decimal::new(false, vec![1], vec![5, 0]).is_none());
    assert!(Decimal::new(false, vec![10], vec![]).is_none());
    assert!(Decimal::new(false, vec![1], vec![11]).is_none());
    let d = dec(true, "12", "034");
    assert!(d.is_negative());
    assert_eq!(d.integer_digits(), &vec![1, 2]);
    assert_eq!(d.fraction_digits(), &vec![0, 3, 4]);
    assert_eq!(d.render(), "-12.034");
    assert_eq!(d.clone(), d);
}

#[test]
fn expressions_are_accepted() {
    parses_to("xyzzy", name("xyzzy"));
    parses_to("234", num(234));
    parses_to("x*y", times(name("x"), name("y")));
    parses_to("1.2+z_3", plus(Expr::Numeral(dec(false, "1", "2")), name("z_3")));
    parses_to("3-1", minus(num(3), num(1)));
    parses_to("(2-(y))", minus(num(2), name("y")));
    parses_to("1*2-3*4", minus(times(num(1), num(2)), times(num(3), num(4))));
    parses_to("-1*-2--3*-4", minus(times(num(-1), num(-2)), times(num(-3), num(-4))));
}

#[test]
fn expressions_are_rejected() {
    assert_eq!(expr("((2-(y))"), Err(ParseError { position: 0 }));
    assert_eq!(expr("+32"), Err(ParseError { position: 0 }));
    assert_eq!(expr("--1"), Err(ParseError { position: 0 }));
    assert_eq!(expr(""), Err(ParseError { position: 0 }));
    assert_eq!(expr("1 + 2"), Err(ParseError { position: 1 }));
    assert_eq!(expr("1+"), Err(ParseError { position: 1 }));
    assert_eq!(expr("x*"), Err(ParseError { position: 1 }));
    assert_eq!(expr("(x"), Err(ParseError { position: 0 }));
    assert_eq!(expr("x)"), Err(ParseError { position: 1 }));
    assert_eq!(expr("f(x"), Err(ParseError { position: 1 }));
    assert_eq!(expr("f(x,)"), Err(ParseError { position: 1 }));
    assert_eq!(expr("let var x = 1 in"), Err(ParseError { position: 3 }));
    assert_eq!(expr("let x"), Err(ParseError { position: 3 }));
    assert_eq!(expr("00"), Err(ParseError { position: 1 }));
    assert_eq!(expr("9."), Err(ParseError { position: 1 }));
}

#[test]
fn minus_and_times_associate_to_the_right() {
    parses_to("a-b-c", minus(name("a"), minus(name("b"), name("c"))));
    parses_to("a*b*c", times(name("a"), times(name("b"), name("c"))));
    parses_to("a+b+c", plus(name("a"), plus(name("b"), name("c"))));
    parses_to("a-b+c", minus(name("a"), plus(name("b"), name("c"))));
    let left = minus(minus(name("a"), name("b")), name("c"));
    assert!(!expr_eq(expr("a-b-c").unwrap(), left));
    parses_to("(a-b)-c", minus(minus(name("a"), name("b")), name("c")));
}

#[test]
fn times_binds_tighter_than_plus() {
    parses_to("1*2+3*4", plus(times(num(1), num(2)), times(num(3), num(4))));
    parses_to("1+2*3", plus(num(1), times(num(2), num(3))));
    parses_to("(1+2)*3", times(plus(num(1), num(2)), num(3)));
}

#[test]
fn let_expressions_are_accepted() {
    parses_to("let var x = y in x", let_in(var_decl("x", name("y")), name("x")));
    parses_to(
        "let function f(x){y*x} in z",
        let_in(fun_decl("f", &["x"], times(name("y"), name("x"))), name("z")),
    );
    parses_to(
        "let function f(x){y*x} in f(2)",
        let_in(fun_decl("f", &["x"], times(name("y"), name("x"))), call("f", vec![num(2)])),
    );
    parses_to(
        "let var x = let var y = 1 in y in let var y = x in x",
        let_in(
            var_decl("x", let_in(var_decl("y", num(1)), name("y"))),
            let_in(var_decl("y", name("x")), name("x")),
        ),
    );
    parses_to(
        "(let var x = y in x)+(let var x = y in x)",
        plus(
            let_in(var_decl("x", name("y")), name("x")),
            let_in(var_decl("x", name("y")), name("x")),
        ),
    );
}

#[test]
fn declarations_are_accepted() {
    decl_parses_to("var x = y", var_decl("x", name("y")));
    decl_parses_to("function f(x){y*x}", fun_decl("f", &["x"], times(name("y"), name("x"))));
    decl_parses_to(
        "var x = let var y = 1 in y",
        var_decl("x", let_in(var_decl("y", num(1)), name("y"))),
    );
    decl_parses_to("function zero(){0}", fun_decl("zero", &[], num(0)));
    decl_parses_to(
        "function add3(a,b,c){a+b+c}",
        fun_decl("add3", &["a", "b", "c"], plus(name("a"), plus(name("b"), name("c")))),
    );
}

#[test]
fn declarations_are_rejected() {
    assert_eq!(decl("x"), Err(ParseError { position: 0 }));
    assert_eq!(decl("var x=y"), Err(ParseError { position: 0 }));
    assert_eq!(decl("var 1 = y"), Err(ParseError { position: 0 }));
    assert_eq!(decl("function f(x,){x}"), Err(ParseError { position: 0 }));
    assert_eq!(decl("function f(x) {x}"), Err(ParseError { position: 0 }));
    assert_eq!(decl("function f(x){x}}"), Err(ParseError { position: 16 }));
    assert_eq!(decl("var x = y "), Err(ParseError { position: 9 }));
}

#[test]
fn argument_lists_hold_any_number_of_arguments() {
    parses_to("f()", call("f", vec![]));
    parses_to("f(a)", call("f", vec![name("a")]));
    parses_to("f(a,b)", call("f", vec![name("a"), name("b")]));
    parses_to("f(a,b,c)", call("f", vec![name("a"), name("b"), name("c")]));
    parses_to(
        "f(1+2,g(x,y,z,w),(3))",
        call(
            "f",
            vec![
                plus(num(1), num(2)),
                call("g", vec![name("x"), name("y"), name("z"), name("w")]),
                num(3),
            ],
        ),
    );
}

#[test]
fn keywords_need_their_blank() {
    parses_to("let", name("let"));
    parses_to("letx", name("letx"));
    parses_to("var", name("var"));
    parses_to("let var let = 1 in let", let_in(var_decl("let", num(1)), name("let")));
}

#[test]
fn expr_eq_is_reflexive() {
    let samples = [
        "x",
        "1.5",
        "a*b+c",
        "f(a,b,c)",
        "let function f(x,y){x*y} in f(1,2)",
        "let var x = 1 in x",
    ];
    for text in samples {
        let e = expr(text).unwrap();
        assert!(expr_eq(e.clone(), e.clone()));
        assert_eq!(e, e.clone());
    }
    let d = decl("function f(x,y){x*y}").unwrap();
    assert!(decl_eq(d.clone(), d));
}

#[test]
fn expr_eq_holds_every_field() {
    assert!(!expr_eq(call("f", vec![name("a")]), call("f", vec![name("a"), name("b")])));
    assert!(!expr_eq(call("f", vec![name("a"), name("b")]), call("f", vec![name("a")])));
    assert!(!expr_eq(call("f", vec![]), call("f", vec![name("a")])));
    assert!(!expr_eq(call("f", vec![name("a")]), call("g", vec![name("a")])));
    assert!(!expr_eq(call("f", vec![name("a")]), call("f", vec![name("b")])));
    assert!(!expr_eq(plus(num(1), num(2)), minus(num(1), num(2))));
    assert!(!expr_eq(name("x"), num(1)));
    assert!(!decl_eq(fun_decl("f", &["x"], name("x")), fun_decl("f", &["x", "y"], name("x"))));
    assert!(!decl_eq(fun_decl("f", &["x"], name("x")), fun_decl("f", &["y"], name("x"))));
    assert!(!decl_eq(var_decl("f", name("x")), fun_decl("f", &[], name("x"))));
    assert!(decl_eq(var_decl("f", name("x")), var_decl("f", name("x"))));
}

#[test]
fn rendering_is_canonical() {
    assert_eq!(expr_to_string(name("x")), "x");
    assert_eq!(expr_to_string(num(3)), "3");
    assert_eq!(expr_to_string(numeral("7.0").unwrap()), "7");
    assert_eq!(expr_to_string(numeral("-0.7380").unwrap()), "-0.738");
    assert_eq!(expr_to_string(times(plus(num(1), num(2)), num(3))), "1+2*3");
    assert_eq!(expr_to_string(minus(name("a"), name("b"))), "a-b");
    assert_eq!(expr_to_string(call("f", vec![])), "f()");
    assert_eq!(expr_to_string(call("f", vec![num(1), name("y")])), "f(,1,y)");
    assert_eq!(
        expr_to_string(let_in(var_decl("x", num(1)), name("x"))),
        "let var x = 1 in x"
    );
    assert_eq!(
        decl_to_string(fun_decl("f", &["x", "y"], times(name("x"), name("y")))),
        "function f(xy){x*y}"
    );
    assert_eq!(decl_to_string(var_decl("x", name("y"))), "var x = y");
}

#[test]
fn outcomes_render_as_text() {
    assert_eq!(e_res_to_str(expr("1*2+3*4")), "1*2+3*4");
    assert_eq!(e_res_to_str(expr("(1+2)*3")), "1+2*3");
    assert_eq!(e_res_to_str(expr("+32")), "err");
    assert_eq!(e_res_to_str(Err(ParseError { position: 7 })), "err");
}
