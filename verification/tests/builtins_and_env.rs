use lisp_eval::ast::Expr;
use lisp_eval::evaluate;
use lisp_eval::values::{Env, EvalError, Value};
use lisp_eval::DEFAULT_FUEL;

fn num(n: i64) -> Expr {
    Expr::Number(n)
}

fn ident(s: &str) -> Expr {
    Expr::Identifier(s.to_string())
}

fn text(s: &str) -> Expr {
    Expr::StringLit(s.to_string())
}

fn app(parts: Vec<Expr>) -> Expr {
    Expr::Application(parts)
}

fn run(e: Expr) -> Result<Value, EvalError> {
    evaluate(e, DEFAULT_FUEL).0
}

fn run_num(e: Expr) -> i64 {
    match run(e) {
        Ok(Value::Number(n)) => n,
        _ => panic!("expected a number"),
    }
}

fn run_bool(e: Expr) -> bool {
    match run(e) {
        Ok(Value::Bool(b)) => b,
        _ => panic!("expected a boolean"),
    }
}

fn run_msg(e: Expr) -> String {
    match run(e) {
        Err(err) => err.message(),
        _ => panic!("expected an error"),
    }
}

#[test]
fn arithmetic_builtins() {
    assert_eq!(run_num(app(vec![ident("sub"), num(10), num(4)])), 6);
    assert_eq!(run_num(app(vec![ident("mul"), num(6), num(7)])), 42);
    assert_eq!(run_num(app(vec![ident("div"), num(-9), num(2)])), -4);
}

#[test]
fn pow_builtin_exact_values() {
    assert_eq!(run_num(app(vec![ident("pow"), num(2), num(10)])), 1024);
    assert_eq!(run_num(app(vec![ident("pow"), num(-2), num(3)])), -8);
    assert_eq!(run_num(app(vec![ident("pow"), num(0), num(0)])), 1);
    assert_eq!(run_num(app(vec![ident("pow"), num(-1), num(1000001)])), -1);
    assert_eq!(run_num(app(vec![ident("pow"), num(-2), num(63)])), i64::MIN);
}

#[test]
fn pow_overflow_and_negative_exponent() {
    assert_eq!(
        run_msg(app(vec![ident("pow"), num(2), num(64)])),
        "Arithmetic overflow"
    );
    assert_eq!(
        run_msg(app(vec![ident("pow"), num(2), num(-1)])),
        "Invalid arguments"
    );
}

#[test]
fn zero_test_builtin() {
    assert!(run_bool(app(vec![ident("zero?"), num(0)])));
    assert!(!run_bool(app(vec![ident("zero?"), num(17)])));
    assert!(!run_bool(app(vec![ident("zero?"), num(-17)])));
    assert_eq!(
        run_msg(app(vec![ident("zero?"), text("nought")])),
        "Invalid arguments"
    );
}

#[test]
fn comparison_builtins() {
    assert!(run_bool(app(vec![ident("="), num(3), num(3)])));
    assert!(!run_bool(app(vec![ident("="), num(3), num(4)])));
    assert!(run_bool(app(vec![ident("<"), num(3), num(4)])));
    assert!(!run_bool(app(vec![ident("<"), num(4), num(3)])));
    assert!(run_bool(app(vec![ident(">"), num(4), num(3)])));
    assert!(run_bool(app(vec![ident(">="), num(4), num(4)])));
    assert!(run_bool(app(vec![ident("<="), num(4), num(4)])));
    assert!(!run_bool(app(vec![ident("<="), num(5), num(4)])));
}

#[test]
fn addition_overflow_is_an_error() {
    assert_eq!(
        run_msg(app(vec![ident("add"), num(i64::MAX), num(1)])),
        "Arithmetic overflow"
    );
    assert_eq!(
        run_msg(app(vec![ident("div"), num(i64::MIN), num(-1)])),
        "Arithmetic overflow"
    );
}

#[test]
fn arity_mismatch_is_checked_before_running() {
    assert_eq!(
        run_msg(app(vec![ident("add"), num(1)])),
        "Wrong number of arguments"
    );
    assert_eq!(
        run_msg(app(vec![ident("zero?"), num(1), num(2)])),
        "Wrong number of arguments"
    );
}

#[test]
fn wrong_operand_kind_is_an_error() {
    assert_eq!(
        run_msg(app(vec![ident("add"), num(1), text("two")])),
        "Invalid arguments"
    );
}

#[test]
fn empty_and_non_callable_applications() {
    assert_eq!(run_msg(app(vec![])), "Empty application");
    assert_eq!(run_msg(app(vec![num(1), num(2)])), "Not a function");
}

#[test]
fn closure_arity_is_checked() {
    let one_param = Expr::Lambda(vec![
        Expr::Parameters(vec![ident("n")]),
        ident("n"),
    ]);
    assert_eq!(
        run_msg(app(vec![one_param, num(1), num(2)])),
        "Wrong number of arguments"
    );
}

#[test]
fn structural_errors() {
    assert_eq!(
        run_msg(Expr::Clause(vec![num(1), num(2)])),
        "Invalid clause not wrapped in a cond"
    );
    assert_eq!(
        run_msg(Expr::Parameters(vec![ident("n")])),
        "Invalid parameters not wrapped in a lambda"
    );
    assert_eq!(
        run_msg(Expr::Cond(vec![num(1)])),
        "Invalid clause"
    );
    assert_eq!(
        run_msg(Expr::Cond(vec![Expr::Clause(vec![num(1)])])),
        "Each clause must have exactly 2 expressions"
    );
    assert_eq!(
        run_msg(Expr::Lambda(vec![ident("n")])),
        "Lambda must have exactly 2 expressions"
    );
    assert_eq!(
        run_msg(Expr::Lambda(vec![num(1), num(2)])),
        "Invalid parameters"
    );
    assert_eq!(
        run_msg(Expr::Lambda(vec![
            Expr::Parameters(vec![num(1)]),
            num(2),
        ])),
        "Invalid parameter"
    );
    assert_eq!(
        run_msg(Expr::Let(
            Box::new(num(1)),
            Box::new(num(2)),
            Box::new(num(3)),
        )),
        "Invalid variable name"
    );
    assert_eq!(
        run_msg(Expr::Define(Box::new(num(1)), Box::new(num(2)))),
        "Invalid variable name"
    );
}

#[test]
fn environment_lookup_and_overwrite() {
    let env = Env::new();
    assert!(matches!(env.get_vars("x"), Some(Value::Number(10))));
    assert!(matches!(env.get_vars("v"), Some(Value::Number(5))));
    assert!(matches!(env.get_vars("i"), Some(Value::Number(1))));
    assert!(env.get_vars("missing").is_none());

    let mut env = env;
    env.insert_vars("q".to_string(), Value::Number(3));
    assert!(matches!(env.get_vars("q"), Some(Value::Number(3))));
    env.insert_vars("q".to_string(), Value::Number(4));
    assert!(matches!(env.get_vars("q"), Some(Value::Number(4))));
}

#[test]
fn environment_chain_falls_back_to_parent() {
    let mut parent = Env::new();
    parent.insert_vars("only_in_parent".to_string(), Value::Number(8));
    let child = Env::with_parent(parent);
    assert!(matches!(
        child.get_vars("only_in_parent"),
        Some(Value::Number(8))
    ));
    assert!(child.get_vars("nowhere").is_none());
}

#[test]
fn builtins_are_not_ordinary_variables() {
    // Lookup never consults the builtin table: the name of a builtin,
    // used as a plain identifier, falls back to its own text.
    let env = Env::new();
    assert!(env.get_vars("add").is_none());
    match run(ident("add")) {
        Ok(Value::Str(s)) => assert_eq!(s, "add"),
        _ => panic!("expected text"),
    }
}

#[test]
fn shadowed_builtin_name_is_not_callable() {
    // A variable holding a number does not collide with a builtin name.
    let e = Expr::Let(
        Box::new(ident("g")),
        Box::new(num(5)),
        Box::new(app(vec![ident("g"), num(1), num(2)])),
    );
    assert_eq!(run_msg(e), "Not a function");
}
