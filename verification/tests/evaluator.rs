use lisp_eval::ast::Expr;
use lisp_eval::evaluate;
use lisp_eval::values::{EvalError, Value};
use lisp_eval::DEFAULT_FUEL;

fn num(n: i64) -> Expr {
    Expr::Number(n)
}

fn ident(s: &str) -> Expr {
    Expr::Identifier(s.to_string())
}

fn text(s: &str) -> Expr {
    Expr::StringLit(s.to_string())
}

fn app(parts: Vec<Expr>) -> Expr {
    Expr::Application(parts)
}

fn run(e: Expr) -> Result<Value, EvalError> {
    evaluate(e, DEFAULT_FUEL).0
}

fn run_num(e: Expr) -> i64 {
    match run(e) {
        Ok(Value::Number(n)) => n,
        other => panic!("expected a number, got {:?}", result_kind(&other)),
    }
}

fn result_kind(r: &Result<Value, EvalError>) -> String {
    match r {
        Ok(Value::Number(n)) => format!("Number({})", n),
        Ok(Value::Bool(b)) => format!("Bool({})", b),
        Ok(Value::Str(s)) => format!("Str({})", s),
        Ok(Value::Func(_)) => "Func".to_string(),
        Ok(Value::Lambda(..)) => "Lambda".to_string(),
        Err(e) => format!("Err({})", e.message()),
    }
}

#[test]
fn addition_end_to_end() {
    let e = app(vec![ident("add"), num(2), num(3)]);
    assert_eq!(run_num(e), 5);
}

#[test]
fn lambda_square_end_to_end() {
    let square = Expr::Lambda(vec![
        Expr::Parameters(vec![ident("n")]),
        app(vec![ident("mul"), ident("n"), ident("n")]),
    ]);
    let e = app(vec![square, num(4)]);
    assert_eq!(run_num(e), 16);
}

#[test]
fn unbound_identifier_becomes_text() {
    match run(ident("foo")) {
        Ok(Value::Str(s)) => assert_eq!(s, "foo"),
        other => panic!("expected text, got {:?}", result_kind(&other)),
    }
}

#[test]
fn initial_environment_is_seeded() {
    assert_eq!(run_num(ident("x")), 10);
    assert_eq!(run_num(ident("v")), 5);
    assert_eq!(run_num(ident("i")), 1);
}

#[test]
fn div_of_sum_truncates() {
    let e = app(vec![
        ident("div"),
        app(vec![ident("add"), num(7), num(0)]),
        num(2),
    ]);
    assert_eq!(run_num(e), 3);
    let e = app(vec![
        ident("div"),
        app(vec![ident("add"), num(-7), num(0)]),
        num(2),
    ]);
    assert_eq!(run_num(e), -3);
}

#[test]
fn division_by_zero_always_fails() {
    let e = app(vec![ident("div"), num(9), num(0)]);
    match run(e) {
        Err(e) => assert_eq!(e.message(), "Division by zero"),
        other => panic!("expected an error, got {:?}", result_kind(&other)),
    }
}

#[test]
fn let_rebinds_in_same_frame() {
    let e = Expr::Let(
        Box::new(ident("x")),
        Box::new(num(5)),
        Box::new(Expr::Let(
            Box::new(ident("x")),
            Box::new(num(10)),
            Box::new(ident("x")),
        )),
    );
    assert_eq!(run_num(e), 10);
}

#[test]
fn cond_takes_first_true_clause() {
    let e = Expr::Cond(vec![
        Expr::Clause(vec![num(0), num(111)]),
        Expr::Clause(vec![ident("true"), num(222)]),
    ]);
    assert_eq!(run_num(e), 222);
}

#[test]
fn cond_stops_after_first_true_clause() {
    // The child after the matching clause is not even a clause; it is
    // never looked at.
    let e = Expr::Cond(vec![Expr::Clause(vec![ident("true"), num(1)]), num(5)]);
    assert_eq!(run_num(e), 1);
}

#[test]
fn cond_with_no_true_clause_fails() {
    let e = Expr::Cond(vec![Expr::Clause(vec![num(0), num(1)])]);
    match run(e) {
        Err(e) => assert_eq!(e.message(), "No true clause"),
        other => panic!("expected an error, got {:?}", result_kind(&other)),
    }
}

#[test]
fn string_true_condition_is_true() {
    let e = Expr::Cond(vec![Expr::Clause(vec![text("true"), num(4)])]);
    assert_eq!(run_num(e), 4);
}

#[test]
fn closure_captures_by_value_at_definition() {
    // w is 7 when the closure is made; rebinding w afterwards does not
    // reach the captured copy.
    let e = Expr::Block(vec![
        Expr::Define(Box::new(ident("w")), Box::new(num(7))),
        Expr::Define(
            Box::new(ident("f")),
            Box::new(Expr::Lambda(vec![
                Expr::Parameters(vec![]),
                ident("w"),
            ])),
        ),
        Expr::Define(Box::new(ident("w")), Box::new(num(9))),
        app(vec![ident("f")]),
    ]);
    assert_eq!(run_num(e), 7);
}

#[test]
fn two_environments_capture_different_values() {
    let lambda = |bound: i64| {
        Expr::Let(
            Box::new(ident("w")),
            Box::new(num(bound)),
            Box::new(app(vec![Expr::Lambda(vec![
                Expr::Parameters(vec![]),
                ident("w"),
            ])])),
        )
    };
    assert_eq!(run_num(lambda(7)), 7);
    assert_eq!(run_num(lambda(9)), 9);
}

#[test]
fn later_closure_arguments_see_earlier_bindings() {
    // The second argument is evaluated in the closure's environment after
    // the first parameter is already bound there.
    let e = app(vec![
        Expr::Lambda(vec![
            Expr::Parameters(vec![ident("a"), ident("b")]),
            ident("b"),
        ]),
        num(3),
        ident("a"),
    ]);
    assert_eq!(run_num(e), 3);
}

#[test]
fn block_yields_last_value_and_empty_block_zero() {
    assert_eq!(run_num(Expr::Block(vec![])), 0);
    assert_eq!(run_num(Expr::Block(vec![num(1), num(2), num(3)])), 3);
}

#[test]
fn define_binds_and_yields_zero() {
    let e = Expr::Block(vec![
        Expr::Define(Box::new(ident("z")), Box::new(num(41))),
        app(vec![ident("add"), ident("z"), num(1)]),
    ]);
    assert_eq!(run_num(e), 42);
    let e = Expr::Define(Box::new(ident("z")), Box::new(num(41)));
    assert_eq!(run_num(e), 0);
}

#[test]
fn variable_holding_builtin_name_dispatches_builtin() {
    let e = Expr::Let(
        Box::new(ident("g")),
        Box::new(text("add")),
        Box::new(app(vec![ident("g"), num(20), num(22)])),
    );
    assert_eq!(run_num(e), 42);
}

#[test]
fn print_emits_value_and_returns_zero() {
    let e = app(vec![ident("print"), num(42)]);
    let (r, out) = evaluate(e, DEFAULT_FUEL);
    assert!(matches!(r, Ok(Value::Number(0))));
    assert_eq!(out.len(), 1);
    assert!(matches!(out[0], Value::Number(42)));
}

#[test]
fn print_inside_an_expression_emits_in_order() {
    // print yields 0, so add(print(1), 2) is 2, with 1 on the stream.
    let e = app(vec![
        ident("add"),
        app(vec![ident("print"), num(1)]),
        num(2),
    ]);
    let (r, out) = evaluate(e, DEFAULT_FUEL);
    assert!(matches!(r, Ok(Value::Number(2))));
    assert_eq!(out.len(), 1);
    assert!(matches!(out[0], Value::Number(1)));
}

#[test]
fn out_of_fuel_is_reported() {
    let r = evaluate(num(1), 0).0;
    match r {
        Err(e) => assert_eq!(e.message(), "Recursion limit exceeded"),
        other => panic!("expected an error, got {:?}", result_kind(&other)),
    }
}

#[test]
fn deep_nesting_runs_out_of_fuel_not_stack() {
    let mut e = num(1);
    for _ in 0..100 {
        e = Expr::Block(vec![e]);
    }
    let r = evaluate(e, 10).0;
    match r {
        Err(e) => assert_eq!(e.message(), "Recursion limit exceeded"),
        other => panic!("expected an error, got {:?}", result_kind(&other)),
    }
}

#[test]
fn self_application_is_not_endless() {
    // ((lambda (s) (s s)) (lambda (s) (s s))) does not loop here: the
    // inner argument is evaluated in the closure's own captured copy of
    // the defining environment, where s is unbound and so reads as the
    // text "s", which is not callable.
    let omega = || {
        Expr::Lambda(vec![
            Expr::Parameters(vec![ident("s")]),
            app(vec![ident("s"), ident("s")]),
        ])
    };
    let r = evaluate(app(vec![omega(), omega()]), 3000).0;
    match r {
        Err(e) => assert_eq!(e.message(), "Not a function"),
        other => panic!("expected an error, got {:?}", result_kind(&other)),
    }
}
