use rinterp::ast::{
    ControlFlow, EnvValue, Environment, Expression, Failure, Function, Statement, Type, ValueConstructor,
};
use rinterp::harness::execute_tests;
use rinterp::interpreter::{eval, execute};
use rinterp::rational::Real;

fn num(n: i32) -> Expression {
    Expression::CInt(n)
}

fn b(e: Expression) -> Box<Expression> {
    Box::new(e)
}

fn bs(s: Statement) -> Box<Statement> {
    Box::new(s)
}

fn string(s: &str) -> Expression {
    Expression::CString(s.to_string())
}

fn seq(a: Statement, c: Statement) -> Statement {
    Statement::Sequence(bs(a), bs(c))
}

fn assign(n: &str, e: Expression) -> Statement {
    Statement::Assignment(n.to_string(), b(e), None)
}

fn func(name: &str, params: Vec<&str>, body: Statement) -> Function {
    Function {
        name: name.to_string(),
        kind: None,
        params: Some(params.into_iter().map(|p| (p.to_string(), Type::TAny)).collect()),
        body: Some(bs(body)),
    }
}

fn shape_decl() -> Statement {
    Statement::ADTDeclaration(
        "Shape".to_string(),
        vec![
            ValueConstructor { name: "Circle".to_string(), types: vec![Type::TReal] },
            ValueConstructor { name: "Rectangle".to_string(), types: vec![Type::TReal, Type::TReal] },
        ],
    )
}

fn circle(r: Expression) -> Expression {
    Expression::ADTConstructor("Shape".to_string(), "Circle".to_string(), vec![b(r)])
}

fn pattern(c: &str, args: Vec<Expression>) -> Expression {
    Expression::ADTConstructor("Shape".to_string(), c.to_string(), args.into_iter().map(b).collect())
}

fn run(stmt: Statement) -> Result<ControlFlow, String> {
    execute(stmt, &Environment::new())
}

fn returned(stmt: Statement) -> EnvValue {
    match run(stmt) {
        Ok(ControlFlow::Return(v)) => v,
        Ok(ControlFlow::Continue(_)) => panic!("no return"),
        Err(m) => panic!("{}", m),
    }
}

fn five() -> Expression {
    Expression::CReal(Real::new(5, 1).unwrap())
}

#[test]
fn adt_shape_match_picks_circle() {
    let program = seq(
        shape_decl(),
        seq(
            assign("shape", circle(five())),
            Statement::Match(
                b(Expression::Var("shape".to_string())),
                vec![
                    (pattern("Circle", vec![]), bs(Statement::Return(b(string("circle"))))),
                    (pattern("Rectangle", vec![]), bs(Statement::Return(b(string("rectangle"))))),
                ],
            ),
        ),
    );
    assert_eq!(returned(program), EnvValue::Exp(string("circle")));
}

#[test]
fn match_first_listed_case_wins() {
    let program = seq(
        shape_decl(),
        Statement::Match(
            b(circle(five())),
            vec![
                (pattern("Circle", vec![five()]), bs(Statement::Return(b(num(1))))),
                (pattern("Circle", vec![]), bs(Statement::Return(b(num(2))))),
            ],
        ),
    );
    assert_eq!(returned(program), EnvValue::Exp(num(1)));
}

#[test]
fn match_without_matching_case_fails() {
    let program = seq(
        shape_decl(),
        Statement::Match(
            b(circle(five())),
            vec![(pattern("Rectangle", vec![]), bs(Statement::Return(b(num(1)))))],
        ),
    );
    assert_eq!(run(program), Err("no matching pattern found".to_string()));
}

#[test]
fn match_on_constant_pattern() {
    let program = Statement::Match(
        b(num(3)),
        vec![(num(2), bs(Statement::Return(b(num(20))))), (num(3), bs(Statement::Return(b(num(30)))))],
    );
    assert_eq!(returned(program), EnvValue::Exp(num(30)));
}

#[test]
fn adt_constructor_with_wrong_arity_fails() {
    let program = seq(
        shape_decl(),
        assign(
            "s",
            Expression::ADTConstructor(
                "Shape".to_string(),
                "Rectangle".to_string(),
                vec![b(num(1))],
            ),
        ),
    );
    assert_eq!(run(program), Err("Wrong number of arguments for constructor Rectangle".to_string()));
}

#[test]
fn adt_constructor_of_unknown_type_fails() {
    let env = Environment::new();
    assert_eq!(
        eval(circle(five()), &env),
        Err(Failure::Message("ADT Shape not declared".to_string()))
    );
}

#[test]
fn test_module_reports_failed_and_passed() {
    let t1 = func(
        "test_sum",
        vec![],
        Statement::AssertEQ(
            b(Expression::Add(b(num(1)), b(num(2)))),
            b(Expression::Mul(b(Expression::Add(b(num(1)), b(num(2)))), b(num(3)))),
            "sum is wrong".to_string(),
        ),
    );
    let t2 = func(
        "test_diff",
        vec![],
        Statement::AssertNEQ(
            b(Expression::Sub(b(num(1)), b(num(2)))),
            b(Expression::Mul(b(Expression::Sub(b(num(1)), b(num(2)))), b(num(3)))),
            "difference is wrong".to_string(),
        ),
    );
    let module = Statement::ModTestDef(
        "checks".to_string(),
        bs(seq(Statement::TestDef(t1), Statement::TestDef(t2))),
    );
    let env = match run(module) {
        Ok(ControlFlow::Continue(env)) => env,
        _ => panic!("module definition failed"),
    };
    let results = execute_tests(vec![("checks".to_string(), None)], &env).unwrap();
    assert_eq!(
        results,
        vec![
            ("checks::test_sum".to_string(), false, Some("sum is wrong".to_string())),
            ("checks::test_diff".to_string(), true, None),
        ]
    );
    let one = execute_tests(vec![("checks".to_string(), Some("test_diff".to_string()))], &env).unwrap();
    assert_eq!(one, vec![("checks::test_diff".to_string(), true, None)]);
    assert_eq!(
        execute_tests(vec![("missing".to_string(), None)], &env),
        Err("Test module missing not found".to_string())
    );
}

#[test]
fn calls_see_functions_but_not_variables() {
    let helper = func("helper", vec![], Statement::Return(b(num(7))));
    let uses_helper = func(
        "uses_helper",
        vec![],
        Statement::Return(b(Expression::FuncCall("helper".to_string(), vec![]))),
    );
    let reads_x = func("reads_x", vec![], Statement::Return(b(Expression::Var("x".to_string()))));
    let defs = seq(
        Statement::FuncDef(helper),
        seq(Statement::FuncDef(uses_helper), seq(Statement::FuncDef(reads_x), assign("x", num(5)))),
    );
    let env = match run(defs) {
        Ok(ControlFlow::Continue(env)) => env,
        _ => panic!("definitions failed"),
    };
    assert_eq!(
        eval(Expression::FuncCall("uses_helper".to_string(), vec![]), &env),
        Ok(EnvValue::Exp(num(7)))
    );
    assert_eq!(
        eval(Expression::FuncCall("reads_x".to_string(), vec![]), &env),
        Err(Failure::Message("Variable x not found".to_string()))
    );
}

#[test]
fn extra_arguments_are_not_evaluated() {
    let f = func("f", vec!["p"], Statement::Return(b(Expression::Var("p".to_string()))));
    let env = match run(Statement::FuncDef(f)) {
        Ok(ControlFlow::Continue(env)) => env,
        _ => panic!("definition failed"),
    };
    let extra = Expression::FuncCall("f".to_string(), vec![num(1), Expression::Var("nope".to_string())]);
    assert_eq!(eval(extra, &env), Ok(EnvValue::Exp(num(1))));
    let exact = Expression::FuncCall("f".to_string(), vec![num(1)]);
    assert_eq!(eval(exact, &env), Ok(EnvValue::Exp(num(1))));
    let missing = Expression::FuncCall("f".to_string(), vec![]);
    assert_eq!(eval(missing, &env), Err(Failure::Message("Variable p not found".to_string())));
}

#[test]
fn function_without_return_fails() {
    let f = func("noop", vec![], assign("a", num(1)));
    let program = seq(
        Statement::FuncDef(f),
        assign("r", Expression::FuncCall("noop".to_string(), vec![])),
    );
    assert_eq!(run(program), Err("Function did not return a value".to_string()));
}

#[test]
fn unbounded_recursion_hits_call_limit() {
    let f = func(
        "forever",
        vec![],
        Statement::Return(b(Expression::FuncCall("forever".to_string(), vec![]))),
    );
    let program = seq(
        Statement::FuncDef(f),
        assign("r", Expression::FuncCall("forever".to_string(), vec![])),
    );
    assert_eq!(run(program), Err("Maximum call depth exceeded".to_string()));
}

#[test]
fn integer_arithmetic_saturates() {
    let env = Environment::new();
    let e = |x: Expression| eval(x, &env);
    assert_eq!(e(Expression::Add(b(num(i32::MAX)), b(num(1)))), Ok(EnvValue::Exp(num(i32::MAX))));
    assert_eq!(e(Expression::Sub(b(num(i32::MIN)), b(num(1)))), Ok(EnvValue::Exp(num(i32::MIN))));
    assert_eq!(e(Expression::Mul(b(num(100000)), b(num(-100000)))), Ok(EnvValue::Exp(num(i32::MIN))));
    assert_eq!(e(Expression::Div(b(num(i32::MIN)), b(num(-1)))), Ok(EnvValue::Exp(num(i32::MAX))));
    assert_eq!(e(Expression::Div(b(num(10)), b(num(0)))), Ok(EnvValue::Exp(num(i32::MAX))));
    assert_eq!(e(Expression::Div(b(num(-10)), b(num(0)))), Ok(EnvValue::Exp(num(i32::MIN))));
    assert_eq!(e(Expression::Div(b(num(0)), b(num(0)))), Ok(EnvValue::Exp(num(0))));
    assert_eq!(e(Expression::Div(b(num(-7)), b(num(2)))), Ok(EnvValue::Exp(num(-3))));
}

#[test]
fn real_arithmetic_is_exact() {
    let env = Environment::new();
    let half = Expression::CReal(Real::new(1, 2).unwrap());
    let third = Expression::CReal(Real::new(1, 3).unwrap());
    assert_eq!(
        eval(Expression::Add(b(half), b(third)), &env),
        Ok(EnvValue::Exp(Expression::CReal(Real::new(5, 6).unwrap())))
    );
    assert_eq!(Real::new(4, -8), Some(Real { num: -1, den: 2 }));
    assert_eq!(Real::new(1, 0), None);
}

fn frac(n: i64, d: i64) -> Expression {
    Expression::CReal(Real { num: n, den: d })
}

#[test]
fn real_arithmetic_never_fails() {
    let env = Environment::new();
    let ev = |e: Expression| eval(e, &env);
    let max = i64::MAX;
    // division by zero saturates, as integer division does
    assert_eq!(ev(Expression::Div(b(num(1)), b(frac(0, 1)))), Ok(EnvValue::Exp(frac(max, 1))));
    assert_eq!(ev(Expression::Div(b(num(-1)), b(frac(0, 1)))), Ok(EnvValue::Exp(frac(-max, 1))));
    assert_eq!(ev(Expression::Div(b(num(0)), b(frac(0, 1)))), Ok(EnvValue::Exp(frac(0, 1))));
    // a result too large for any fraction saturates
    assert_eq!(ev(Expression::Mul(b(frac(max, 1)), b(frac(max, 1)))), Ok(EnvValue::Exp(frac(max, 1))));
    // a result whose denominator does not fit is scaled down
    assert_eq!(
        ev(Expression::Mul(b(frac(1, max)), b(frac(1, max)))),
        Ok(EnvValue::Exp(frac(0, max - 1)))
    );
    // sums with growing denominators stay numbers
    let mut acc = frac(0, 1);
    for k in 1..60i64 {
        acc = match ev(Expression::Add(b(acc), b(frac(1, k)))) {
            Ok(EnvValue::Exp(e)) => e,
            other => panic!("{:?}", other),
        };
    }
    match acc {
        Expression::CReal(r) => {
            let x = r.numerator() as f64 / r.denominator() as f64;
            assert!((x - 4.67).abs() < 0.01);
        }
        _ => panic!("not a real"),
    }
    // ill-formed reals are read through their well-formed meaning
    assert_eq!(ev(Expression::Add(b(frac(1, -2)), b(num(0)))), Ok(EnvValue::Exp(frac(-1, 2))));
    assert_eq!(ev(Expression::Add(b(frac(1, 0)), b(num(1)))), Ok(EnvValue::Exp(frac(max, 1))));
    assert_eq!(
        ev(Expression::LT(b(frac(1, 3)), b(frac(1, 2)))),
        Ok(EnvValue::Exp(Expression::CTrue))
    );
}

#[test]
fn relational_operators_mix_numbers() {
    let env = Environment::new();
    let half = || Expression::CReal(Real::new(1, 2).unwrap());
    assert_eq!(eval(Expression::LT(b(num(0)), b(half())), &env), Ok(EnvValue::Exp(Expression::CTrue)));
    assert_eq!(eval(Expression::GTE(b(half()), b(num(1))), &env), Ok(EnvValue::Exp(Expression::CFalse)));
    assert_eq!(
        eval(Expression::EQ(b(Expression::CTrue), b(num(1))), &env),
        Err(Failure::Message("(==) is only defined for numbers (integers and real).".to_string()))
    );
}

#[test]
fn boolean_operators_require_booleans() {
    let env = Environment::new();
    assert_eq!(
        eval(Expression::And(b(Expression::CTrue), b(Expression::CFalse)), &env),
        Ok(EnvValue::Exp(Expression::CFalse))
    );
    assert_eq!(
        eval(Expression::Or(b(Expression::CTrue), b(Expression::CFalse)), &env),
        Ok(EnvValue::Exp(Expression::CTrue))
    );
    assert_eq!(
        eval(Expression::Not(b(num(1))), &env),
        Err(Failure::Message("'not' is only defined for booleans.".to_string()))
    );
}

#[test]
fn unwrap_of_nothing_and_plain_values_fails() {
    let env = Environment::new();
    let msg = Err(Failure::Message("'unwrap' expects a Just or Ok.".to_string()));
    assert_eq!(eval(Expression::Unwrap(b(Expression::CNothing)), &env), msg);
    assert_eq!(eval(Expression::Unwrap(b(num(3))), &env), msg);
}

#[test]
fn propagate_at_top_level_terminates() {
    let program = assign("v", Expression::Propagate(b(Expression::CErr(b(string("boom"))))));
    assert_eq!(run(program), Err("terminated with errors: boom".to_string()));
    let nothing = assign("v", Expression::Propagate(b(Expression::CNothing)));
    assert_eq!(run(nothing), Err("terminated with errors: Couldn't unwrap Nothing".to_string()));
    let ok = seq(
        assign("v", Expression::Propagate(b(Expression::COk(b(num(4)))))),
        Statement::Return(b(Expression::Var("v".to_string()))),
    );
    assert_eq!(returned(ok), EnvValue::Exp(num(4)));
}

#[test]
fn termination_message_shows_numbers() {
    let neg = assign("v", Expression::Propagate(b(Expression::CErr(b(num(-407))))));
    assert_eq!(run(neg), Err("terminated with errors: -407".to_string()));
    let third = Expression::CReal(Real::new(1, 3).unwrap());
    let r = assign("v", Expression::Propagate(b(Expression::CErr(b(third)))));
    assert_eq!(run(r), Err("terminated with errors: 1/3".to_string()));
}

#[test]
fn termination_message_shows_structured_values() {
    let program = seq(
        shape_decl(),
        assign(
            "v",
            Expression::Propagate(b(Expression::CErr(b(Expression::CJust(b(circle(five()))))))),
        ),
    );
    assert_eq!(run(program), Err("terminated with errors: Just(Circle(5/1))".to_string()));
    let nested = assign(
        "v",
        Expression::Propagate(b(Expression::CErr(b(Expression::COk(b(Expression::CVoid)))))),
    );
    assert_eq!(run(nested), Err("terminated with errors: Ok(void)".to_string()));
}

#[test]
fn propagate_below_top_level_returns_error() {
    let mut env = Environment::new();
    env.insert_frame(func("inner", vec![], Statement::Return(b(num(0)))));
    let stmt = assign("v", Expression::Propagate(b(Expression::CErr(b(num(9))))));
    assert_eq!(
        execute(stmt, &env),
        Ok(ControlFlow::Return(EnvValue::Exp(Expression::CErr(b(num(9))))))
    );
}

#[test]
fn propagate_signal_carries_the_error_value() {
    let env = Environment::new();
    assert_eq!(
        eval(Expression::Propagate(b(Expression::CErr(b(num(9))))), &env),
        Err(Failure::Propagated(num(9)))
    );
    assert_eq!(
        eval(Expression::Propagate(b(num(9))), &env),
        Err(Failure::Message("'propagate' expects a Just, Ok, Err or Nothing.".to_string()))
    );
}

#[test]
fn wrappers_reject_function_values() {
    let f = func("f", vec![], Statement::Return(b(num(1))));
    let program = seq(
        Statement::FuncDef(f),
        assign("j", Expression::CJust(b(Expression::Var("f".to_string())))),
    );
    assert_eq!(run(program), Err("Expression not recognized.".to_string()));
}

#[test]
fn block_stops_at_return() {
    let program = Statement::Block(vec![
        assign("a", num(1)),
        Statement::Return(b(Expression::Var("a".to_string()))),
        Statement::AssertFails("unreachable".to_string()),
    ]);
    assert_eq!(returned(program), EnvValue::Exp(num(1)));
}

#[test]
fn assertions_fail_with_their_message() {
    assert_eq!(run(Statement::AssertFails("expected".to_string())), Err("expected".to_string()));
    assert_eq!(
        run(Statement::AssertTrue(b(Expression::CFalse), "was false".to_string())),
        Err("was false".to_string())
    );
    assert_eq!(
        run(Statement::AssertFalse(b(num(1)), "unused".to_string())),
        Err("Condition must evaluate to a boolean".to_string())
    );
    assert!(run(Statement::AssertFalse(b(Expression::CFalse), "unused".to_string())).is_ok());
}

#[test]
fn if_with_non_boolean_condition_fails() {
    let program = Statement::IfThenElse(b(num(1)), bs(assign("a", num(1))), None);
    assert_eq!(run(program), Err("Condition must evaluate to a boolean".to_string()));
}

#[test]
fn declarations_are_not_executable() {
    assert_eq!(run(Statement::VarDeclaration("a".to_string())), Err("not implemented yet".to_string()));
}

#[test]
fn frames_track_scope_and_depth() {
    let mut env = Environment::new();
    assert_eq!(env.scope_key(), ("__main__".to_string(), 0));
    env.insert_variable("x".to_string(), EnvValue::Exp(num(1)));
    env.insert_frame(func("f", vec![], Statement::Return(b(num(0)))));
    assert_eq!(env.scope_key(), ("f".to_string(), 1));
    assert_eq!(env.search_frame("x".to_string()), None);
    assert_eq!(env.lookup(&"x".to_string()), Some(&EnvValue::Exp(num(1))));
    env.insert_variable("f".to_string(), EnvValue::Exp(num(2)));
    assert_eq!(env.scope_return(), Some(&EnvValue::Exp(num(2))));
    env.remove_frame();
    assert_eq!(env.scope_key(), ("__main__".to_string(), 0));
    assert_eq!(env.lookup(&"f".to_string()), None);
}

#[test]
fn type_table_keeps_declarations() {
    let mut env = Environment::new();
    assert!(env.get_type(&"Shape".to_string()).is_none());
    env.insert_type(
        "Shape".to_string(),
        vec![ValueConstructor { name: "Circle".to_string(), types: vec![Type::TReal] }],
    );
    assert_eq!(env.get_type(&"Shape".to_string()).map(|v| v.len()), Some(1));
}

#[test]
fn environment_stays_well_formed_after_statements() {
    let program = seq(
        shape_decl(),
        seq(
            Statement::FuncDef(func("f", vec!["a"], Statement::Return(b(Expression::Var("a".to_string()))))),
            assign("r", Expression::FuncCall("f".to_string(), vec![num(3), num(4)])),
        ),
    );
    let env = match run(program) {
        Ok(ControlFlow::Continue(env)) => env,
        _ => panic!("program failed"),
    };
    assert_eq!(env.scope_key(), ("__main__".to_string(), 0));
    assert_eq!(env.get_frame(("__main__".to_string(), 0)).variables.len(), 2);
    assert_eq!(env.search_frame("r".to_string()), Some(&EnvValue::Exp(num(3))));
}

#[test]
fn entering_and_leaving_a_scope_restores_the_environment() {
    let mut env = Environment::new();
    env.insert_variable("x".to_string(), EnvValue::Exp(num(1)));
    let mut before = Environment::new();
    before.insert_variable("x".to_string(), EnvValue::Exp(num(1)));
    env.insert_frame(func("g", vec!["p"], Statement::Return(b(num(0)))));
    env.insert_variable("y".to_string(), EnvValue::Exp(num(2)));
    env.remove_frame();
    assert_eq!(env, before);
    assert_eq!(Environment::new().scope, Function::new());
}
