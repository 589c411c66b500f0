use rinterp::ast::{ControlFlow, EnvValue, Environment, Expression, Failure, Function, Statement, Type};
use rinterp::interpreter::{eval, execute};
use rinterp::rational::Real;

fn num(n: i32) -> Expression {
    Expression::CInt(n)
}

fn ratio(num: i64, den: i64) -> Expression {
    Expression::CReal(Real::new(num, den).unwrap())
}

fn var(n: &str) -> Expression {
    Expression::Var(n.to_string())
}

fn b(e: Expression) -> Box<Expression> {
    Box::new(e)
}

fn bs(s: Statement) -> Box<Statement> {
    Box::new(s)
}

fn assign(n: &str, e: Expression) -> Statement {
    Statement::Assignment(n.to_string(), b(e), None)
}

fn seq(a: Statement, c: Statement) -> Statement {
    Statement::Sequence(bs(a), bs(c))
}

fn exp(e: Expression) -> Result<EnvValue, Failure> {
    Ok(EnvValue::Exp(e))
}

fn final_env(stmt: Statement) -> Environment {
    match execute(stmt, &Environment::new()) {
        Ok(ControlFlow::Continue(env)) => env,
        Ok(ControlFlow::Return(_)) => panic!("unexpected return"),
        Err(s) => panic!("{}", s),
    }
}

fn binding(env: &Environment, n: &str) -> Option<EnvValue> {
    match env.search_frame(n.to_string()) {
        Some(EnvValue::Exp(e)) => Some(EnvValue::Exp(copy(e))),
        Some(_) => None,
        None => None,
    }
}

fn copy(e: &Expression) -> Expression {
    rinterp::copy::copy_expr(e)
}

#[test]
fn eval_constant() {
    let env = Environment::new();
    assert_eq!(eval(num(10), &env), exp(num(10)));
    assert_eq!(eval(num(20), &env), exp(num(20)));
}

#[test]
fn eval_unwrap_result_ok() {
    let env = Environment::new();
    let u = Expression::Unwrap(b(Expression::COk(b(num(10)))));
    assert_eq!(eval(u, &env), exp(num(10)));
}

#[test]
fn eval_unwrap_result_err() {
    let env = Environment::new();
    let u = Expression::Unwrap(b(Expression::CErr(b(num(1)))));
    match eval(u, &env) {
        Ok(_) => assert!(false, "An error was expected"),
        Err(_) => assert!(true),
    }
}

#[test]
fn eval_unwrap_just() {
    let env = Environment::new();
    let u = Expression::Unwrap(b(Expression::CJust(b(num(5)))));
    assert_eq!(eval(u, &env), exp(num(5)));
}

#[test]
fn eval_unwrap_nothing() {
    let env = Environment::new();
    let u = Expression::Unwrap(b(Expression::CErr(b(Expression::CNothing))));
    match eval(u, &env) {
        Ok(_) => assert!(false, "An error was expected"),
        Err(_) => assert!(true),
    }
}

#[test]
fn eval_is_error_result_true() {
    let env = Environment::new();
    let ie = Expression::IsError(b(Expression::CErr(b(num(2)))));
    assert_eq!(eval(ie, &env), exp(Expression::CTrue));
}

#[test]
fn eval_is_error_result_false() {
    let env = Environment::new();
    let ie = Expression::IsError(b(Expression::COk(b(num(2)))));
    assert_eq!(eval(ie, &env), exp(Expression::CFalse));
}

// `IsError` never fails: on a value that is not a result it is false.
#[test]
fn eval_is_error_result_error() {
    let env = Environment::new();
    let ie = Expression::IsError(b(num(2)));
    assert_eq!(eval(ie, &env), exp(Expression::CFalse));
}

#[test]
fn eval_is_nothing_with_nothing() {
    let env = Environment::new();
    let u = Expression::IsNothing(b(Expression::CNothing));
    assert_eq!(eval(u, &env), exp(Expression::CTrue));
}

#[test]
fn eval_is_nothing_with_just() {
    let env = Environment::new();
    let u = Expression::IsNothing(b(Expression::CJust(b(ratio(69, 10)))));
    assert_eq!(eval(u, &env), exp(Expression::CFalse));
}

// `IsNothing` never fails: on a plain value it is false.
#[test]
fn eval_is_nothing_with_int() {
    let env = Environment::new();
    let u = Expression::IsNothing(b(num(420)));
    assert_eq!(eval(u, &env), exp(Expression::CFalse));
}

#[test]
fn eval_add_expression1() {
    let env = Environment::new();
    assert_eq!(eval(Expression::Add(b(num(10)), b(num(20))), &env), exp(num(30)));
}

#[test]
fn eval_add_expression2() {
    let env = Environment::new();
    let add1 = Expression::Add(b(num(10)), b(num(20)));
    let add2 = Expression::Add(b(add1), b(num(30)));
    assert_eq!(eval(add2, &env), exp(num(60)));
}

#[test]
fn eval_add_expression3() {
    let env = Environment::new();
    let add1 = Expression::Add(b(num(10)), b(ratio(205, 10)));
    assert_eq!(eval(add1, &env), exp(ratio(305, 10)));
}

#[test]
fn eval_sub_expression1() {
    let env = Environment::new();
    assert_eq!(eval(Expression::Sub(b(num(20)), b(num(10))), &env), exp(num(10)));
}

#[test]
fn eval_sub_expression2() {
    let env = Environment::new();
    assert_eq!(eval(Expression::Sub(b(num(300)), b(num(100))), &env), exp(num(200)));
}

#[test]
fn eval_sub_expression3() {
    let env = Environment::new();
    let sub1 = Expression::Sub(b(num(300)), b(ratio(1005, 10)));
    assert_eq!(eval(sub1, &env), exp(ratio(1995, 10)));
}

#[test]
fn eval_mul_expression1() {
    let env = Environment::new();
    assert_eq!(eval(Expression::Mul(b(num(10)), b(num(20))), &env), exp(num(200)));
}

#[test]
fn eval_mul_expression2() {
    let env = Environment::new();
    let mul1 = Expression::Mul(b(ratio(105, 10)), b(num(20)));
    assert_eq!(eval(mul1, &env), exp(ratio(210, 1)));
}

#[test]
fn eval_div_expression1() {
    let env = Environment::new();
    assert_eq!(eval(Expression::Div(b(num(20)), b(num(10))), &env), exp(num(2)));
}

#[test]
fn eval_div_expression2() {
    let env = Environment::new();
    assert_eq!(eval(Expression::Div(b(num(10)), b(num(3))), &env), exp(num(3)));
}

#[test]
fn eval_div_expression3() {
    let env = Environment::new();
    assert_eq!(eval(Expression::Div(b(num(21)), b(num(3))), &env), exp(num(7)));
}

#[test]
fn eval_div_expression4() {
    let env = Environment::new();
    let div1 = Expression::Div(b(num(10)), b(ratio(30, 10)));
    match eval(div1, &env) {
        Ok(EnvValue::Exp(Expression::CReal(v))) => {
            let x = v.numerator() as f64 / v.denominator() as f64;
            assert!((x - 3.3333333333333335).abs() <= f64::EPSILON);
        }
        Err(msg) => assert!(false, "{:?}", msg),
        _ => assert!(false, "Not expected."),
    }
}

#[test]
fn eval_variable() {
    let mut env = Environment::new();
    env.insert_variable("x".to_string(), EnvValue::Exp(num(10)));
    env.insert_variable("y".to_string(), EnvValue::Exp(num(20)));
    assert_eq!(eval(var("x"), &env), exp(num(10)));
    assert_eq!(eval(var("y"), &env), exp(num(20)));
}

#[test]
fn eval_expression_with_variables() {
    let mut env = Environment::new();
    env.insert_variable("a".to_string(), EnvValue::Exp(num(5)));
    env.insert_variable("b".to_string(), EnvValue::Exp(num(3)));
    let e = Expression::Mul(b(var("a")), b(Expression::Add(b(var("b")), b(num(2)))));
    assert_eq!(eval(e, &env), exp(num(25)));
}

#[test]
fn eval_nested_expressions() {
    let env = Environment::new();
    let e = Expression::Add(
        b(Expression::Mul(b(num(2)), b(num(3)))),
        b(Expression::Sub(b(num(10)), b(num(4)))),
    );
    assert_eq!(eval(e, &env), exp(num(12)));
}

#[test]
fn eval_variable_not_found() {
    let env = Environment::new();
    assert_eq!(
        eval(var("z"), &env),
        Err(Failure::Message(String::from("Variable z not found")))
    );
}

#[test]
fn execute_assignment() {
    let stmt = Statement::Assignment("x".to_string(), b(num(42)), Some(Type::TInteger));
    let env = final_env(stmt);
    assert_eq!(binding(&env, "x"), Some(EnvValue::Exp(num(42))));
}

fn summation_program() -> Statement {
    let a1 = assign("x", num(10));
    let a2 = assign("y", num(0));
    let a3 = assign("y", Expression::Add(b(var("y")), b(var("x"))));
    let a4 = assign("x", Expression::Sub(b(var("x")), b(num(1))));
    let body = seq(a3, a4);
    let w = Statement::While(b(Expression::GT(b(var("x")), b(num(0)))), bs(body));
    seq(a1, seq(a2, w))
}

#[test]
fn eval_summation() {
    let env = final_env(summation_program());
    assert_eq!(binding(&env, "y"), Some(EnvValue::Exp(num(55))));
    assert_eq!(binding(&env, "x"), Some(EnvValue::Exp(num(0))));
}

#[test]
fn eval_simple_if_then_else() {
    let cond = Expression::GT(b(var("x")), b(num(5)));
    let then_stmt = assign("y", num(1));
    let else_stmt = assign("y", num(0));
    let ite = Statement::IfThenElse(b(cond), bs(then_stmt), Some(bs(else_stmt)));
    let program = seq(assign("x", num(10)), ite);
    let env = final_env(program);
    assert_eq!(binding(&env, "y"), Some(EnvValue::Exp(num(1))));
}

#[test]
fn eval_if_then_optional_else() {
    let second_if = Statement::IfThenElse(
        b(Expression::LT(b(var("x")), b(num(0)))),
        bs(assign("y", num(5))),
        None,
    );
    let else_stmt = seq(assign("y", num(2)), second_if);
    let first_if = Statement::IfThenElse(
        b(Expression::EQ(b(var("x")), b(var("y")))),
        bs(assign("y", num(1))),
        Some(bs(else_stmt)),
    );
    let program = seq(assign("x", num(1)), seq(assign("y", num(0)), first_if));
    let env = final_env(program);
    assert_eq!(binding(&env, "y"), Some(EnvValue::Exp(num(2))));
}

#[test]
fn eval_complex_sequence() {
    let a3 = assign(
        "z",
        Expression::Add(b(Expression::Mul(b(num(2)), b(var("x")))), b(num(3))),
    );
    let program = seq(assign("x", num(5)), seq(assign("y", num(0)), a3));
    let env = final_env(program);
    assert_eq!(binding(&env, "x"), Some(EnvValue::Exp(num(5))));
    assert_eq!(binding(&env, "y"), Some(EnvValue::Exp(num(0))));
    assert_eq!(binding(&env, "z"), Some(EnvValue::Exp(num(13))));
}

fn fibonacci(base: i32) -> Statement {
    let n = || var("n");
    let call = |k: i32| {
        Expression::FuncCall(
            "fibonacci".to_string(),
            vec![Expression::Sub(b(n()), b(num(k)))],
        )
    };
    let body = seq(
        Statement::IfThenElse(
            b(Expression::LT(b(n()), b(num(base)))),
            bs(Statement::Return(b(num(0)))),
            None,
        ),
        seq(
            Statement::IfThenElse(
                b(Expression::LTE(b(n()), b(num(2)))),
                bs(Statement::Return(b(Expression::Sub(b(n()), b(num(1)))))),
                None,
            ),
            Statement::Return(b(Expression::Add(b(call(1)), b(call(2))))),
        ),
    );
    Statement::FuncDef(Function {
        name: "fibonacci".to_string(),
        kind: Some(Type::TInteger),
        params: Some(vec![("n".to_string(), Type::TInteger)]),
        body: Some(bs(body)),
    })
}

#[test]
fn recursive_func_def_call() {
    let program = seq(
        fibonacci(0),
        Statement::Assignment(
            "fib".to_string(),
            b(Expression::FuncCall("fibonacci".to_string(), vec![num(10)])),
            Some(Type::TInteger),
        ),
    );
    let env = final_env(program);
    assert_eq!(binding(&env, "fib"), Some(EnvValue::Exp(num(34))));
}

#[test]
fn fibonacci_of_ten_is_34() {
    let program = seq(
        fibonacci(1),
        assign("fib", Expression::FuncCall("fibonacci".to_string(), vec![num(10)])),
    );
    let env = final_env(program);
    assert_eq!(binding(&env, "fib"), Some(EnvValue::Exp(num(34))));
}

#[test]
fn eval_complex_unwrap() {
    let setup = seq(
        assign("x", Expression::COk(b(num(1)))),
        seq(assign("y", Expression::CNothing), assign("z", num(0))),
    );
    let first = Statement::IfThenElse(
        b(Expression::Not(b(Expression::IsError(b(var("x")))))),
        bs(assign("y", Expression::CJust(b(num(2))))),
        None,
    );
    let second = Statement::IfThenElse(
        b(Expression::Not(b(Expression::IsNothing(b(var("y")))))),
        bs(assign(
            "z",
            Expression::Add(b(Expression::Unwrap(b(var("x")))), b(Expression::Unwrap(b(var("y"))))),
        )),
        None,
    );
    let env = final_env(seq(setup, seq(first, second)));
    assert_eq!(binding(&env, "x"), Some(EnvValue::Exp(Expression::COk(b(num(1))))));
    assert_eq!(binding(&env, "y"), Some(EnvValue::Exp(Expression::CJust(b(num(2))))));
    assert_eq!(binding(&env, "z"), Some(EnvValue::Exp(num(3))));
}
