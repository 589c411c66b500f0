//! Deep copies of syntax and runtime values that keep the model unchanged.
use crate::ast::{
    EnvValue, Environment, Expression, Frame, Function, Name, Statement, TestEnvironment,
    Type, ValueConstructor,
};
use crate::model::{boxed_m, cases_m, ctors_m, env_m, expr_m, exprs_m, frame_m, func_m, param_names, param_types, stack_m, stmt_m, stmts_m, tests_m, type_list_m, type_m, types_m, value_m, vars_m};
use vstd::prelude::*;

verus! {

pub fn copy_type(t: &Type) -> (r: Type)
    ensures
        type_m(r) == type_m(*t),
    decreases t,
{
    match t {
        Type::TInteger => Type::TInteger,
        Type::TBool => Type::TBool,
        Type::TReal => Type::TReal,
        Type::TString => Type::TString,
        Type::TVoid => Type::TVoid,
        Type::TFunction(ret, args) => {
            let r = match &**ret {
                Some(x) => Some(copy_type(x)),
                None => None,
            };
            Type::TFunction(Box::new(r), copy_types(args))
        },
        Type::TList(x) => Type::TList(Box::new(copy_type(x))),
        Type::TTuple(xs) => Type::TTuple(copy_types(xs)),
        Type::TMaybe(x) => Type::TMaybe(Box::new(copy_type(x))),
        Type::TResult(a, b) => Type::TResult(Box::new(copy_type(a)), Box::new(copy_type(b))),
        Type::TAny => Type::TAny,
        Type::Tadt(n, cs) => Type::Tadt(n.clone(), copy_ctors(cs)),
    }
}

pub fn copy_types(v: &Vec<Type>) -> (r: Vec<Type>)
    ensures
        type_list_m(r@) == type_list_m(v@),
        r@.len() == v@.len(),
    decreases v,
{
    let mut out: Vec<Type> = Vec::new();
    let mut i: usize = 0;
    while i < v.len()
        invariant
            i <= v@.len(),
            out@.len() == i,
            type_list_m(out@) == type_list_m(v@.subrange(0, i as int)),
        decreases v@.len() - i,
    {
        proof {
            assert(decreases_to!(v => v@[i as int]));
        }
        let c = copy_type(&v[i]);
        proof {
            assert(v@.subrange(0, i as int + 1).drop_last() == v@.subrange(0, i as int));
            assert(out@.push(c).drop_last() == out@);
        }
        out.push(c);
        i = i + 1;
    }
    assert(v@.subrange(0, v@.len() as int) == v@);
    out
}

pub fn copy_ctors(v: &Vec<ValueConstructor>) -> (r: Vec<ValueConstructor>)
    ensures
        ctors_m(r@) == ctors_m(v@),
    decreases v,
{
    let mut out: Vec<ValueConstructor> = Vec::new();
    let mut i: usize = 0;
    while i < v.len()
        invariant
            i <= v@.len(),
            out@.len() == i,
            ctors_m(out@) == ctors_m(v@.subrange(0, i as int)),
        decreases v@.len() - i,
    {
        proof {
            assert(decreases_to!(v => v@[i as int]));
            assert(decreases_to!(v@[i as int] => v@[i as int].types));
        }
        let c = ValueConstructor { name: v[i].name.clone(), types: copy_types(&v[i].types) };
        proof {
            assert(v@.subrange(0, i as int + 1).drop_last() == v@.subrange(0, i as int));
            assert(out@.push(c).drop_last() == out@);
        }
        out.push(c);
        i = i + 1;
    }
    assert(v@.subrange(0, v@.len() as int) == v@);
    out
}

pub fn copy_expr(e: &Expression) -> (r: Expression)
    ensures
        expr_m(r) == expr_m(*e),
    decreases e,
{
    match e {
        Expression::CTrue => Expression::CTrue,
        Expression::CFalse => Expression::CFalse,
        Expression::CInt(n) => Expression::CInt(*n),
        Expression::CReal(x) => Expression::CReal(*x),
        Expression::CString(s) => Expression::CString(s.clone()),
        Expression::CVoid => Expression::CVoid,
        Expression::Var(n) => Expression::Var(n.clone()),
        Expression::FuncCall(n, args) => Expression::FuncCall(n.clone(), copy_exprs(args)),
        Expression::Add(a, b) => Expression::Add(Box::new(copy_expr(a)), Box::new(copy_expr(b))),
        Expression::Sub(a, b) => Expression::Sub(Box::new(copy_expr(a)), Box::new(copy_expr(b))),
        Expression::Mul(a, b) => Expression::Mul(Box::new(copy_expr(a)), Box::new(copy_expr(b))),
        Expression::Div(a, b) => Expression::Div(Box::new(copy_expr(a)), Box::new(copy_expr(b))),
        Expression::And(a, b) => Expression::And(Box::new(copy_expr(a)), Box::new(copy_expr(b))),
        Expression::Or(a, b) => Expression::Or(Box::new(copy_expr(a)), Box::new(copy_expr(b))),
        Expression::Not(a) => Expression::Not(Box::new(copy_expr(a))),
        Expression::EQ(a, b) => Expression::EQ(Box::new(copy_expr(a)), Box::new(copy_expr(b))),
        Expression::GT(a, b) => Expression::GT(Box::new(copy_expr(a)), Box::new(copy_expr(b))),
        Expression::LT(a, b) => Expression::LT(Box::new(copy_expr(a)), Box::new(copy_expr(b))),
        Expression::GTE(a, b) => Expression::GTE(Box::new(copy_expr(a)), Box::new(copy_expr(b))),
        Expression::LTE(a, b) => Expression::LTE(Box::new(copy_expr(a)), Box::new(copy_expr(b))),
        Expression::COk(a) => Expression::COk(Box::new(copy_expr(a))),
        Expression::CErr(a) => Expression::CErr(Box::new(copy_expr(a))),
        Expression::CJust(a) => Expression::CJust(Box::new(copy_expr(a))),
        Expression::CNothing => Expression::CNothing,
        Expression::Unwrap(a) => Expression::Unwrap(Box::new(copy_expr(a))),
        Expression::IsError(a) => Expression::IsError(Box::new(copy_expr(a))),
        Expression::IsNothing(a) => Expression::IsNothing(Box::new(copy_expr(a))),
        Expression::Propagate(a) => Expression::Propagate(Box::new(copy_expr(a))),
        Expression::ADTConstructor(t, c, args) => Expression::ADTConstructor(
            t.clone(),
            c.clone(),
            copy_boxed(args),
        ),
    }
}

pub fn copy_exprs(v: &Vec<Expression>) -> (r: Vec<Expression>)
    ensures
        exprs_m(r@) == exprs_m(v@),
        r@.len() == v@.len(),
    decreases v,
{
    let mut out: Vec<Expression> = Vec::new();
    let mut i: usize = 0;
    while i < v.len()
        invariant
            i <= v@.len(),
            out@.len() == i,
            exprs_m(out@) == exprs_m(v@.subrange(0, i as int)),
        decreases v@.len() - i,
    {
        proof {
            assert(decreases_to!(v => v@[i as int]));
        }
        let c = copy_expr(&v[i]);
        proof {
            assert(v@.subrange(0, i as int + 1).drop_last() == v@.subrange(0, i as int));
            assert(out@.push(c).drop_last() == out@);
        }
        out.push(c);
        i = i + 1;
    }
    assert(v@.subrange(0, v@.len() as int) == v@);
    out
}

pub fn copy_boxed(v: &Vec<Box<Expression>>) -> (r: Vec<Box<Expression>>)
    ensures
        boxed_m(r@) == boxed_m(v@),
        r@.len() == v@.len(),
    decreases v,
{
    let mut out: Vec<Box<Expression>> = Vec::new();
    let mut i: usize = 0;
    while i < v.len()
        invariant
            i <= v@.len(),
            out@.len() == i,
            boxed_m(out@) == boxed_m(v@.subrange(0, i as int)),
        decreases v@.len() - i,
    {
        proof {
            assert(decreases_to!(v => v@[i as int]));
        }
        let c = Box::new(copy_expr(&v[i]));
        proof {
            assert(v@.subrange(0, i as int + 1).drop_last() == v@.subrange(0, i as int));
            assert(out@.push(c).drop_last() == out@);
        }
        out.push(c);
        i = i + 1;
    }
    assert(v@.subrange(0, v@.len() as int) == v@);
    out
}

pub fn copy_params(p: &Option<Vec<(Name, Type)>>) -> (r: Option<Vec<(Name, Type)>>)
    ensures
        param_names(r) == param_names(*p),
        param_types(r) == param_types(*p),
{
    match p {
        None => None,
        Some(v) => {
            let mut out: Vec<(Name, Type)> = Vec::new();
            let mut i: usize = 0;
            while i < v.len()
                invariant
                    i <= v@.len(),
                    out@.len() == i,
                    forall|j: int| 0 <= j < i ==> #[trigger] out@[j].0@ == v@[j].0@,
                    forall|j: int| 0 <= j < i ==> #[trigger] type_m(out@[j].1) == type_m(v@[j].1),
                decreases v@.len() - i,
            {
                out.push((v[i].0.clone(), copy_type(&v[i].1)));
                i = i + 1;
            }
            assert(param_names(Some(out)) =~= param_names(Some(*v)));
            assert(param_types(Some(out)) =~= param_types(Some(*v)));
            Some(out)
        },
    }
}

pub fn copy_function(f: &Function) -> (r: Function)
    ensures
        func_m(r) == func_m(*f),
    decreases f,
{
    let kind = match &f.kind {
        Some(t) => Some(copy_type(t)),
        None => None,
    };
    let body = match &f.body {
        Some(b) => Some(Box::new(copy_stmt(b))),
        None => None,
    };
    Function { name: f.name.clone(), kind, params: copy_params(&f.params), body }
}

pub fn copy_stmt(s: &Statement) -> (r: Statement)
    ensures
        stmt_m(r) == stmt_m(*s),
    decreases s,
{
    match s {
        Statement::VarDeclaration(n) => Statement::VarDeclaration(n.clone()),
        Statement::ValDeclaration(n) => Statement::ValDeclaration(n.clone()),
        Statement::Assignment(n, e, t) => {
            let t2 = match t {
                Some(x) => Some(copy_type(x)),
                None => None,
            };
            Statement::Assignment(n.clone(), Box::new(copy_expr(e)), t2)
        },
        Statement::IfThenElse(c, t, e) => {
            let e2 = match e {
                Some(b) => Some(Box::new(copy_stmt(b))),
                None => None,
            };
            Statement::IfThenElse(Box::new(copy_expr(c)), Box::new(copy_stmt(t)), e2)
        },
        Statement::While(c, b) => Statement::While(Box::new(copy_expr(c)), Box::new(copy_stmt(b))),
        Statement::Block(v) => Statement::Block(copy_stmts(v)),
        Statement::Sequence(a, b) => Statement::Sequence(
            Box::new(copy_stmt(a)),
            Box::new(copy_stmt(b)),
        ),
        Statement::AssertTrue(e, m) => Statement::AssertTrue(Box::new(copy_expr(e)), m.clone()),
        Statement::AssertFalse(e, m) => Statement::AssertFalse(Box::new(copy_expr(e)), m.clone()),
        Statement::AssertEQ(a, b, m) => Statement::AssertEQ(
            Box::new(copy_expr(a)),
            Box::new(copy_expr(b)),
            m.clone(),
        ),
        Statement::AssertNEQ(a, b, m) => Statement::AssertNEQ(
            Box::new(copy_expr(a)),
            Box::new(copy_expr(b)),
            m.clone(),
        ),
        Statement::TestDef(f) => Statement::TestDef(copy_function(f)),
        Statement::ModTestDef(n, b) => Statement::ModTestDef(n.clone(), Box::new(copy_stmt(b))),
        Statement::AssertFails(m) => Statement::AssertFails(m.clone()),
        Statement::FuncDef(f) => Statement::FuncDef(copy_function(f)),
        Statement::Return(e) => Statement::Return(Box::new(copy_expr(e))),
        Statement::ADTDeclaration(n, cs) => Statement::ADTDeclaration(n.clone(), copy_ctors(cs)),
        Statement::Match(e, cases) => Statement::Match(Box::new(copy_expr(e)), copy_cases(cases)),
    }
}

pub fn copy_stmts(v: &Vec<Statement>) -> (r: Vec<Statement>)
    ensures
        stmts_m(r@) == stmts_m(v@),
    decreases v,
{
    let mut out: Vec<Statement> = Vec::new();
    let mut i: usize = 0;
    while i < v.len()
        invariant
            i <= v@.len(),
            out@.len() == i,
            stmts_m(out@) == stmts_m(v@.subrange(0, i as int)),
        decreases v@.len() - i,
    {
        proof {
            assert(decreases_to!(v => v@[i as int]));
        }
        let c = copy_stmt(&v[i]);
        proof {
            assert(v@.subrange(0, i as int + 1).drop_last() == v@.subrange(0, i as int));
            assert(out@.push(c).drop_last() == out@);
        }
        out.push(c);
        i = i + 1;
    }
    assert(v@.subrange(0, v@.len() as int) == v@);
    out
}

pub fn copy_cases(v: &Vec<(Expression, Box<Statement>)>) -> (r: Vec<(Expression, Box<Statement>)>)
    ensures
        cases_m(r@) == cases_m(v@),
    decreases v,
{
    let mut out: Vec<(Expression, Box<Statement>)> = Vec::new();
    let mut i: usize = 0;
    while i < v.len()
        invariant
            i <= v@.len(),
            out@.len() == i,
            cases_m(out@) == cases_m(v@.subrange(0, i as int)),
        decreases v@.len() - i,
    {
        proof {
            assert(decreases_to!(v => v@[i as int]));
            assert(decreases_to!(v@[i as int] => v@[i as int].0));
            assert(decreases_to!(v@[i as int] => v@[i as int].1));
        }
        let c = (copy_expr(&v[i].0), Box::new(copy_stmt(&v[i].1)));
        proof {
            assert(v@.subrange(0, i as int + 1).drop_last() == v@.subrange(0, i as int));
            assert(out@.push(c).drop_last() == out@);
        }
        out.push(c);
        i = i + 1;
    }
    assert(v@.subrange(0, v@.len() as int) == v@);
    out
}

pub fn copy_value(v: &EnvValue) -> (r: EnvValue)
    ensures
        value_m(r) == value_m(*v),
    decreases v,
{
    match v {
        EnvValue::Exp(e) => EnvValue::Exp(copy_expr(e)),
        EnvValue::Func(f) => EnvValue::Func(copy_function(f)),
        EnvValue::TestEnvironment(t) => {
            proof {
                assert(decreases_to!(t => t.env));
            }
            EnvValue::TestEnvironment(TestEnvironment { name: t.name.clone(), env: copy_env(&t.env) })
        },
    }
}

pub fn copy_env(e: &Environment) -> (r: Environment)
    ensures
        env_m(r) == env_m(*e),
    decreases e,
{
    Environment {
        scope: copy_function(&e.scope),
        recursion: e.recursion,
        stack: copy_stack(&e.stack),
        type_env: copy_type_env(&e.type_env),
    }
}

pub fn copy_type_env(v: &Vec<(Name, Vec<ValueConstructor>)>) -> (r: Vec<(Name, Vec<ValueConstructor>)>)
    ensures
        types_m(r@) == types_m(v@),
{
    let mut out: Vec<(Name, Vec<ValueConstructor>)> = Vec::new();
    let mut i: usize = 0;
    while i < v.len()
        invariant
            i <= v@.len(),
            out@.len() == i,
            forall|j: int| 0 <= j < i ==> #[trigger] out@[j].0@ == v@[j].0@,
            forall|j: int| 0 <= j < i ==> #[trigger] ctors_m(out@[j].1@) == ctors_m(v@[j].1@),
        decreases v@.len() - i,
    {
        out.push((v[i].0.clone(), copy_ctors(&v[i].1)));
        i = i + 1;
    }
    assert(types_m(out@) =~= types_m(v@));
    out
}

pub fn copy_stack(v: &Vec<((Name, i32), Frame)>) -> (r: Vec<((Name, i32), Frame)>)
    ensures
        stack_m(r@) == stack_m(v@),
    decreases v,
{
    let mut out: Vec<((Name, i32), Frame)> = Vec::new();
    let mut i: usize = 0;
    while i < v.len()
        invariant
            i <= v@.len(),
            out@.len() == i,
            stack_m(out@) == stack_m(v@.subrange(0, i as int)),
        decreases v@.len() - i,
    {
        proof {
            assert(decreases_to!(v => v@[i as int]));
            assert(decreases_to!(v@[i as int] => v@[i as int].1));
        }
        let c = ((v[i].0.0.clone(), v[i].0.1), copy_frame(&v[i].1));
        proof {
            assert(v@.subrange(0, i as int + 1).drop_last() == v@.subrange(0, i as int));
            assert(out@.push(c).drop_last() == out@);
        }
        out.push(c);
        i = i + 1;
    }
    assert(v@.subrange(0, v@.len() as int) == v@);
    out
}

pub fn copy_frame(f: &Frame) -> (r: Frame)
    ensures
        frame_m(r) == frame_m(*f),
    decreases f,
{
    let parent_function = match &f.parent_function {
        Some(p) => Some(copy_function(p)),
        None => None,
    };
    let parent_key = match &f.parent_key {
        Some(k) => Some((k.0.clone(), k.1)),
        None => None,
    };
    Frame {
        parent_function,
        parent_key,
        variables: copy_vars(&f.variables),
        tests: copy_tests(&f.tests),
    }
}

pub fn copy_vars(v: &Vec<(Name, EnvValue)>) -> (r: Vec<(Name, EnvValue)>)
    ensures
        vars_m(r@) == vars_m(v@),
    decreases v,
{
    let mut out: Vec<(Name, EnvValue)> = Vec::new();
    let mut i: usize = 0;
    while i < v.len()
        invariant
            i <= v@.len(),
            out@.len() == i,
            vars_m(out@) == vars_m(v@.subrange(0, i as int)),
        decreases v@.len() - i,
    {
        proof {
            assert(decreases_to!(v => v@[i as int]));
            assert(decreases_to!(v@[i as int] => v@[i as int].1));
        }
        let c = (v[i].0.clone(), copy_value(&v[i].1));
        proof {
            assert(v@.subrange(0, i as int + 1).drop_last() == v@.subrange(0, i as int));
            assert(out@.push(c).drop_last() == out@);
        }
        out.push(c);
        i = i + 1;
    }
    assert(v@.subrange(0, v@.len() as int) == v@);
    out
}

pub fn copy_tests(v: &Vec<(Name, Function)>) -> (r: Vec<(Name, Function)>)
    ensures
        tests_m(r@) == tests_m(v@),
{
    let mut out: Vec<(Name, Function)> = Vec::new();
    let mut i: usize = 0;
    while i < v.len()
        invariant
            i <= v@.len(),
            out@.len() == i,
            forall|j: int|
                0 <= j < i ==> #[trigger] out@[j].0@ == v@[j].0@ && func_m(out@[j].1) == func_m(
                    v@[j].1,
                ),
        decreases v@.len() - i,
    {
        out.push((v[i].0.clone(), copy_function(&v[i].1)));
        i = i + 1;
    }
    assert(tests_m(out@) =~= tests_m(v@));
    out
}

} // verus!
