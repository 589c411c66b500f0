//! Mathematical models of the syntax and runtime types: strings become
//! `Seq<char>` and vectors become `Seq`.
use crate::ast::{ControlFlow, EnvValue, Environment, Expression, Failure, Frame, Function, Name, Statement, Type, ValueConstructor};
use crate::rational::Real;
use vstd::prelude::*;

verus! {

pub enum TypeM {
    TInteger,
    TBool,
    TReal,
    TString,
    TVoid,
    TFunction(Option<Box<TypeM>>, Seq<TypeM>),
    TList(Box<TypeM>),
    TTuple(Seq<TypeM>),
    TMaybe(Box<TypeM>),
    TResult(Box<TypeM>, Box<TypeM>),
    TAny,
    Tadt(Seq<char>, Seq<CtorM>),
}

pub enum ExprM {
    CTrue,
    CFalse,
    CInt(i32),
    CReal(Real),
    CString(Seq<char>),
    CVoid,
    Var(Seq<char>),
    FuncCall(Seq<char>, Seq<ExprM>),
    Add(Box<ExprM>, Box<ExprM>),
    Sub(Box<ExprM>, Box<ExprM>),
    Mul(Box<ExprM>, Box<ExprM>),
    Div(Box<ExprM>, Box<ExprM>),
    And(Box<ExprM>, Box<ExprM>),
    Or(Box<ExprM>, Box<ExprM>),
    Not(Box<ExprM>),
    EQ(Box<ExprM>, Box<ExprM>),
    GT(Box<ExprM>, Box<ExprM>),
    LT(Box<ExprM>, Box<ExprM>),
    GTE(Box<ExprM>, Box<ExprM>),
    LTE(Box<ExprM>, Box<ExprM>),
    COk(Box<ExprM>),
    CErr(Box<ExprM>),
    CJust(Box<ExprM>),
    CNothing,
    Unwrap(Box<ExprM>),
    IsError(Box<ExprM>),
    IsNothing(Box<ExprM>),
    Propagate(Box<ExprM>),
    ADTConstructor(Seq<char>, Seq<char>, Seq<ExprM>),
}

pub enum StmtM {
    VarDeclaration(Seq<char>),
    ValDeclaration(Seq<char>),
    Assignment(Seq<char>, ExprM, Option<TypeM>),
    IfThenElse(ExprM, Box<StmtM>, Option<Box<StmtM>>),
    While(ExprM, Box<StmtM>),
    Block(Seq<StmtM>),
    Sequence(Box<StmtM>, Box<StmtM>),
    AssertTrue(ExprM, Seq<char>),
    AssertFalse(ExprM, Seq<char>),
    AssertEQ(ExprM, ExprM, Seq<char>),
    AssertNEQ(ExprM, ExprM, Seq<char>),
    TestDef(FuncM),
    ModTestDef(Seq<char>, Box<StmtM>),
    AssertFails(Seq<char>),
    FuncDef(FuncM),
    Return(ExprM),
    ADTDeclaration(Seq<char>, Seq<CtorM>),
    Match(ExprM, Seq<(ExprM, StmtM)>),
}

pub struct FuncM {
    pub name: Seq<char>,
    pub kind: Option<TypeM>,
    pub params: Seq<Seq<char>>,
    pub param_types: Seq<TypeM>,
    pub body: Option<Box<StmtM>>,
}

pub struct CtorM {
    pub name: Seq<char>,
    pub types: Seq<TypeM>,
}

pub enum ValueM {
    Exp(ExprM),
    Func(FuncM),
    TestEnv(Seq<char>, EnvM),
}

pub struct FrameM {
    pub parent_function: Option<FuncM>,
    pub parent_key: Option<(Seq<char>, i32)>,
    pub variables: Seq<(Seq<char>, ValueM)>,
    pub tests: Seq<(Seq<char>, FuncM)>,
}

pub struct EnvM {
    pub scope: FuncM,
    pub recursion: i32,
    pub stack: Seq<((Seq<char>, i32), FrameM)>,
    pub types: Seq<(Seq<char>, Seq<CtorM>)>,
}

pub enum FlowM {
    Continue(EnvM),
    Return(ValueM),
}

pub enum FailM {
    Message(Seq<char>),
    Propagated(ExprM),
}

pub open spec fn bx(e: Box<Expression>) -> ExprM {
    expr_m(*e)
}

pub open spec fn expr_m(e: Expression) -> ExprM
    decreases e,
{
    match e {
        Expression::CTrue => ExprM::CTrue,
        Expression::CFalse => ExprM::CFalse,
        Expression::CInt(n) => ExprM::CInt(n),
        Expression::CReal(r) => ExprM::CReal(r),
        Expression::CString(s) => ExprM::CString(s@),
        Expression::CVoid => ExprM::CVoid,
        Expression::Var(n) => ExprM::Var(n@),
        Expression::FuncCall(n, args) => ExprM::FuncCall(n@, exprs_m(args@)),
        Expression::Add(a, b) => ExprM::Add(Box::new(expr_m(*a)), Box::new(expr_m(*b))),
        Expression::Sub(a, b) => ExprM::Sub(Box::new(expr_m(*a)), Box::new(expr_m(*b))),
        Expression::Mul(a, b) => ExprM::Mul(Box::new(expr_m(*a)), Box::new(expr_m(*b))),
        Expression::Div(a, b) => ExprM::Div(Box::new(expr_m(*a)), Box::new(expr_m(*b))),
        Expression::And(a, b) => ExprM::And(Box::new(expr_m(*a)), Box::new(expr_m(*b))),
        Expression::Or(a, b) => ExprM::Or(Box::new(expr_m(*a)), Box::new(expr_m(*b))),
        Expression::Not(a) => ExprM::Not(Box::new(expr_m(*a))),
        Expression::EQ(a, b) => ExprM::EQ(Box::new(expr_m(*a)), Box::new(expr_m(*b))),
        Expression::GT(a, b) => ExprM::GT(Box::new(expr_m(*a)), Box::new(expr_m(*b))),
        Expression::LT(a, b) => ExprM::LT(Box::new(expr_m(*a)), Box::new(expr_m(*b))),
        Expression::GTE(a, b) => ExprM::GTE(Box::new(expr_m(*a)), Box::new(expr_m(*b))),
        Expression::LTE(a, b) => ExprM::LTE(Box::new(expr_m(*a)), Box::new(expr_m(*b))),
        Expression::COk(a) => ExprM::COk(Box::new(expr_m(*a))),
        Expression::CErr(a) => ExprM::CErr(Box::new(expr_m(*a))),
        Expression::CJust(a) => ExprM::CJust(Box::new(expr_m(*a))),
        Expression::CNothing => ExprM::CNothing,
        Expression::Unwrap(a) => ExprM::Unwrap(Box::new(expr_m(*a))),
        Expression::IsError(a) => ExprM::IsError(Box::new(expr_m(*a))),
        Expression::IsNothing(a) => ExprM::IsNothing(Box::new(expr_m(*a))),
        Expression::Propagate(a) => ExprM::Propagate(Box::new(expr_m(*a))),
        Expression::ADTConstructor(t, c, args) => ExprM::ADTConstructor(t@, c@, boxed_m(args@)),
    }
}

pub open spec fn exprs_m(s: Seq<Expression>) -> Seq<ExprM>
    decreases s,
{
    if s.len() == 0 {
        Seq::empty()
    } else {
        exprs_m(s.drop_last()).push(expr_m(s.last()))
    }
}

pub open spec fn boxed_m(s: Seq<Box<Expression>>) -> Seq<ExprM>
    decreases s,
{
    if s.len() == 0 {
        Seq::empty()
    } else {
        boxed_m(s.drop_last()).push(expr_m(*s.last()))
    }
}

pub open spec fn type_m(t: Type) -> TypeM
    decreases t,
{
    match t {
        Type::TInteger => TypeM::TInteger,
        Type::TBool => TypeM::TBool,
        Type::TReal => TypeM::TReal,
        Type::TString => TypeM::TString,
        Type::TVoid => TypeM::TVoid,
        Type::TFunction(r, args) => TypeM::TFunction(
            match *r {
                Some(x) => Some(Box::new(type_m(x))),
                None => None,
            },
            type_list_m(args@),
        ),
        Type::TList(x) => TypeM::TList(Box::new(type_m(*x))),
        Type::TTuple(xs) => TypeM::TTuple(type_list_m(xs@)),
        Type::TMaybe(x) => TypeM::TMaybe(Box::new(type_m(*x))),
        Type::TResult(a, b) => TypeM::TResult(Box::new(type_m(*a)), Box::new(type_m(*b))),
        Type::TAny => TypeM::TAny,
        Type::Tadt(n, cs) => TypeM::Tadt(n@, ctors_m(cs@)),
    }
}

pub open spec fn type_list_m(s: Seq<Type>) -> Seq<TypeM>
    decreases s,
{
    if s.len() == 0 {
        Seq::empty()
    } else {
        type_list_m(s.drop_last()).push(type_m(s.last()))
    }
}

pub open spec fn ctors_m(s: Seq<ValueConstructor>) -> Seq<CtorM>
    decreases s,
{
    if s.len() == 0 {
        Seq::empty()
    } else {
        ctors_m(s.drop_last()).push(CtorM { name: s.last().name@, types: type_list_m(s.last().types@) })
    }
}

pub open spec fn param_names(p: Option<Vec<(Name, Type)>>) -> Seq<Seq<char>> {
    match p {
        Some(v) => Seq::new(v@.len(), |i: int| v@[i].0@),
        None => Seq::empty(),
    }
}

pub open spec fn param_types(p: Option<Vec<(Name, Type)>>) -> Seq<TypeM> {
    match p {
        Some(v) => Seq::new(v@.len(), |i: int| type_m(v@[i].1)),
        None => Seq::empty(),
    }
}

pub open spec fn func_m(f: Function) -> FuncM
    decreases f,
{
    FuncM {
        name: f.name@,
        kind: match f.kind {
            Some(t) => Some(type_m(t)),
            None => None,
        },
        params: param_names(f.params),
        param_types: param_types(f.params),
        body: match f.body {
            Some(b) => Some(Box::new(stmt_m(*b))),
            None => None,
        },
    }
}

pub open spec fn stmt_m(s: Statement) -> StmtM
    decreases s,
{
    match s {
        Statement::VarDeclaration(n) => StmtM::VarDeclaration(n@),
        Statement::ValDeclaration(n) => StmtM::ValDeclaration(n@),
        Statement::Assignment(n, e, t) => StmtM::Assignment(
            n@,
            expr_m(*e),
            match t {
                Some(x) => Some(type_m(x)),
                None => None,
            },
        ),
        Statement::IfThenElse(c, t, e) => StmtM::IfThenElse(
            expr_m(*c),
            Box::new(stmt_m(*t)),
            match e {
                Some(b) => Some(Box::new(stmt_m(*b))),
                None => None,
            },
        ),
        Statement::While(c, b) => StmtM::While(expr_m(*c), Box::new(stmt_m(*b))),
        Statement::Block(v) => StmtM::Block(stmts_m(v@)),
        Statement::Sequence(a, b) => StmtM::Sequence(Box::new(stmt_m(*a)), Box::new(stmt_m(*b))),
        Statement::AssertTrue(e, m) => StmtM::AssertTrue(expr_m(*e), m@),
        Statement::AssertFalse(e, m) => StmtM::AssertFalse(expr_m(*e), m@),
        Statement::AssertEQ(a, b, m) => StmtM::AssertEQ(expr_m(*a), expr_m(*b), m@),
        Statement::AssertNEQ(a, b, m) => StmtM::AssertNEQ(expr_m(*a), expr_m(*b), m@),
        Statement::TestDef(f) => StmtM::TestDef(func_m(f)),
        Statement::ModTestDef(n, b) => StmtM::ModTestDef(n@, Box::new(stmt_m(*b))),
        Statement::AssertFails(m) => StmtM::AssertFails(m@),
        Statement::FuncDef(f) => StmtM::FuncDef(func_m(f)),
        Statement::Return(e) => StmtM::Return(expr_m(*e)),
        Statement::ADTDeclaration(n, cs) => StmtM::ADTDeclaration(n@, ctors_m(cs@)),
        Statement::Match(e, cases) => StmtM::Match(expr_m(*e), cases_m(cases@)),
    }
}

pub open spec fn stmts_m(s: Seq<Statement>) -> Seq<StmtM>
    decreases s,
{
    if s.len() == 0 {
        Seq::empty()
    } else {
        stmts_m(s.drop_last()).push(stmt_m(s.last()))
    }
}

pub open spec fn cases_m(s: Seq<(Expression, Box<Statement>)>) -> Seq<(ExprM, StmtM)>
    decreases s,
{
    if s.len() == 0 {
        Seq::empty()
    } else {
        cases_m(s.drop_last()).push((expr_m(s.last().0), stmt_m(*s.last().1)))
    }
}

pub open spec fn value_m(v: EnvValue) -> ValueM
    decreases v,
{
    match v {
        EnvValue::Exp(e) => ValueM::Exp(expr_m(e)),
        EnvValue::Func(f) => ValueM::Func(func_m(f)),
        EnvValue::TestEnvironment(t) => ValueM::TestEnv(t.name@, env_m(t.env)),
    }
}

pub open spec fn env_m(e: Environment) -> EnvM
    decreases e,
{
    EnvM {
        scope: func_m(e.scope),
        recursion: e.recursion,
        stack: stack_m(e.stack@),
        types: types_m(e.type_env@),
    }
}

pub open spec fn stack_m(s: Seq<((Name, i32), Frame)>) -> Seq<((Seq<char>, i32), FrameM)>
    decreases s,
{
    if s.len() == 0 {
        Seq::empty()
    } else {
        stack_m(s.drop_last()).push(((s.last().0.0@, s.last().0.1), frame_m(s.last().1)))
    }
}

pub open spec fn frame_m(f: Frame) -> FrameM
    decreases f,
{
    FrameM {
        parent_function: match f.parent_function {
            Some(p) => Some(func_m(p)),
            None => None,
        },
        parent_key: match f.parent_key {
            Some(k) => Some((k.0@, k.1)),
            None => None,
        },
        variables: vars_m(f.variables@),
        tests: tests_m(f.tests@),
    }
}

pub open spec fn vars_m(s: Seq<(Name, EnvValue)>) -> Seq<(Seq<char>, ValueM)>
    decreases s,
{
    if s.len() == 0 {
        Seq::empty()
    } else {
        vars_m(s.drop_last()).push((s.last().0@, value_m(s.last().1)))
    }
}

pub open spec fn tests_m(s: Seq<(Name, Function)>) -> Seq<(Seq<char>, FuncM)> {
    Seq::new(s.len(), |i: int| (s[i].0@, func_m(s[i].1)))
}

pub open spec fn types_m(s: Seq<(Name, Vec<ValueConstructor>)>) -> Seq<(Seq<char>, Seq<CtorM>)> {
    Seq::new(s.len(), |i: int| (s[i].0@, ctors_m(s[i].1@)))
}

pub open spec fn flow_m(c: ControlFlow) -> FlowM {
    match c {
        ControlFlow::Continue(e) => FlowM::Continue(env_m(e)),
        ControlFlow::Return(v) => FlowM::Return(value_m(v)),
    }
}

pub open spec fn fail_m(f: Failure) -> FailM {
    match f {
        Failure::Message(m) => FailM::Message(m@),
        Failure::Propagated(e) => FailM::Propagated(expr_m(e)),
    }
}

} // verus!
