use crate::rational::Real;
use vstd::prelude::*;

verus! {

/// Identifiers of variables, functions, types and tests.
pub type Name = String;

/// Static types, carried through declarations; evaluation reads only the
/// number of fields of an ADT constructor.
#[derive(Debug, PartialEq)]
pub enum Type {
    TInteger,
    TBool,
    TReal,
    TString,
    TVoid,
    TFunction(Box<Option<Type>>, Vec<Type>),
    TList(Box<Type>),
    TTuple(Vec<Type>),
    TMaybe(Box<Type>),
    TResult(Box<Type>, Box<Type>),
    TAny,
    Tadt(Name, Vec<ValueConstructor>),
}

/// One named case of an algebraic data type, with the types of its fields.
#[derive(Debug, PartialEq)]
pub struct ValueConstructor {
    pub name: Name,
    pub types: Vec<Type>,
}

/// Expressions; evaluated expressions double as the runtime values.
#[derive(Debug, PartialEq)]
pub enum Expression {
    CTrue,
    CFalse,
    CInt(i32),
    CReal(Real),
    CString(String),
    CVoid,
    Var(Name),
    FuncCall(Name, Vec<Expression>),
    Add(Box<Expression>, Box<Expression>),
    Sub(Box<Expression>, Box<Expression>),
    Mul(Box<Expression>, Box<Expression>),
    Div(Box<Expression>, Box<Expression>),
    And(Box<Expression>, Box<Expression>),
    Or(Box<Expression>, Box<Expression>),
    Not(Box<Expression>),
    EQ(Box<Expression>, Box<Expression>),
    GT(Box<Expression>, Box<Expression>),
    LT(Box<Expression>, Box<Expression>),
    GTE(Box<Expression>, Box<Expression>),
    LTE(Box<Expression>, Box<Expression>),
    COk(Box<Expression>),
    CErr(Box<Expression>),
    CJust(Box<Expression>),
    CNothing,
    Unwrap(Box<Expression>),
    IsError(Box<Expression>),
    IsNothing(Box<Expression>),
    Propagate(Box<Expression>),
    ADTConstructor(Name, Name, Vec<Box<Expression>>),
}

/// Statements of the language.
#[derive(Debug, PartialEq)]
pub enum Statement {
    VarDeclaration(Name),
    ValDeclaration(Name),
    Assignment(Name, Box<Expression>, Option<Type>),
    IfThenElse(Box<Expression>, Box<Statement>, Option<Box<Statement>>),
    While(Box<Expression>, Box<Statement>),
    Block(Vec<Statement>),
    Sequence(Box<Statement>, Box<Statement>),
    AssertTrue(Box<Expression>, String),
    AssertFalse(Box<Expression>, String),
    AssertEQ(Box<Expression>, Box<Expression>, String),
    AssertNEQ(Box<Expression>, Box<Expression>, String),
    TestDef(Function),
    ModTestDef(Name, Box<Statement>),
    AssertFails(String),
    FuncDef(Function),
    Return(Box<Expression>),
    ADTDeclaration(Name, Vec<ValueConstructor>),
    Match(Box<Expression>, Vec<(Expression, Box<Statement>)>),
}

/// A function: name, declared result type, parameters and body. A function
/// without a body is declared but not defined.
#[derive(Debug, PartialEq)]
pub struct Function {
    pub name: Name,
    pub kind: Option<Type>,
    pub params: Option<Vec<(Name, Type)>>,
    pub body: Option<Box<Statement>>,
}

/// A runtime value: an evaluated expression, a function, or a named test
/// module holding its own environment.
#[derive(Debug, PartialEq)]
pub enum EnvValue {
    Exp(Expression),
    Func(Function),
    TestEnvironment(TestEnvironment),
}

/// One scope: the function that owns it, the key of its lexical parent, and
/// its variable and test bindings (each name bound at most once).
#[derive(Debug, PartialEq)]
pub struct Frame {
    pub parent_function: Option<Function>,
    pub parent_key: Option<(Name, i32)>,
    pub variables: Vec<(Name, EnvValue)>,
    pub tests: Vec<(Name, Function)>,
}

/// The runtime environment: the active function, the recursion depth, every
/// frame keyed by `(function name, depth)`, and the global table of ADTs.
#[derive(Debug, PartialEq)]
pub struct Environment {
    pub scope: Function,
    pub recursion: i32,
    pub stack: Vec<((Name, i32), Frame)>,
    pub type_env: Vec<(Name, Vec<ValueConstructor>)>,
}

/// A named test module and the environment its body produced.
#[derive(Debug, PartialEq)]
pub struct TestEnvironment {
    pub name: Name,
    pub env: Environment,
}

/// Outcome of a statement: go on with an environment, or return a value.
#[derive(Debug, PartialEq)]
pub enum ControlFlow {
    Continue(Environment),
    Return(EnvValue),
}

/// Failure of an evaluation: an error message, or the internal signal raised
/// by `Propagate` on an error value, carrying that value.
#[derive(Debug, PartialEq)]
pub enum Failure {
    Message(String),
    Propagated(Expression),
}

/// Errors of the (separate) front end that turns source text into syntax.
#[derive(Debug)]
pub enum ParseError {
    IndentationError(usize),
    UnexpectedToken(String),
    InvalidExpression(String),
}

} // verus!
