//! The meaning of programs, over the models: what evaluating an expression
//! and executing a statement produce.
use crate::environment::{
    assoc, assoc_put, bind_test, bind_type, bind_var, empty_env, lookup,
    new_frame, scope_key,
};
use crate::model::{CtorM, EnvM, ExprM, FailM, FlowM, FrameM, FuncM, StmtM, ValueM};
use crate::rational::{
    int_div, int_real, real_add, real_cmp, real_div, real_mul, real_sub, saturate, Real,
};
use vstd::prelude::*;

verus! {

/// Bound on nested user-function calls.
pub const MAX_CALL_DEPTH: u64 = 200;

/// Bound on the iterations of one `while` loop.
pub const MAX_LOOP_ITERATIONS: u64 = 0x1_0000_0000;

#[derive(Clone, Copy, Debug, PartialEq, Eq)]
pub enum ArithOp {
    Add,
    Sub,
    Mul,
    Div,
}

#[derive(Clone, Copy, Debug, PartialEq, Eq)]
pub enum RelOp {
    Eq,
    Gt,
    Lt,
    Gte,
    Lte,
}

pub open spec fn is_constant(e: ExprM) -> bool {
    match e {
        ExprM::CTrue | ExprM::CFalse | ExprM::CInt(_) | ExprM::CReal(_) | ExprM::CString(_)
        | ExprM::CVoid | ExprM::CNothing => true,
        _ => false,
    }
}

pub open spec fn msg(s: Seq<char>) -> FailM {
    FailM::Message(s)
}

pub open spec fn arith_msg(op: ArithOp) -> Seq<char> {
    match op {
        ArithOp::Add => "addition '(+)' is only defined for numbers (integers and real)."@,
        ArithOp::Sub => "subtraction '(-)' is only defined for numbers (integers and real)."@,
        ArithOp::Mul => "multiplication '(*)' is only defined for numbers (integers and real)."@,
        ArithOp::Div => "division '(/)' is only defined for numbers (integers and real)."@,
    }
}

pub open spec fn rel_msg(op: RelOp) -> Seq<char> {
    match op {
        RelOp::Eq => "(==) is only defined for numbers (integers and real)."@,
        RelOp::Gt => "(>) is only defined for numbers (integers and real)."@,
        RelOp::Lt => "(<) is only defined for numbers (integers and real)."@,
        RelOp::Gte => "(>=) is only defined for numbers (integers and real)."@,
        RelOp::Lte => "(<=) is only defined for numbers (integers and real)."@,
    }
}

pub open spec fn cond_msg() -> Seq<char> {
    "Condition must evaluate to a boolean"@
}

pub open spec fn no_match_msg() -> Seq<char> {
    "no matching pattern found"@
}

pub open spec fn unsupported_pattern_msg() -> Seq<char> {
    "Unsupported pattern"@
}

pub open spec fn nothing_msg() -> Seq<char> {
    "Couldn't unwrap Nothing"@
}

pub open spec fn no_return_msg() -> Seq<char> {
    "Function did not return a value"@
}

pub open spec fn int_arith(op: ArithOp, a: i32, b: i32) -> i32 {
    match op {
        ArithOp::Add => saturate(a + b),
        ArithOp::Sub => saturate(a - b),
        ArithOp::Mul => saturate(a * b),
        ArithOp::Div => int_div(a, b),
    }
}

pub open spec fn real_arith(op: ArithOp, a: Real, b: Real) -> Real {
    match op {
        ArithOp::Add => real_add(a, b),
        ArithOp::Sub => real_sub(a, b),
        ArithOp::Mul => real_mul(a, b),
        ArithOp::Div => real_div(a, b),
    }
}

pub open spec fn real_value(r: Real) -> Result<ValueM, FailM> {
    Ok(ValueM::Exp(ExprM::CReal(r)))
}

/// An arithmetic operator applied to two values.
pub open spec fn arith_values(op: ArithOp, l: ValueM, r: ValueM) -> Result<ValueM, FailM> {
    match (l, r) {
        (ValueM::Exp(ExprM::CInt(a)), ValueM::Exp(ExprM::CInt(b))) => Ok(
            ValueM::Exp(ExprM::CInt(int_arith(op, a, b))),
        ),
        (ValueM::Exp(ExprM::CInt(a)), ValueM::Exp(ExprM::CReal(b))) => real_value(
            real_arith(op, int_real(a), b),
        ),
        (ValueM::Exp(ExprM::CReal(a)), ValueM::Exp(ExprM::CInt(b))) => real_value(
            real_arith(op, a, int_real(b)),
        ),
        (ValueM::Exp(ExprM::CReal(a)), ValueM::Exp(ExprM::CReal(b))) => real_value(
            real_arith(op, a, b),
        ),
        _ => Err(msg(arith_msg(op))),
    }
}

pub open spec fn rel_holds(op: RelOp, c: int) -> bool {
    match op {
        RelOp::Eq => c == 0,
        RelOp::Gt => c > 0,
        RelOp::Lt => c < 0,
        RelOp::Gte => c >= 0,
        RelOp::Lte => c <= 0,
    }
}

pub open spec fn bool_value(b: bool) -> ValueM {
    if b {
        ValueM::Exp(ExprM::CTrue)
    } else {
        ValueM::Exp(ExprM::CFalse)
    }
}

/// Sign of the difference of two numbers, integers taken as reals.
pub open spec fn num_cmp(l: ValueM, r: ValueM) -> Option<int> {
    match (l, r) {
        (ValueM::Exp(ExprM::CInt(a)), ValueM::Exp(ExprM::CInt(b))) => Some(
            if a < b {
                -1
            } else if a == b {
                0
            } else {
                1
            },
        ),
        (ValueM::Exp(ExprM::CInt(a)), ValueM::Exp(ExprM::CReal(b))) => Some(real_cmp(int_real(a), b)),
        (ValueM::Exp(ExprM::CReal(a)), ValueM::Exp(ExprM::CInt(b))) => Some(real_cmp(a, int_real(b))),
        (ValueM::Exp(ExprM::CReal(a)), ValueM::Exp(ExprM::CReal(b))) => Some(real_cmp(a, b)),
        _ => None,
    }
}

/// A relational operator applied to two values.
pub open spec fn rel_values(op: RelOp, l: ValueM, r: ValueM) -> Result<ValueM, FailM> {
    match num_cmp(l, r) {
        Some(c) => Ok(bool_value(rel_holds(op, c))),
        None => Err(msg(rel_msg(op))),
    }
}

/// `and` (when `is_and`) or `or` of two boolean values.
pub open spec fn bool_values(is_and: bool, l: ValueM, r: ValueM) -> Result<ValueM, FailM> {
    match (l, r) {
        (ValueM::Exp(ExprM::CTrue), ValueM::Exp(ExprM::CTrue)) => Ok(bool_value(true)),
        (ValueM::Exp(ExprM::CTrue), ValueM::Exp(ExprM::CFalse)) => Ok(bool_value(!is_and)),
        (ValueM::Exp(ExprM::CFalse), ValueM::Exp(ExprM::CTrue)) => Ok(bool_value(!is_and)),
        (ValueM::Exp(ExprM::CFalse), ValueM::Exp(ExprM::CFalse)) => Ok(bool_value(false)),
        _ => Err(
            msg(
                if is_and {
                    "'and' is only defined for booleans."@
                } else {
                    "'or' is only defined for booleans."@
                },
            ),
        ),
    }
}

/// Combines the outcomes of evaluating two operands; the left failure wins.
pub open spec fn both(
    l: Result<ValueM, FailM>,
    r: Result<ValueM, FailM>,
) -> Result<(ValueM, ValueM), FailM> {
    match l {
        Err(f) => Err(f),
        Ok(a) => match r {
            Err(f) => Err(f),
            Ok(b) => Ok((a, b)),
        },
    }
}

pub open spec fn then_arith(op: ArithOp, p: Result<(ValueM, ValueM), FailM>) -> Result<ValueM, FailM> {
    match p {
        Err(f) => Err(f),
        Ok(v) => arith_values(op, v.0, v.1),
    }
}

pub open spec fn then_rel(op: RelOp, p: Result<(ValueM, ValueM), FailM>) -> Result<ValueM, FailM> {
    match p {
        Err(f) => Err(f),
        Ok(v) => rel_values(op, v.0, v.1),
    }
}

pub open spec fn then_bool(is_and: bool, p: Result<(ValueM, ValueM), FailM>) -> Result<ValueM, FailM> {
    match p {
        Err(f) => Err(f),
        Ok(v) => bool_values(is_and, v.0, v.1),
    }
}

pub open spec fn not_value(r: Result<ValueM, FailM>) -> Result<ValueM, FailM> {
    match r {
        Err(f) => Err(f),
        Ok(ValueM::Exp(ExprM::CTrue)) => Ok(bool_value(false)),
        Ok(ValueM::Exp(ExprM::CFalse)) => Ok(bool_value(true)),
        Ok(_) => Err(msg("'not' is only defined for booleans."@)),
    }
}

/// `Unwrap`: the content of `Just` or `Ok`; anything else fails.
pub open spec fn unwrap_value(r: Result<ValueM, FailM>) -> Result<ValueM, FailM> {
    match r {
        Err(f) => Err(f),
        Ok(ValueM::Exp(ExprM::CJust(x))) => Ok(ValueM::Exp(*x)),
        Ok(ValueM::Exp(ExprM::COk(x))) => Ok(ValueM::Exp(*x)),
        Ok(_) => Err(msg("'unwrap' expects a Just or Ok."@)),
    }
}

/// `IsError`: true exactly on `Err`.
pub open spec fn is_error_value(r: Result<ValueM, FailM>) -> Result<ValueM, FailM> {
    match r {
        Err(f) => Err(f),
        Ok(v) => Ok(bool_value(v matches ValueM::Exp(ExprM::CErr(_)))),
    }
}

/// `IsNothing`: true exactly on `Nothing`.
pub open spec fn is_nothing_value(r: Result<ValueM, FailM>) -> Result<ValueM, FailM> {
    match r {
        Err(f) => Err(f),
        Ok(v) => Ok(bool_value(v == ValueM::Exp(ExprM::CNothing))),
    }
}

/// Wraps an evaluated expression: 0 for `Just`, 1 for `Ok`, 2 for `Err`.
pub open spec fn wrap_value(kind: int, r: Result<ValueM, FailM>) -> Result<ValueM, FailM> {
    match r {
        Err(f) => Err(f),
        Ok(ValueM::Exp(x)) => Ok(
            ValueM::Exp(
                if kind == 0 {
                    ExprM::CJust(Box::new(x))
                } else if kind == 1 {
                    ExprM::COk(Box::new(x))
                } else {
                    ExprM::CErr(Box::new(x))
                },
            ),
        ),
        Ok(_) => Err(msg("Expression not recognized."@)),
    }
}

/// `Propagate`: unwraps `Just` and `Ok`; on `Err` or `Nothing` raises the
/// propagation signal carrying the error value.
pub open spec fn propagate_value(r: Result<ValueM, FailM>) -> Result<ValueM, FailM> {
    match r {
        Err(f) => Err(f),
        Ok(ValueM::Exp(ExprM::CJust(x))) => Ok(ValueM::Exp(*x)),
        Ok(ValueM::Exp(ExprM::COk(x))) => Ok(ValueM::Exp(*x)),
        Ok(ValueM::Exp(ExprM::CErr(x))) => Err(FailM::Propagated(*x)),
        Ok(ValueM::Exp(ExprM::CNothing)) => Err(FailM::Propagated(ExprM::CString(nothing_msg()))),
        Ok(_) => Err(msg("'propagate' expects a Just, Ok, Err or Nothing."@)),
    }
}

/// The constructor named `c` (the last one declared under that name).
pub open spec fn find_ctor(cs: Seq<CtorM>, c: Seq<char>) -> Option<CtorM>
    decreases cs.len(),
{
    if cs.len() == 0 {
        None
    } else if cs.last().name == c {
        Some(cs.last())
    } else {
        find_ctor(cs.drop_last(), c)
    }
}

/// Binds the function-valued pairs of `vars`, in order, into `acc`.
pub open spec fn put_functions(acc: Seq<(Seq<char>, ValueM)>, vars: Seq<(Seq<char>, ValueM)>) -> Seq<
    (Seq<char>, ValueM),
>
    decreases vars.len(),
{
    if vars.len() == 0 {
        acc
    } else {
        let a = put_functions(acc, vars.drop_last());
        if vars.last().1 is Func {
            assoc_put(a, vars.last().0, vars.last().1)
        } else {
            a
        }
    }
}

/// The function bindings of the frames from `key` outward to the root, later
/// (outer) frames overriding earlier ones.
pub open spec fn collect_functions(
    e: EnvM,
    key: (Seq<char>, i32),
    steps: nat,
    acc: Seq<(Seq<char>, ValueM)>,
) -> Seq<(Seq<char>, ValueM)>
    decreases steps,
{
    match assoc(e.stack, key) {
        None => acc,
        Some(f) => {
            let a = put_functions(acc, f.variables);
            match f.parent_key {
                Some(pk) => if steps > 0 {
                    collect_functions(e, pk, (steps - 1) as nat, a)
                } else {
                    a
                },
                None => a,
            }
        },
    }
}

/// Binds the first `n` parameters to the first `n` values.
pub open spec fn bind_params(
    acc: Seq<(Seq<char>, ValueM)>,
    params: Seq<Seq<char>>,
    vals: Seq<ValueM>,
    n: nat,
) -> Seq<(Seq<char>, ValueM)>
    decreases n,
{
    if n == 0 {
        acc
    } else {
        assoc_put(bind_params(acc, params, vals, (n - 1) as nat), params[n - 1], vals[n - 1])
    }
}

/// The environment a call of `f` with argument values `vals` runs in (only the
/// arguments paired with a parameter are evaluated and bound): a fresh
/// environment whose root frame holds the caller's visible functions, then
/// the parameters; the ADT table is shared.
pub open spec fn call_env(caller: EnvM, f: FuncM, vals: Seq<ValueM>) -> EnvM {
    let funcs = collect_functions(caller, scope_key(caller), caller.stack.len(), Seq::empty());
    let vars = bind_params(funcs, f.params, vals, min(f.params.len() as int, vals.len() as int) as nat);
    EnvM {
        stack: seq![(("__main__"@, 0i32), FrameM { variables: vars, ..new_frame(None, None) })],
        types: caller.types,
        ..empty_env()
    }
}

pub open spec fn min(a: int, b: int) -> int {
    if a < b {
        a
    } else {
        b
    }
}

pub open spec fn lift(r: Result<FlowM, Seq<char>>) -> Result<FlowM, FailM> {
    match r {
        Ok(x) => Ok(x),
        Err(m) => Err(FailM::Message(m)),
    }
}

/// A test function with the implicit `return void` appended to its body.
pub open spec fn test_function(f: FuncM) -> FuncM {
    let ret = StmtM::Return(ExprM::CVoid);
    FuncM {
        body: Some(
            Box::new(
                match f.body {
                    Some(b) => StmtM::Sequence(b, Box::new(ret)),
                    None => ret,
                },
            ),
        ),
        ..f
    }
}

pub open spec fn digit(n: int) -> char {
    if n == 0 {
        '0'
    } else if n == 1 {
        '1'
    } else if n == 2 {
        '2'
    } else if n == 3 {
        '3'
    } else if n == 4 {
        '4'
    } else if n == 5 {
        '5'
    } else if n == 6 {
        '6'
    } else if n == 7 {
        '7'
    } else if n == 8 {
        '8'
    } else {
        '9'
    }
}

/// Decimal digits of `n`.
pub open spec fn nat_text(n: nat) -> Seq<char>
    decreases n,
{
    if n < 10 {
        seq![digit(n as int)]
    } else {
        nat_text(n / 10).push(digit((n % 10) as int))
    }
}

/// Decimal text of `n`, with a minus sign when negative.
pub open spec fn int_text(n: int) -> Seq<char> {
    if n < 0 {
        seq!['-'] + nat_text((-n) as nat)
    } else {
        nat_text(n as nat)
    }
}

/// Text of an error value carried out of the program.
pub open spec fn render(e: ExprM) -> Seq<char>
    decreases e,
{
    match e {
        ExprM::CString(s) => s,
        ExprM::CInt(n) => int_text(n as int),
        ExprM::CReal(r) => int_text(r.num as int) + seq!['/'] + int_text(r.den as int),
        ExprM::CTrue => "true"@,
        ExprM::CFalse => "false"@,
        ExprM::CVoid => "void"@,
        ExprM::CNothing => "Nothing"@,
        ExprM::CJust(x) => "Just("@ + render(*x) + ")"@,
        ExprM::COk(x) => "Ok("@ + render(*x) + ")"@,
        ExprM::CErr(x) => "Err("@ + render(*x) + ")"@,
        ExprM::ADTConstructor(_, c, args) => c + "("@ + render_list(args) + ")"@,
        _ => "expression"@,
    }
}

/// The texts of the values, separated by commas.
pub open spec fn render_list(s: Seq<ExprM>) -> Seq<char>
    decreases s,
{
    if s.len() == 0 {
        Seq::empty()
    } else if s.len() == 1 {
        render(s[0])
    } else {
        render_list(s.drop_last()) + ", "@ + render(s.last())
    }
}

/// Turns the propagation signal raised by a statement into program
/// termination (at depth zero) or into returning the error value. The carried
/// expression is already a value, so it is rendered as it stands.
pub open spec fn handle(r: Result<FlowM, FailM>, env: EnvM) -> Result<FlowM, Seq<char>> {
    match r {
        Ok(x) => Ok(x),
        Err(FailM::Message(m)) => Err(m),
        Err(FailM::Propagated(v)) => if env.recursion == 0 {
            Err("terminated with errors: "@ + render(v))
        } else {
            Ok(FlowM::Return(ValueM::Exp(ExprM::CErr(Box::new(v)))))
        },
    }
}

pub open spec fn expr_size(e: ExprM) -> nat
    decreases e,
{
    match e {
        ExprM::Add(a, b) | ExprM::Sub(a, b) | ExprM::Mul(a, b) | ExprM::Div(a, b) | ExprM::And(a, b)
        | ExprM::Or(a, b) | ExprM::EQ(a, b) | ExprM::GT(a, b) | ExprM::LT(a, b) | ExprM::GTE(a, b)
        | ExprM::LTE(a, b) => 1 + expr_size(*a) + expr_size(*b),
        ExprM::Not(a) | ExprM::COk(a) | ExprM::CErr(a) | ExprM::CJust(a) | ExprM::Unwrap(a)
        | ExprM::IsError(a) | ExprM::IsNothing(a) | ExprM::Propagate(a) => 1 + expr_size(*a),
        ExprM::FuncCall(_, args) => 1 + exprs_size(args),
        ExprM::ADTConstructor(_, _, args) => 1 + exprs_size(args),
        _ => 1,
    }
}

pub open spec fn exprs_size(s: Seq<ExprM>) -> nat
    decreases s,
{
    if s.len() == 0 {
        0
    } else {
        exprs_size(s.drop_last()) + expr_size(s.last()) + 1
    }
}

/// Size of a statement as the executor walks it (function bodies excluded).
pub open spec fn stmt_size(s: StmtM) -> nat
    decreases s,
{
    match s {
        StmtM::Assignment(_, e, _) | StmtM::Return(e) | StmtM::AssertTrue(e, _) | StmtM::AssertFalse(
            e,
            _,
        ) => 1 + expr_size(e),
        StmtM::AssertEQ(a, b, _) | StmtM::AssertNEQ(a, b, _) => 2 + expr_size(a) + expr_size(b),
        StmtM::IfThenElse(c, t, el) => 1 + expr_size(c) + stmt_size(*t) + match el {
            Some(x) => stmt_size(*x),
            None => 0,
        },
        StmtM::While(c, b) => 2 + expr_size(c) + stmt_size(*b),
        StmtM::Block(v) => 1 + stmts_size(v),
        StmtM::Sequence(a, b) => 1 + stmt_size(*a) + stmt_size(*b),
        StmtM::ModTestDef(_, b) => 1 + stmt_size(*b),
        StmtM::Match(e, cases) => 1 + expr_size(e) + cases_size(cases),
        _ => 1,
    }
}

pub open spec fn stmts_size(s: Seq<StmtM>) -> nat
    decreases s,
{
    if s.len() == 0 {
        0
    } else {
        stmts_size(s.drop_last()) + stmt_size(s.last()) + 1
    }
}

pub open spec fn cases_size(s: Seq<(ExprM, StmtM)>) -> nat
    decreases s,
{
    if s.len() == 0 {
        0
    } else {
        cases_size(s.drop_last()) + expr_size(s.last().0) + stmt_size(s.last().1) + 1
    }
}

/// A prefix of a sequence of expressions is no larger than the sequence.
pub proof fn lemma_prefix_size(s: Seq<ExprM>, k: int)
    requires
        0 <= k <= s.len(),
    ensures
        exprs_size(s.subrange(0, k)) <= exprs_size(s),
    decreases s.len(),
{
    if k < s.len() {
        assert(s.drop_last().subrange(0, k) == s.subrange(0, k));
        lemma_prefix_size(s.drop_last(), k);
    } else {
        assert(s.subrange(0, k) == s);
    }
}

/// Structural match of a value against an evaluated pattern.
pub open spec fn match_value(v: ExprM, p: ExprM) -> Result<bool, FailM>
    decreases p,
{
    match p {
        ExprM::ADTConstructor(pt, pc, pargs) => match v {
            ExprM::ADTConstructor(t, c, fields) => if t != pt || c != pc {
                Ok(false)
            } else {
                match_values(fields, pargs)
            },
            _ => Err(msg(unsupported_pattern_msg())),
        },
        _ => if is_constant(p) {
            Ok(v == p)
        } else {
            Err(msg(unsupported_pattern_msg()))
        },
    }
}

/// Position-wise match of fields against evaluated patterns.
pub open spec fn match_values(fields: Seq<ExprM>, pats: Seq<ExprM>) -> Result<bool, FailM>
    decreases pats,
{
    if pats.len() == 0 {
        Ok(true)
    } else {
        match match_values(fields, pats.drop_last()) {
            Err(f) => Err(f),
            Ok(false) => Ok(false),
            Ok(true) => if pats.len() > fields.len() {
                Ok(false)
            } else {
                match_value(fields[pats.len() - 1], pats.last())
            },
        }
    }
}

/// Evaluation of an expression, with `d` further user-function calls allowed.
pub open spec fn eval(e: ExprM, env: EnvM, d: nat) -> Result<ValueM, FailM>
    decreases d, expr_size(e), 0nat,
{
    match e {
        ExprM::Add(a, b) => then_arith(ArithOp::Add, both(eval(*a, env, d), eval(*b, env, d))),
        ExprM::Sub(a, b) => then_arith(ArithOp::Sub, both(eval(*a, env, d), eval(*b, env, d))),
        ExprM::Mul(a, b) => then_arith(ArithOp::Mul, both(eval(*a, env, d), eval(*b, env, d))),
        ExprM::Div(a, b) => then_arith(ArithOp::Div, both(eval(*a, env, d), eval(*b, env, d))),
        ExprM::And(a, b) => then_bool(true, both(eval(*a, env, d), eval(*b, env, d))),
        ExprM::Or(a, b) => then_bool(false, both(eval(*a, env, d), eval(*b, env, d))),
        ExprM::Not(a) => not_value(eval(*a, env, d)),
        ExprM::EQ(a, b) => then_rel(RelOp::Eq, both(eval(*a, env, d), eval(*b, env, d))),
        ExprM::GT(a, b) => then_rel(RelOp::Gt, both(eval(*a, env, d), eval(*b, env, d))),
        ExprM::LT(a, b) => then_rel(RelOp::Lt, both(eval(*a, env, d), eval(*b, env, d))),
        ExprM::GTE(a, b) => then_rel(RelOp::Gte, both(eval(*a, env, d), eval(*b, env, d))),
        ExprM::LTE(a, b) => then_rel(RelOp::Lte, both(eval(*a, env, d), eval(*b, env, d))),
        ExprM::Var(n) => match lookup(env, n) {
            Some(v) => Ok(v),
            None => Err(msg("Variable "@ + n + " not found"@)),
        },
        ExprM::Unwrap(a) => unwrap_value(eval(*a, env, d)),
        ExprM::IsError(a) => is_error_value(eval(*a, env, d)),
        ExprM::IsNothing(a) => is_nothing_value(eval(*a, env, d)),
        ExprM::CJust(a) => wrap_value(0, eval(*a, env, d)),
        ExprM::COk(a) => wrap_value(1, eval(*a, env, d)),
        ExprM::CErr(a) => wrap_value(2, eval(*a, env, d)),
        ExprM::Propagate(a) => propagate_value(eval(*a, env, d)),
        ExprM::FuncCall(n, args) => match lookup(env, n) {
            Some(ValueM::Func(f)) => {
                let k = min(f.params.len() as int, args.len() as int);
                proof {
                    lemma_prefix_size(args, k);
                }
                match eval_args(args.subrange(0, k), env, d) {
                    Err(x) => Err(x),
                    Ok(vals) => if d == 0 {
                        Err(msg("Maximum call depth exceeded"@))
                    } else {
                        match f.body {
                            None => Err(msg(no_return_msg())),
                            Some(b) => match exec(*b, call_env(env, f, vals), (d - 1) as nat) {
                                Ok(FlowM::Return(v)) => Ok(v),
                                Ok(FlowM::Continue(_)) => Err(msg(no_return_msg())),
                                Err(m) => Err(msg(m)),
                            },
                        }
                    },
                }
            },
            _ => Err(msg("Function "@ + n + " not found"@)),
        },
        ExprM::ADTConstructor(t, c, args) => match assoc(env.types, t) {
            None => Err(msg("ADT "@ + t + " not declared"@)),
            Some(cs) => match find_ctor(cs, c) {
                None => Err(msg("Constructor "@ + c + " not found in ADT "@ + t)),
                Some(ctor) => if ctor.types.len() != args.len() {
                    Err(msg("Wrong number of arguments for constructor "@ + c))
                } else {
                    match eval_fields(args, env, d) {
                        Err(x) => Err(x),
                        Ok(vals) => Ok(ValueM::Exp(ExprM::ADTConstructor(t, c, vals))),
                    }
                },
            },
        },
        _ => Ok(ValueM::Exp(e)),
    }
}

/// Evaluates arguments left to right; the first failure wins.
pub open spec fn eval_args(args: Seq<ExprM>, env: EnvM, d: nat) -> Result<Seq<ValueM>, FailM>
    decreases d, exprs_size(args), 1nat,
{
    if args.len() == 0 {
        Ok(Seq::empty())
    } else {
        match eval_args(args.drop_last(), env, d) {
            Err(x) => Err(x),
            Ok(vs) => match eval(args.last(), env, d) {
                Err(x) => Err(x),
                Ok(v) => Ok(vs.push(v)),
            },
        }
    }
}

/// Evaluates constructor arguments left to right; each must give an expression.
pub open spec fn eval_fields(args: Seq<ExprM>, env: EnvM, d: nat) -> Result<Seq<ExprM>, FailM>
    decreases d, exprs_size(args), 1nat,
{
    if args.len() == 0 {
        Ok(Seq::empty())
    } else {
        match eval_fields(args.drop_last(), env, d) {
            Err(x) => Err(x),
            Ok(vs) => match eval(args.last(), env, d) {
                Err(x) => Err(x),
                Ok(ValueM::Exp(v)) => Ok(vs.push(v)),
                Ok(_) => Err(msg("Constructor arguments must be expressions"@)),
            },
        }
    }
}

/// Matches a value against a pattern as written: the arguments of an ADT
/// pattern are evaluated, then matched structurally.
pub open spec fn match_pattern(v: ExprM, p: ExprM, env: EnvM, d: nat) -> Result<bool, FailM>
    decreases d, expr_size(p), 0nat,
{
    match p {
        ExprM::ADTConstructor(pt, pc, pargs) => match v {
            ExprM::ADTConstructor(t, c, fields) => if t != pt || c != pc {
                Ok(false)
            } else {
                match eval_fields(pargs, env, d) {
                    Err(x) => Err(x),
                    Ok(pvals) => match_values(fields, pvals),
                }
            },
            _ => Err(msg(unsupported_pattern_msg())),
        },
        _ => if is_constant(p) {
            Ok(v == p)
        } else {
            Err(msg(unsupported_pattern_msg()))
        },
    }
}

/// Execution of a statement, with the propagation signal handled.
pub open spec fn exec(s: StmtM, env: EnvM, d: nat) -> Result<FlowM, Seq<char>>
    decreases d, stmt_size(s), 2nat,
{
    handle(exec_inner(s, env, d), env)
}

pub open spec fn exec_inner(s: StmtM, env: EnvM, d: nat) -> Result<FlowM, FailM>
    decreases d, stmt_size(s), 1nat,
{
    match s {
        StmtM::Assignment(n, e, _) => match eval(e, env, d) {
            Err(f) => Err(f),
            Ok(v) => Ok(FlowM::Continue(bind_var(env, n, v))),
        },
        StmtM::IfThenElse(c, t, el) => match eval(c, env, d) {
            Err(f) => Err(f),
            Ok(ValueM::Exp(ExprM::CTrue)) => lift(exec(*t, env, d)),
            Ok(ValueM::Exp(ExprM::CFalse)) => match el {
                Some(x) => lift(exec(*x, env, d)),
                None => Ok(FlowM::Continue(env)),
            },
            Ok(_) => Err(msg(cond_msg())),
        },
        StmtM::While(c, b) => exec_while(c, *b, env, d, MAX_LOOP_ITERATIONS as nat),
        StmtM::Block(v) => exec_block(v, env, d),
        StmtM::Sequence(a, b) => match exec(*a, env, d) {
            Err(m) => Err(msg(m)),
            Ok(FlowM::Return(v)) => Ok(FlowM::Return(v)),
            Ok(FlowM::Continue(e2)) => lift(exec(*b, e2, d)),
        },
        StmtM::AssertTrue(e, m) => match eval(e, env, d) {
            Err(f) => Err(f),
            Ok(ValueM::Exp(ExprM::CTrue)) => Ok(FlowM::Continue(env)),
            Ok(ValueM::Exp(ExprM::CFalse)) => Err(msg(m)),
            Ok(_) => Err(msg(cond_msg())),
        },
        StmtM::AssertFalse(e, m) => match eval(e, env, d) {
            Err(f) => Err(f),
            Ok(ValueM::Exp(ExprM::CFalse)) => Ok(FlowM::Continue(env)),
            Ok(ValueM::Exp(ExprM::CTrue)) => Err(msg(m)),
            Ok(_) => Err(msg(cond_msg())),
        },
        StmtM::AssertEQ(a, b, m) => match then_rel(RelOp::Eq, both(eval(a, env, d), eval(b, env, d))) {
            Err(f) => Err(f),
            Ok(ValueM::Exp(ExprM::CTrue)) => Ok(FlowM::Continue(env)),
            Ok(_) => Err(msg(m)),
        },
        StmtM::AssertNEQ(a, b, m) => match then_rel(RelOp::Eq, both(eval(a, env, d), eval(b, env, d))) {
            Err(f) => Err(f),
            Ok(ValueM::Exp(ExprM::CFalse)) => Ok(FlowM::Continue(env)),
            Ok(_) => Err(msg(m)),
        },
        StmtM::TestDef(f) => Ok(FlowM::Continue(bind_test(env, f.name, test_function(f)))),
        StmtM::ModTestDef(n, b) => match exec(*b, empty_env(), d) {
            Err(m) => Err(msg(m)),
            Ok(FlowM::Return(v)) => Ok(FlowM::Return(v)),
            Ok(FlowM::Continue(menv)) => Ok(FlowM::Continue(bind_var(env, n, ValueM::TestEnv(n, menv)))),
        },
        StmtM::AssertFails(m) => Err(msg(m)),
        StmtM::FuncDef(f) => Ok(FlowM::Continue(bind_var(env, f.name, ValueM::Func(f)))),
        StmtM::Return(e) => match eval(e, env, d) {
            Err(f) => Err(f),
            Ok(v) => Ok(FlowM::Return(v)),
        },
        StmtM::ADTDeclaration(n, cs) => Ok(FlowM::Continue(bind_type(env, n, cs))),
        StmtM::Match(e, cases) => match eval(e, env, d) {
            Err(f) => Err(f),
            Ok(ValueM::Exp(v)) => match try_cases(v, cases, env, d) {
                Err(f) => Err(f),
                Ok(Some(x)) => Ok(x),
                Ok(None) => Err(msg(no_match_msg())),
            },
            Ok(_) => Err(msg(unsupported_pattern_msg())),
        },
        _ => Err(msg("not implemented yet"@)),
    }
}

/// The remaining iterations of a `while` loop, at most `n` more.
pub open spec fn exec_while(c: ExprM, b: StmtM, env: EnvM, d: nat, n: nat) -> Result<FlowM, FailM>
    decreases d, expr_size(c) + stmt_size(b) + 1, n,
{
    match eval(c, env, d) {
        Err(f) => Err(f),
        Ok(ValueM::Exp(ExprM::CFalse)) => Ok(FlowM::Continue(env)),
        Ok(ValueM::Exp(ExprM::CTrue)) => if n == 0 {
            Err(msg("Loop iteration limit exceeded"@))
        } else {
            match exec(b, env, d) {
                Err(m) => Err(msg(m)),
                Ok(FlowM::Return(v)) => Ok(FlowM::Return(v)),
                Ok(FlowM::Continue(e2)) => exec_while(c, b, e2, d, (n - 1) as nat),
            }
        },
        Ok(_) => Err(msg(cond_msg())),
    }
}

/// The statements of a block in order; a return ends the block.
pub open spec fn exec_block(v: Seq<StmtM>, env: EnvM, d: nat) -> Result<FlowM, FailM>
    decreases d, stmts_size(v), 1nat,
{
    if v.len() == 0 {
        Ok(FlowM::Continue(env))
    } else {
        match exec_block(v.drop_last(), env, d) {
            Err(f) => Err(f),
            Ok(FlowM::Return(x)) => Ok(FlowM::Return(x)),
            Ok(FlowM::Continue(e2)) => lift(exec(v.last(), e2, d)),
        }
    }
}

/// Tries the cases in order: `None` when no pattern matched, else the outcome
/// of the body of the first case that matched.
pub open spec fn try_cases(v: ExprM, cases: Seq<(ExprM, StmtM)>, env: EnvM, d: nat) -> Result<
    Option<FlowM>,
    FailM,
>
    decreases d, cases_size(cases), 1nat,
{
    if cases.len() == 0 {
        Ok(None)
    } else {
        match try_cases(v, cases.drop_last(), env, d) {
            Err(f) => Err(f),
            Ok(Some(x)) => Ok(Some(x)),
            Ok(None) => match match_pattern(v, cases.last().0, env, d) {
                Err(f) => Err(f),
                Ok(false) => Ok(None),
                Ok(true) => match exec(cases.last().1, env, d) {
                    Ok(x) => Ok(Some(x)),
                    Err(m) => Err(msg(m)),
                },
            },
        }
    }
}

} // verus!
