//! Operators on evaluated values.
use crate::ast::{EnvValue, Expression, Failure};
use crate::model::{boxed_m, expr_m, fail_m, value_m, ExprM, FailM, ValueM};
use crate::rational::{
    add_int, add_real, cmp_real, div_int, div_real, mul_int, mul_real, sub_int, sub_real, Real,
};
use crate::lemmas::lemma_boxed_m;
use crate::semantics::{
    render_list,
    digit, int_text, nat_text,
    arith_msg, arith_values, bool_value, bool_values, is_error_value, is_nothing_value, not_value, propagate_value, rel_msg, rel_values, render, unwrap_value, wrap_value,
    ArithOp, RelOp,
};
use vstd::prelude::*;
use vstd::string::StringExecFns;

verus! {

/// The model of an evaluation outcome.
pub open spec fn res_m(r: Result<EnvValue, Failure>) -> Result<ValueM, FailM> {
    match r {
        Ok(v) => Ok(value_m(v)),
        Err(f) => Err(fail_m(f)),
    }
}

pub fn fail(s: &str) -> (r: Failure)
    ensures
        fail_m(r) == FailM::Message(s@),
{
    Failure::Message(String::from_str(s))
}

/// The text `a`, then `n`, then `b`.
pub fn text3(a: &str, n: &String, b: &str) -> (r: String)
    ensures
        r@ == a@ + n@ + b@,
{
    let mut m = String::from_str(a);
    m.append(n.as_str());
    m.append(b);
    m
}

fn arith_msg_exec(op: ArithOp) -> (r: Failure)
    ensures
        fail_m(r) == FailM::Message(arith_msg(op)),
{
    match op {
        ArithOp::Add => fail("addition '(+)' is only defined for numbers (integers and real)."),
        ArithOp::Sub => fail("subtraction '(-)' is only defined for numbers (integers and real)."),
        ArithOp::Mul => fail("multiplication '(*)' is only defined for numbers (integers and real)."),
        ArithOp::Div => fail("division '(/)' is only defined for numbers (integers and real)."),
    }
}

fn rel_msg_exec(op: RelOp) -> (r: Failure)
    ensures
        fail_m(r) == FailM::Message(rel_msg(op)),
{
    match op {
        RelOp::Eq => fail("(==) is only defined for numbers (integers and real)."),
        RelOp::Gt => fail("(>) is only defined for numbers (integers and real)."),
        RelOp::Lt => fail("(<) is only defined for numbers (integers and real)."),
        RelOp::Gte => fail("(>=) is only defined for numbers (integers and real)."),
        RelOp::Lte => fail("(<=) is only defined for numbers (integers and real)."),
    }
}

fn real_result(r: Real) -> (out: Result<EnvValue, Failure>)
    ensures
        res_m(out) == crate::semantics::real_value(r),
{
    Ok(EnvValue::Exp(Expression::CReal(r)))
}

fn real_op(op: ArithOp, a: Real, b: Real) -> (r: Real)
    ensures
        r == crate::semantics::real_arith(op, a, b),
{
    match op {
        ArithOp::Add => add_real(a, b),
        ArithOp::Sub => sub_real(a, b),
        ArithOp::Mul => mul_real(a, b),
        ArithOp::Div => div_real(a, b),
    }
}

/// An arithmetic operator applied to two values.
pub fn arith(op: ArithOp, l: &EnvValue, r: &EnvValue) -> (out: Result<EnvValue, Failure>)
    ensures
        res_m(out) == arith_values(op, value_m(*l), value_m(*r)),
{
    match (l, r) {
        (EnvValue::Exp(Expression::CInt(a)), EnvValue::Exp(Expression::CInt(b))) => {
            let v = match op {
                ArithOp::Add => add_int(*a, *b),
                ArithOp::Sub => sub_int(*a, *b),
                ArithOp::Mul => mul_int(*a, *b),
                ArithOp::Div => div_int(*a, *b),
            };
            Ok(EnvValue::Exp(Expression::CInt(v)))
        },
        (EnvValue::Exp(Expression::CInt(a)), EnvValue::Exp(Expression::CReal(b))) => real_result(
            real_op(op, Real::from_int(*a), *b),
        ),
        (EnvValue::Exp(Expression::CReal(a)), EnvValue::Exp(Expression::CInt(b))) => real_result(
            real_op(op, *a, Real::from_int(*b)),
        ),
        (EnvValue::Exp(Expression::CReal(a)), EnvValue::Exp(Expression::CReal(b))) => real_result(
            real_op(op, *a, *b),
        ),
        _ => Err(arith_msg_exec(op)),
    }
}

pub fn bool_exp(b: bool) -> (r: EnvValue)
    ensures
        value_m(r) == bool_value(b),
{
    if b {
        EnvValue::Exp(Expression::CTrue)
    } else {
        EnvValue::Exp(Expression::CFalse)
    }
}

/// A relational operator applied to two values.
pub fn relation(op: RelOp, l: &EnvValue, r: &EnvValue) -> (out: Result<EnvValue, Failure>)
    ensures
        res_m(out) == rel_values(op, value_m(*l), value_m(*r)),
{
    let c: Option<i8> = match (l, r) {
        (EnvValue::Exp(Expression::CInt(a)), EnvValue::Exp(Expression::CInt(b))) => Some(
            if *a < *b {
                -1i8
            } else if *a == *b {
                0i8
            } else {
                1i8
            },
        ),
        (EnvValue::Exp(Expression::CInt(a)), EnvValue::Exp(Expression::CReal(b))) => Some(
            cmp_real(Real::from_int(*a), *b),
        ),
        (EnvValue::Exp(Expression::CReal(a)), EnvValue::Exp(Expression::CInt(b))) => Some(
            cmp_real(*a, Real::from_int(*b)),
        ),
        (EnvValue::Exp(Expression::CReal(a)), EnvValue::Exp(Expression::CReal(b))) => Some(cmp_real(*a, *b)),
        _ => None,
    };
    match c {
        None => Err(rel_msg_exec(op)),
        Some(c) => {
            let holds = match op {
                RelOp::Eq => c == 0,
                RelOp::Gt => c > 0,
                RelOp::Lt => c < 0,
                RelOp::Gte => c >= 0,
                RelOp::Lte => c <= 0,
            };
            Ok(bool_exp(holds))
        },
    }
}

/// `and` (when `is_and`) or `or` of two values.
pub fn boolean(is_and: bool, l: &EnvValue, r: &EnvValue) -> (out: Result<EnvValue, Failure>)
    ensures
        res_m(out) == bool_values(is_and, value_m(*l), value_m(*r)),
{
    let a = match l {
        EnvValue::Exp(Expression::CTrue) => Some(true),
        EnvValue::Exp(Expression::CFalse) => Some(false),
        _ => None,
    };
    let b = match r {
        EnvValue::Exp(Expression::CTrue) => Some(true),
        EnvValue::Exp(Expression::CFalse) => Some(false),
        _ => None,
    };
    match (a, b) {
        (Some(x), Some(y)) => Ok(
            bool_exp(
                if is_and {
                    x && y
                } else {
                    x || y
                },
            ),
        ),
        _ => if is_and {
            Err(fail("'and' is only defined for booleans."))
        } else {
            Err(fail("'or' is only defined for booleans."))
        },
    }
}

pub fn negate(v: Result<EnvValue, Failure>) -> (out: Result<EnvValue, Failure>)
    ensures
        res_m(out) == not_value(res_m(v)),
{
    match v {
        Err(f) => Err(f),
        Ok(EnvValue::Exp(Expression::CTrue)) => Ok(bool_exp(false)),
        Ok(EnvValue::Exp(Expression::CFalse)) => Ok(bool_exp(true)),
        Ok(_) => Err(fail("'not' is only defined for booleans.")),
    }
}

pub fn unwrap(v: Result<EnvValue, Failure>) -> (out: Result<EnvValue, Failure>)
    ensures
        res_m(out) == unwrap_value(res_m(v)),
{
    match v {
        Err(f) => Err(f),
        Ok(EnvValue::Exp(Expression::CJust(x))) => Ok(EnvValue::Exp(*x)),
        Ok(EnvValue::Exp(Expression::COk(x))) => Ok(EnvValue::Exp(*x)),
        Ok(_) => Err(fail("'unwrap' expects a Just or Ok.")),
    }
}

pub fn is_error(v: Result<EnvValue, Failure>) -> (out: Result<EnvValue, Failure>)
    ensures
        res_m(out) == is_error_value(res_m(v)),
{
    match v {
        Err(f) => Err(f),
        Ok(EnvValue::Exp(Expression::CErr(_))) => Ok(bool_exp(true)),
        Ok(_) => Ok(bool_exp(false)),
    }
}

pub fn is_nothing(v: Result<EnvValue, Failure>) -> (out: Result<EnvValue, Failure>)
    ensures
        res_m(out) == is_nothing_value(res_m(v)),
{
    match v {
        Err(f) => Err(f),
        Ok(EnvValue::Exp(Expression::CNothing)) => Ok(bool_exp(true)),
        Ok(x) => {
            proof {
                if value_m(x) == ValueM::Exp(ExprM::CNothing) {
                    assert(x matches EnvValue::Exp(Expression::CNothing));
                }
            }
            Ok(bool_exp(false))
        },
    }
}

/// Wraps a value: 0 for `Just`, 1 for `Ok`, 2 for `Err`.
pub fn wrap(kind: u8, v: Result<EnvValue, Failure>) -> (out: Result<EnvValue, Failure>)
    ensures
        res_m(out) == wrap_value(kind as int, res_m(v)),
{
    match v {
        Err(f) => Err(f),
        Ok(EnvValue::Exp(x)) => Ok(
            EnvValue::Exp(
                if kind == 0 {
                    Expression::CJust(Box::new(x))
                } else if kind == 1 {
                    Expression::COk(Box::new(x))
                } else {
                    Expression::CErr(Box::new(x))
                },
            ),
        ),
        Ok(_) => Err(fail("Expression not recognized.")),
    }
}

pub fn propagate(v: Result<EnvValue, Failure>) -> (out: Result<EnvValue, Failure>)
    ensures
        res_m(out) == propagate_value(res_m(v)),
{
    match v {
        Err(f) => Err(f),
        Ok(EnvValue::Exp(Expression::CJust(x))) => Ok(EnvValue::Exp(*x)),
        Ok(EnvValue::Exp(Expression::COk(x))) => Ok(EnvValue::Exp(*x)),
        Ok(EnvValue::Exp(Expression::CErr(x))) => Err(Failure::Propagated(*x)),
        Ok(EnvValue::Exp(Expression::CNothing)) => Err(
            Failure::Propagated(Expression::CString(String::from_str("Couldn't unwrap Nothing"))),
        ),
        Ok(_) => Err(fail("'propagate' expects a Just, Ok, Err or Nothing.")),
    }
}

fn digit_text(n: u64) -> (r: &'static str)
    requires
        n < 10,
    ensures
        r@ == seq![digit(n as int)],
{
    proof {
        reveal_strlit("0");
        reveal_strlit("1");
        reveal_strlit("2");
        reveal_strlit("3");
        reveal_strlit("4");
        reveal_strlit("5");
        reveal_strlit("6");
        reveal_strlit("7");
        reveal_strlit("8");
        reveal_strlit("9");
    }
    if n == 0 {
        "0"
    } else if n == 1 {
        "1"
    } else if n == 2 {
        "2"
    } else if n == 3 {
        "3"
    } else if n == 4 {
        "4"
    } else if n == 5 {
        "5"
    } else if n == 6 {
        "6"
    } else if n == 7 {
        "7"
    } else if n == 8 {
        "8"
    } else {
        "9"
    }
}

fn nat_text_exec(n: u64) -> (r: String)
    ensures
        r@ == nat_text(n as nat),
    decreases n,
{
    let mut s = if n >= 10 {
        nat_text_exec(n / 10)
    } else {
        String::new()
    };
    s.append(digit_text(n % 10));
    s
}

/// Decimal text of `n`.
pub fn int_text_exec(n: i64) -> (r: String)
    ensures
        r@ == int_text(n as int),
{
    if n < 0 {
        let mut s = String::from_str("-");
        proof {
            reveal_strlit("-");
        }
        let m: u64 = (0i128 - n as i128) as u64;
        let t = nat_text_exec(m);
        s.append(t.as_str());
        s
    } else {
        nat_text_exec(n as u64)
    }
}

/// Text of an error value carried out of the program.
pub fn render_exec(e: &Expression) -> (r: String)
    ensures
        r@ == render(expr_m(*e)),
    decreases e,
{
    match e {
        Expression::CString(s) => s.clone(),
        Expression::CInt(n) => int_text_exec(*n as i64),
        Expression::CReal(x) => {
            let mut s = int_text_exec(x.num);
            proof {
                reveal_strlit("/");
            }
            s.append("/");
            let d = int_text_exec(x.den);
            s.append(d.as_str());
            s
        },
        Expression::CTrue => String::from_str("true"),
        Expression::CFalse => String::from_str("false"),
        Expression::CVoid => String::from_str("void"),
        Expression::CNothing => String::from_str("Nothing"),
        Expression::CJust(x) => {
            let t = render_exec(x);
            enclosed("Just(", t)
        },
        Expression::COk(x) => {
            let t = render_exec(x);
            enclosed("Ok(", t)
        },
        Expression::CErr(x) => {
            let t = render_exec(x);
            enclosed("Err(", t)
        },
        Expression::ADTConstructor(_, c, args) => {
            let mut s = c.clone();
            s.append("(");
            let t = render_list_exec(args);
            s.append(t.as_str());
            s.append(")");
            s
        },
        _ => String::from_str("expression"),
    }
}

/// `open`, then `t`, then a closing parenthesis.
fn enclosed(open: &str, t: String) -> (r: String)
    ensures
        r@ == open@ + t@ + ")"@,
{
    let mut s = String::from_str(open);
    s.append(t.as_str());
    s.append(")");
    s
}

/// The texts of the values, separated by commas.
fn render_list_exec(v: &Vec<Box<Expression>>) -> (r: String)
    ensures
        r@ == render_list(boxed_m(v@)),
    decreases v,
{
    let ghost bm = boxed_m(v@);
    proof {
        lemma_boxed_m(v@);
        assert(bm.subrange(0, 0) =~= Seq::<ExprM>::empty());
    }
    let mut out = String::new();
    let mut i: usize = 0;
    while i < v.len()
        invariant
            i <= v@.len(),
            bm == boxed_m(v@),
            bm.len() == v@.len(),
            forall|j: int| 0 <= j < v@.len() ==> #[trigger] bm[j] == expr_m(*v@[j]),
            out@ == render_list(bm.subrange(0, i as int)),
        decreases v@.len() - i,
    {
        proof {
            assert(decreases_to!(v => v@[i as int]));
            assert(bm.subrange(0, i + 1).drop_last() == bm.subrange(0, i as int));
            assert(bm.subrange(0, i + 1).last() == bm[i as int]);
        }
        let t = render_exec(&v[i]);
        if i > 0 {
            out.append(", ");
            out.append(t.as_str());
        } else {
            proof {
                assert(bm.subrange(0, 1)[0] == bm[0]);
            }
            out = t;
        }
        i = i + 1;
    }
    proof {
        assert(bm.subrange(0, bm.len() as int) == bm);
    }
    out
}

} // verus!
