//! Laws of the language, proved from the semantics.
use crate::environment::{
    empty_env, env_wf, lemma_bind_test_wf, lemma_bind_var_wf,
    assoc, assoc_put, key_index, lemma_assoc_put, lemma_key_index, lookup, scope_key, };
use crate::model::{CtorM, EnvM, ExprM, FailM, FlowM, FuncM, StmtM, ValueM};
use crate::rational::{abs, gcd, lemma_gcd_pos, int_div, int_real, normalize, real_div, saturate, trunc_div, Real};
use crate::semantics::{
    cases_size, exec_block, exec_inner, exec_while, expr_size, stmt_size, stmts_size, MAX_LOOP_ITERATIONS,
    both, is_error_value, then_arith, unwrap_value, wrap_value, ArithOp,
    bind_params, bool_value, call_env, collect_functions, eval, exec, find_ctor,
    is_constant, match_pattern, min, no_match_msg, put_functions, try_cases, arith_values, num_cmp,
};
use vstd::prelude::*;

verus! {

proof fn lemma_eval_constant(x: ExprM, env: EnvM, d: nat)
    requires
        is_constant(x),
    ensures
        eval(x, env, d) == Ok::<ValueM, FailM>(ValueM::Exp(x)),
{
}

proof fn lemma_eval_div(a: ExprM, b: ExprM, env: EnvM, d: nat)
    ensures
        eval(ExprM::Div(Box::new(a), Box::new(b)), env, d) == then_arith(
            ArithOp::Div,
            both(eval(a, env, d), eval(b, env, d)),
        ),
{
}

proof fn lemma_eval_unwrap(a: ExprM, env: EnvM, d: nat)
    ensures
        eval(ExprM::Unwrap(Box::new(a)), env, d) == unwrap_value(eval(a, env, d)),
{
}

proof fn lemma_eval_wrap(a: ExprM, env: EnvM, d: nat)
    ensures
        eval(ExprM::CJust(Box::new(a)), env, d) == wrap_value(0, eval(a, env, d)),
        eval(ExprM::COk(Box::new(a)), env, d) == wrap_value(1, eval(a, env, d)),
        eval(ExprM::CErr(Box::new(a)), env, d) == wrap_value(2, eval(a, env, d)),
{
}

proof fn lemma_eval_is_error(a: ExprM, env: EnvM, d: nat)
    ensures
        eval(ExprM::IsError(Box::new(a)), env, d) == is_error_value(eval(a, env, d)),
{
}

/// Integer division truncates toward zero: the quotient of two integers is
/// `trunc_div`, clamped to the `i32` range (which only `i32::MIN / -1` leaves).
pub proof fn law_integer_division(a: i32, b: i32, env: EnvM, d: nat)
    requires
        b != 0,
    ensures
        eval(
            ExprM::Div(Box::new(ExprM::CInt(a)), Box::new(ExprM::CInt(b))),
            env,
            d,
        ) == Ok::<ValueM, FailM>(ValueM::Exp(ExprM::CInt(saturate(trunc_div(a as int, b as int))))),
        !(a == i32::MIN && b == -1) ==> saturate(trunc_div(a as int, b as int)) == trunc_div(
            a as int,
            b as int,
        ),
        trunc_div(a as int, b as int) * b + (a - trunc_div(a as int, b as int) * b) == a,
        abs(a - trunc_div(a as int, b as int) * b) < abs(b as int),
        (a - trunc_div(a as int, b as int) * b) * a >= 0,
{
    let q: int = (abs(a as int) / abs(b as int)) as int;
    let r: int = (abs(a as int) % abs(b as int)) as int;
    assert(abs(a as int) == q * abs(b as int) + r && 0 <= r < abs(b as int)) by {
        vstd::arithmetic::div_mod::lemma_fundamental_div_mod(abs(a as int) as int, abs(b as int) as int);
    }
    assert(q <= abs(a as int)) by (nonlinear_arith)
        requires
            abs(a as int) == q * abs(b as int) + r,
            0 <= r,
            abs(b as int) >= 1,
            q >= 0,
    ;
    let t = trunc_div(a as int, b as int);
    if (a < 0) != (b < 0) {
        assert(t == -q);
    } else {
        assert(t == q);
    }
    assert(a - t * b == (if a < 0 { -r } else { r })) by (nonlinear_arith)
        requires
            abs(a as int) == q * abs(b as int) + r,
            abs(a as int) == (if a < 0 { -a } else { a as int }),
            abs(b as int) == (if b < 0 { -b } else { b as int }),
            t == (if (a < 0) != (b < 0) { -q } else { q }),
    ;
    assert((a - t * b) * a >= 0) by (nonlinear_arith)
        requires
            a - t * b == (if a < 0 { -r } else { r }),
            r >= 0,
    ;
    if a == i32::MIN {
        if abs(b as int) >= 2 {
            assert(q <= abs(a as int) / 2) by (nonlinear_arith)
                requires
                    abs(a as int) == q * abs(b as int) + r,
                    0 <= r,
                    abs(b as int) >= 2,
                    q >= 0,
            ;
        }
    }
    assert(int_div(a, b) == saturate(t));
    assert(eval(ExprM::CInt(a), env, d) == Ok::<ValueM, FailM>(ValueM::Exp(ExprM::CInt(a))));
    assert(eval(ExprM::CInt(b), env, d) == Ok::<ValueM, FailM>(ValueM::Exp(ExprM::CInt(b))));
}

/// `g` divides both arguments of `gcd`, witnessed by `(x, y)`.
proof fn lemma_gcd_divides(a: nat, b: nat) -> (w: (int, int))
    requires
        a > 0 || b > 0,
    ensures
        a == w.0 * gcd(a, b),
        b == w.1 * gcd(a, b),
    decreases b,
{
    if b == 0 {
        (1, 0)
    } else {
        let r = a % b;
        let w1 = lemma_gcd_divides(b, r);
        let g = gcd(a, b);
        assert(g == gcd(b, r));
        vstd::arithmetic::div_mod::lemma_fundamental_div_mod(a as int, b as int);
        let x = (a / b) as int * w1.0 + w1.1;
        assert(a == x * g) by (nonlinear_arith)
            requires
                a == b * (a / b) + r,
                b == w1.0 * g,
                r == w1.1 * g,
                x == (a / b) as int * w1.0 + w1.1,
        ;
        (x, w1.0)
    }
}

/// A reduced form denotes the same rational as `n / d`.
proof fn lemma_normalize_value(n: int, d: int)
    requires
        d > 0,
    ensures
        normalize(n, d) matches Some(r) ==> r.den > 0 && r.num * d == n * r.den,
{
    let g = gcd(abs(n), abs(d));
    lemma_gcd_pos(abs(n), abs(d));
    let w = lemma_gcd_divides(abs(n), abs(d));
    assert(w.0 >= 0 && w.1 >= 0) by (nonlinear_arith)
        requires
            abs(n) == w.0 * g,
            abs(d) == w.1 * g,
            g > 0,
    ;
    assert(abs(n) / g == w.0 && abs(d) / g == w.1) by {
        vstd::arithmetic::div_mod::lemma_div_by_multiple(w.0, g as int);
        vstd::arithmetic::div_mod::lemma_div_by_multiple(w.1, g as int);
    }
    if let Some(r) = normalize(n, d) {
        let m: int = if n < 0 { -w.0 } else { w.0 };
        assert(r.num == m && r.den == w.1);
        assert(w.1 > 0) by (nonlinear_arith)
            requires
                abs(d) == w.1 * g,
                abs(d) > 0,
                g > 0,
        ;
        assert(m * d == n * w.1) by (nonlinear_arith)
            requires
                abs(n) == w.0 * g,
                abs(d) == w.1 * g,
                abs(d) == d,
                abs(n) == (if n < 0 { -n } else { n }),
                m == (if n < 0 { -w.0 } else { w.0 }),
        ;
    }
}

/// Whether the exact quotient `x / y` of two well-formed reals, reduced,
/// fits in `i64`.
pub open spec fn quotient_fits(x: Real, y: Real) -> bool {
    let n = x.num * y.den;
    let e = x.den * y.num;
    if e > 0 {
        normalize(n, e) is Some
    } else {
        normalize(-n, -e) is Some
    }
}

/// The quotient of two well-formed rationals, when it fits, is well formed
/// and equal to `x / y`.
proof fn lemma_real_div_exact(x: Real, y: Real)
    requires
        x.wf(),
        y.wf(),
        y.num != 0,
    ensures
        quotient_fits(x, y) ==> real_div(x, y).wf() && real_div(x, y).num * (x.den * y.num) == (x.num
            * y.den) * real_div(x, y).den,
{
    let n = x.num * y.den;
    let e = x.den * y.num;
    assert(e != 0 && (e > 0 <==> y.num > 0)) by (nonlinear_arith)
        requires
            e == x.den * y.num,
            x.den > 0,
            y.num != 0,
    ;
    if e > 0 {
        lemma_normalize_value(n, e);
    } else {
        lemma_normalize_value(-n, -e);
        if let Some(q) = normalize(-n, -e) {
            assert(q.num * e == n * q.den) by (nonlinear_arith)
                requires
                    q.num * (-e) == (-n) * q.den,
            ;
        }
    }
}

/// Whether the outcome `r` is a real `q`, equal to `x / y` whenever that
/// quotient fits.
pub open spec fn exact_quotient(r: Result<ValueM, FailM>, x: Real, y: Real) -> bool {
    match r {
        Ok(ValueM::Exp(ExprM::CReal(q))) => quotient_fits(x, y) ==> q.wf() && q.num * (x.den * y.num) == (
        x.num * y.den) * q.den,
        _ => false,
    }
}

/// Arithmetic on two numbers never fails, whatever their kinds and values.
pub proof fn law_arithmetic_on_numbers_succeeds(op: ArithOp, l: ValueM, r: ValueM)
    requires
        l matches ValueM::Exp(ExprM::CInt(_)) || l matches ValueM::Exp(ExprM::CReal(_)),
        r matches ValueM::Exp(ExprM::CInt(_)) || r matches ValueM::Exp(ExprM::CReal(_)),
    ensures
        arith_values(op, l, r) is Ok,
        num_cmp(l, r) is Some,
{
}

/// Division with a real operand gives a real, and the exact quotient `x / y`
/// (an integer operand taken as a real) whenever that quotient fits.
pub proof fn law_real_division(x: Real, y: Real, a: i32, b: i32, env: EnvM, d: nat)
    requires
        x.wf(),
        y.wf(),
        y.num != 0,
        b != 0,
    ensures
        exact_quotient(
            eval(ExprM::Div(Box::new(ExprM::CReal(x)), Box::new(ExprM::CReal(y))), env, d),
            x,
            y,
        ),
        exact_quotient(
            eval(ExprM::Div(Box::new(ExprM::CInt(a)), Box::new(ExprM::CReal(y))), env, d),
            int_real(a),
            y,
        ),
        exact_quotient(
            eval(ExprM::Div(Box::new(ExprM::CReal(x)), Box::new(ExprM::CInt(b))), env, d),
            x,
            int_real(b),
        ),
{
    lemma_eval_constant(ExprM::CReal(x), env, d);
    lemma_eval_constant(ExprM::CReal(y), env, d);
    lemma_eval_constant(ExprM::CInt(a), env, d);
    lemma_eval_constant(ExprM::CInt(b), env, d);
    lemma_eval_div(ExprM::CReal(x), ExprM::CReal(y), env, d);
    lemma_eval_div(ExprM::CInt(a), ExprM::CReal(y), env, d);
    lemma_eval_div(ExprM::CReal(x), ExprM::CInt(b), env, d);
    lemma_real_div_exact(x, y);
    lemma_real_div_exact(int_real(a), y);
    lemma_real_div_exact(x, int_real(b));
}

/// `Unwrap` gives back the constant inside `Just` or `Ok`, and fails on
/// `Err`, on `Nothing` and on a bare constant.
pub proof fn law_unwrap(x: ExprM, env: EnvM, d: nat)
    requires
        is_constant(x),
    ensures
        eval(ExprM::Unwrap(Box::new(ExprM::CJust(Box::new(x)))), env, d) == Ok::<ValueM, FailM>(
            ValueM::Exp(x),
        ),
        eval(ExprM::Unwrap(Box::new(ExprM::COk(Box::new(x)))), env, d) == Ok::<ValueM, FailM>(
            ValueM::Exp(x),
        ),
        eval(ExprM::Unwrap(Box::new(ExprM::CErr(Box::new(x)))), env, d) is Err,
        eval(ExprM::Unwrap(Box::new(ExprM::CNothing)), env, d) is Err,
        eval(ExprM::Unwrap(Box::new(x)), env, d) is Err,
{
    lemma_eval_constant(x, env, d);
    lemma_eval_constant(ExprM::CNothing, env, d);
    lemma_eval_wrap(x, env, d);
    lemma_eval_unwrap(ExprM::CJust(Box::new(x)), env, d);
    lemma_eval_unwrap(ExprM::COk(Box::new(x)), env, d);
    lemma_eval_unwrap(ExprM::CErr(Box::new(x)), env, d);
    lemma_eval_unwrap(ExprM::CNothing, env, d);
    lemma_eval_unwrap(x, env, d);
}

/// `IsError` is true exactly on `Err` values and false on every other value;
/// it fails only when its operand does.
pub proof fn law_is_error(e: ExprM, env: EnvM, d: nat)
    ensures
        eval(ExprM::IsError(Box::new(e)), env, d) == match eval(e, env, d) {
            Ok(v) => Ok(bool_value(v matches ValueM::Exp(ExprM::CErr(_)))),
            Err(f) => Err::<ValueM, FailM>(f),
        },
{
    lemma_eval_is_error(e, env, d);
}

/// The constructor that `find_ctor` picks is one declared under that name;
/// it picks none only when no constructor has that name.
proof fn lemma_find_ctor(cs: Seq<CtorM>, c: Seq<char>)
    ensures
        match find_ctor(cs, c) {
            Some(k) => k.name == c && exists|j: int| 0 <= j < cs.len() && cs[j] == k,
            None => forall|j: int| 0 <= j < cs.len() ==> cs[j].name != c,
        },
    decreases cs.len(),
{
    if cs.len() > 0 && cs.last().name != c {
        lemma_find_ctor(cs.drop_last(), c);
        match find_ctor(cs.drop_last(), c) {
            Some(k) => {
                let j = choose|j: int| 0 <= j < cs.drop_last().len() && cs.drop_last()[j] == k;
                assert(cs[j] == k);
            },
            None => {
                assert forall|j: int| 0 <= j < cs.len() implies cs[j].name != c by {
                    if j < cs.len() - 1 {
                        assert(cs[j] == cs.drop_last()[j]);
                    }
                }
            },
        }
    } else if cs.len() > 0 {
        assert(cs[cs.len() - 1] == cs.last());
    }
}

/// A constructor applied to a number of arguments other than its field count
/// fails, whatever the arguments are. When several constructors of the ADT
/// share the name, none of them may have that field count.
pub proof fn law_constructor_arity(
    t: Seq<char>,
    c: Seq<char>,
    cs: Seq<CtorM>,
    args: Seq<ExprM>,
    env: EnvM,
    d: nat,
)
    requires
        assoc(env.types, t) == Some(cs),
        exists|j: int| 0 <= j < cs.len() && #[trigger] cs[j].name == c,
        forall|j: int| 0 <= j < cs.len() && #[trigger] cs[j].name == c ==> cs[j].types.len() != args.len(),
    ensures
        eval(ExprM::ADTConstructor(t, c, args), env, d) == Err::<ValueM, FailM>(
            FailM::Message("Wrong number of arguments for constructor "@ + c),
        ),
{
    lemma_find_ctor(cs, c);
}

proof fn lemma_cases_none(v: ExprM, cases: Seq<(ExprM, StmtM)>, j: int, env: EnvM, d: nat)
    requires
        0 <= j <= cases.len(),
        forall|k: int| 0 <= k < j ==> match_pattern(v, #[trigger] cases[k].0, env, d) == Ok::<bool, FailM>(false),
    ensures
        try_cases(v, cases.subrange(0, j), env, d) == Ok::<Option<FlowM>, FailM>(None),
    decreases j,
{
    if j > 0 {
        lemma_cases_none(v, cases, j - 1, env, d);
        assert(cases.subrange(0, j).drop_last() == cases.subrange(0, j - 1));
        assert(cases.subrange(0, j).last() == cases[j - 1]);
    }
}

/// A `match` in which no pattern matches fails with "no matching pattern found".
pub proof fn law_match_no_case(e: ExprM, v: ExprM, cases: Seq<(ExprM, StmtM)>, env: EnvM, d: nat)
    requires
        eval(e, env, d) == Ok::<ValueM, FailM>(ValueM::Exp(v)),
        forall|k: int| 0 <= k < cases.len() ==> match_pattern(v, #[trigger] cases[k].0, env, d) == Ok::<bool, FailM>(false),
    ensures
        exec(StmtM::Match(e, cases), env, d) == Err::<FlowM, Seq<char>>(no_match_msg()),
{
    lemma_cases_none(v, cases, cases.len() as int, env, d);
    assert(cases.subrange(0, cases.len() as int) == cases);
}

/// In a `match`, the first case (in the order written) whose pattern matches
/// runs, whatever the cases after it.
pub proof fn law_match_first_wins(
    e: ExprM,
    v: ExprM,
    cases: Seq<(ExprM, StmtM)>,
    i: int,
    env: EnvM,
    d: nat,
)
    requires
        0 <= i < cases.len(),
        eval(e, env, d) == Ok::<ValueM, FailM>(ValueM::Exp(v)),
        forall|k: int| 0 <= k < i ==> match_pattern(v, #[trigger] cases[k].0, env, d) == Ok::<bool, FailM>(false),
        match_pattern(v, cases[i].0, env, d) == Ok::<bool, FailM>(true),
    ensures
        exec(StmtM::Match(e, cases), env, d) == exec(cases[i].1, env, d),
{
    lemma_cases_none(v, cases, i, env, d);
    assert(cases.subrange(0, i + 1).drop_last() == cases.subrange(0, i));
    assert(cases.subrange(0, i + 1).last() == cases[i]);
    crate::lemmas::lemma_cases_stop(v, cases, i + 1, env, d);
}

/// Arguments beyond the declared parameters are dropped unevaluated: a call
/// with extra arguments gives what the call with only the paired ones gives.
pub proof fn law_extra_arguments(n: Seq<char>, f: FuncM, args: Seq<ExprM>, env: EnvM, d: nat)
    requires
        lookup(env, n) == Some(ValueM::Func(f)),
        f.params.len() <= args.len(),
    ensures
        eval(ExprM::FuncCall(n, args), env, d) == eval(
            ExprM::FuncCall(n, args.subrange(0, f.params.len() as int)),
            env,
            d,
        ),
{
    let k = f.params.len() as int;
    assert(args.subrange(0, k).subrange(0, k) == args.subrange(0, k));
}

/// Whether a lookup found a function.
pub open spec fn binds_function(o: Option<ValueM>) -> bool {
    match o {
        Some(v) => v is Func,
        None => false,
    }
}

pub open spec fn all_functions(s: Seq<(Seq<char>, ValueM)>) -> bool {
    forall|k: int| 0 <= k < s.len() ==> (#[trigger] s[k]).1 is Func
}

proof fn lemma_put_all(s: Seq<(Seq<char>, ValueM)>, n: Seq<char>, v: ValueM)
    requires
        all_functions(s),
        v is Func,
    ensures
        all_functions(assoc_put(s, n, v)),
{
    lemma_key_index(s, n);
}

proof fn lemma_put_functions_all(acc: Seq<(Seq<char>, ValueM)>, vars: Seq<(Seq<char>, ValueM)>)
    requires
        all_functions(acc),
    ensures
        all_functions(put_functions(acc, vars)),
    decreases vars.len(),
{
    if vars.len() > 0 {
        lemma_put_functions_all(acc, vars.drop_last());
        if vars.last().1 is Func {
            lemma_put_all(put_functions(acc, vars.drop_last()), vars.last().0, vars.last().1);
        }
    }
}

proof fn lemma_collect_all(e: EnvM, key: (Seq<char>, i32), steps: nat, acc: Seq<(Seq<char>, ValueM)>)
    requires
        all_functions(acc),
    ensures
        all_functions(collect_functions(e, key, steps, acc)),
    decreases steps,
{
    if let Some(f) = assoc(e.stack, key) {
        lemma_put_functions_all(acc, f.variables);
        if let Some(pk) = f.parent_key {
            if steps > 0 {
                lemma_collect_all(e, pk, (steps - 1) as nat, put_functions(acc, f.variables));
            }
        }
    }
}

proof fn lemma_assoc_all(s: Seq<(Seq<char>, ValueM)>, n: Seq<char>)
    requires
        all_functions(s),
    ensures
        assoc(s, n) is None || binds_function(assoc(s, n)),
{
    lemma_key_index(s, n);
}

proof fn lemma_put_functions_keeps(acc: Seq<(Seq<char>, ValueM)>, vars: Seq<(Seq<char>, ValueM)>, n: Seq<char>)
    requires
        binds_function(assoc(acc, n)),
    ensures
        binds_function(assoc(put_functions(acc, vars), n)),
    decreases vars.len(),
{
    if vars.len() > 0 {
        lemma_put_functions_keeps(acc, vars.drop_last(), n);
        if vars.last().1 is Func {
            lemma_assoc_put(put_functions(acc, vars.drop_last()), vars.last().0, vars.last().1, n);
        }
    }
}

proof fn lemma_put_functions_adds(acc: Seq<(Seq<char>, ValueM)>, vars: Seq<(Seq<char>, ValueM)>, n: Seq<char>)
    requires
        binds_function(assoc(vars, n)),
    ensures
        binds_function(assoc(put_functions(acc, vars), n)),
    decreases vars.len(),
{
    lemma_key_index(vars, n);
    if vars.len() > 0 {
        if vars.last().0 == n {
            lemma_assoc_put(put_functions(acc, vars.drop_last()), n, vars.last().1, n);
        } else {
            lemma_key_index(vars.drop_last(), n);
            assert(key_index(vars.drop_last(), n) == key_index(vars, n));
            lemma_put_functions_adds(acc, vars.drop_last(), n);
            if vars.last().1 is Func {
                lemma_assoc_put(put_functions(acc, vars.drop_last()), vars.last().0, vars.last().1, n);
            }
        }
    }
}

proof fn lemma_collect_keeps(e: EnvM, key: (Seq<char>, i32), steps: nat, acc: Seq<(Seq<char>, ValueM)>, n: Seq<char>)
    requires
        binds_function(assoc(acc, n)),
    ensures
        binds_function(assoc(collect_functions(e, key, steps, acc), n)),
    decreases steps,
{
    if let Some(f) = assoc(e.stack, key) {
        lemma_put_functions_keeps(acc, f.variables, n);
        if let Some(pk) = f.parent_key {
            if steps > 0 {
                lemma_collect_keeps(e, pk, (steps - 1) as nat, put_functions(acc, f.variables), n);
            }
        }
    }
}

proof fn lemma_bind_params_other(
    acc: Seq<(Seq<char>, ValueM)>,
    params: Seq<Seq<char>>,
    vals: Seq<ValueM>,
    k: nat,
    n: Seq<char>,
)
    requires
        k <= params.len(),
        k <= vals.len(),
        forall|i: int| 0 <= i < k ==> params[i] != n,
    ensures
        assoc(bind_params(acc, params, vals, k), n) == assoc(acc, n),
    decreases k,
{
    if k > 0 {
        lemma_bind_params_other(acc, params, vals, (k - 1) as nat, n);
        lemma_assoc_put(bind_params(acc, params, vals, (k - 1) as nat), params[k - 1], vals[k - 1], n);
    }
}

/// Whether some frame on the chain from `key` outward (at most `steps + 1`
/// frames) binds `n` to a function.
pub open spec fn chain_has_function(e: EnvM, key: (Seq<char>, i32), n: Seq<char>, steps: nat) -> bool
    decreases steps,
{
    match assoc(e.stack, key) {
        None => false,
        Some(f) => binds_function(assoc(f.variables, n)) || match f.parent_key {
            Some(pk) => steps > 0 && chain_has_function(e, pk, n, (steps - 1) as nat),
            None => false,
        },
    }
}

proof fn lemma_collect_finds(
    e: EnvM,
    key: (Seq<char>, i32),
    steps: nat,
    acc: Seq<(Seq<char>, ValueM)>,
    n: Seq<char>,
)
    requires
        chain_has_function(e, key, n, steps),
    ensures
        binds_function(assoc(collect_functions(e, key, steps, acc), n)),
    decreases steps,
{
    let f = assoc(e.stack, key).unwrap();
    let a = put_functions(acc, f.variables);
    if binds_function(assoc(f.variables, n)) {
        lemma_put_functions_adds(acc, f.variables, n);
        if let Some(pk) = f.parent_key {
            if steps > 0 {
                lemma_collect_keeps(e, pk, (steps - 1) as nat, a, n);
            }
        }
    } else {
        lemma_collect_finds(e, f.parent_key.unwrap(), (steps - 1) as nat, a, n);
    }
}

/// A call sees functions but never the caller's plain variables: in the
/// callee, a name that is not a bound parameter is unbound or a function, and
/// a function defined in the caller's scope or in any enclosing scope stays
/// visible.
pub proof fn law_call_scope(caller: EnvM, f: FuncM, vals: Seq<ValueM>, n: Seq<char>)
    requires
        forall|i: int| 0 <= i < min(f.params.len() as int, vals.len() as int) ==> f.params[i] != n,
    ensures
        lookup(call_env(caller, f, vals), n) is None || binds_function(lookup(call_env(caller, f, vals), n)),
        chain_has_function(caller, scope_key(caller), n, caller.stack.len()) ==> binds_function(
            lookup(call_env(caller, f, vals), n),
        ),
{
    let k = min(f.params.len() as int, vals.len() as int) as nat;
    let funcs = collect_functions(caller, scope_key(caller), caller.stack.len(), Seq::empty());
    lemma_collect_all(caller, scope_key(caller), caller.stack.len(), Seq::empty());
    lemma_bind_params_other(funcs, f.params, vals, k, n);
    lemma_assoc_all(funcs, n);
    let ce = call_env(caller, f, vals);
    assert(key_index(ce.stack, scope_key(ce)) == 0);
    if chain_has_function(caller, scope_key(caller), n, caller.stack.len()) {
        lemma_collect_finds(caller, scope_key(caller), caller.stack.len(), Seq::empty(), n);
    }
}

/// Execution keeps the environment well formed: when a statement runs to
/// completion from a well-formed environment, the main frame and the active
/// frame still exist in the environment it continues with.
pub proof fn law_execution_keeps_wf(s: StmtM, env: EnvM, d: nat)
    requires
        env_wf(env),
    ensures
        exec(s, env, d) matches Ok(FlowM::Continue(e2)) ==> env_wf(e2),
    decreases stmt_size(s), 2nat,
{
    lemma_exec_inner_wf(s, env, d);
}

proof fn lemma_exec_inner_wf(s: StmtM, env: EnvM, d: nat)
    requires
        env_wf(env),
    ensures
        exec_inner(s, env, d) matches Ok(FlowM::Continue(e2)) ==> env_wf(e2),
    decreases stmt_size(s), 1nat,
{
    match s {
        StmtM::Assignment(n, e, _) => {
            if let Ok(v) = eval(e, env, d) {
                lemma_bind_var_wf(env, n, v);
            }
        },
        StmtM::IfThenElse(c, t, el) => {
            law_execution_keeps_wf(*t, env, d);
            if let Some(x) = el {
                law_execution_keeps_wf(*x, env, d);
            }
        },
        StmtM::While(c, b) => {
            lemma_while_wf(c, *b, env, d, MAX_LOOP_ITERATIONS as nat);
        },
        StmtM::Block(v) => {
            lemma_block_wf(v, env, d);
        },
        StmtM::Sequence(a, b) => {
            law_execution_keeps_wf(*a, env, d);
            if let Ok(FlowM::Continue(e2)) = exec(*a, env, d) {
                law_execution_keeps_wf(*b, e2, d);
            }
        },
        StmtM::TestDef(f) => {
            lemma_bind_test_wf(env, f.name, crate::semantics::test_function(f));
        },
        StmtM::ModTestDef(n, b) => {
            if let Ok(FlowM::Continue(menv)) = exec(*b, empty_env(), d) {
                lemma_bind_var_wf(env, n, ValueM::TestEnv(n, menv));
            }
        },
        StmtM::FuncDef(f) => {
            lemma_bind_var_wf(env, f.name, ValueM::Func(f));
        },
        StmtM::Match(e, cases) => {
            if let Ok(ValueM::Exp(v)) = eval(e, env, d) {
                lemma_cases_wf(v, cases, env, d);
            }
        },
        _ => {},
    }
}

proof fn lemma_while_wf(c: ExprM, b: StmtM, env: EnvM, d: nat, n: nat)
    requires
        env_wf(env),
    ensures
        exec_while(c, b, env, d, n) matches Ok(FlowM::Continue(e2)) ==> env_wf(e2),
    decreases expr_size(c) + stmt_size(b) + 1, n,
{
    if eval(c, env, d) == Ok::<ValueM, FailM>(ValueM::Exp(ExprM::CTrue)) && n > 0 {
        law_execution_keeps_wf(b, env, d);
        if let Ok(FlowM::Continue(e2)) = exec(b, env, d) {
            lemma_while_wf(c, b, e2, d, (n - 1) as nat);
        }
    }
}

proof fn lemma_block_wf(v: Seq<StmtM>, env: EnvM, d: nat)
    requires
        env_wf(env),
    ensures
        exec_block(v, env, d) matches Ok(FlowM::Continue(e2)) ==> env_wf(e2),
    decreases stmts_size(v), 1nat,
{
    if v.len() > 0 {
        lemma_block_wf(v.drop_last(), env, d);
        if let Ok(FlowM::Continue(e2)) = exec_block(v.drop_last(), env, d) {
            law_execution_keeps_wf(v.last(), e2, d);
        }
    }
}

proof fn lemma_cases_wf(x: ExprM, cases: Seq<(ExprM, StmtM)>, env: EnvM, d: nat)
    requires
        env_wf(env),
    ensures
        try_cases(x, cases, env, d) matches Ok(Some(FlowM::Continue(e2))) ==> env_wf(e2),
    decreases cases_size(cases), 1nat,
{
    if cases.len() > 0 {
        lemma_cases_wf(x, cases.drop_last(), env, d);
        law_execution_keeps_wf(cases.last().1, env, d);
    }
}

proof fn lemma_eval_args_agree(args: Seq<ExprM>, e1: EnvM, e2: EnvM, d: nat)
    requires
        forall|i: int| 0 <= i < args.len() ==> eval(#[trigger] args[i], e1, d) == eval(args[i], e2, d),
    ensures
        crate::semantics::eval_args(args, e1, d) == crate::semantics::eval_args(args, e2, d),
    decreases args.len(),
{
    if args.len() > 0 {
        let p = args.drop_last();
        assert forall|i: int| 0 <= i < p.len() implies eval(#[trigger] p[i], e1, d) == eval(p[i], e2, d) by {
            assert(p[i] == args[i]);
        }
        lemma_eval_args_agree(p, e1, e2, d);
        assert(eval(args[args.len() - 1], e1, d) == eval(args[args.len() - 1], e2, d));
    }
}

/// A call does not depend on the caller's plain variables: two callers that
/// see the same function under the called name, collect the same function
/// bindings along their frame chains, share the ADT table, and give the same
/// values to the arguments, get the same result.
pub proof fn law_call_ignores_plain_variables(n: Seq<char>, args: Seq<ExprM>, e1: EnvM, e2: EnvM, d: nat)
    requires
        lookup(e1, n) == lookup(e2, n),
        collect_functions(e1, scope_key(e1), e1.stack.len(), Seq::empty()) == collect_functions(
            e2,
            scope_key(e2),
            e2.stack.len(),
            Seq::empty(),
        ),
        e1.types == e2.types,
        forall|i: int| 0 <= i < args.len() ==> eval(#[trigger] args[i], e1, d) == eval(args[i], e2, d),
    ensures
        eval(ExprM::FuncCall(n, args), e1, d) == eval(ExprM::FuncCall(n, args), e2, d),
{
    if let Some(ValueM::Func(f)) = lookup(e1, n) {
        let k = min(f.params.len() as int, args.len() as int);
        let pre = args.subrange(0, k);
        assert forall|i: int| 0 <= i < pre.len() implies eval(#[trigger] pre[i], e1, d) == eval(pre[i], e2, d) by {
            assert(pre[i] == args[i]);
        }
        lemma_eval_args_agree(pre, e1, e2, d);
        if let Ok(vals) = crate::semantics::eval_args(pre, e1, d) {
            assert(call_env(e1, f, vals) == call_env(e2, f, vals));
        }
    }
}

} // verus!
