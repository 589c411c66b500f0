//! The evaluator and the statement executor, each proved to compute the
//! meaning that `semantics` gives.
use crate::ast::{
    ControlFlow, EnvValue, Environment, Expression, Failure, Frame, Function, Name, Statement,
    TestEnvironment,
};
use crate::copy::{copy_ctors, copy_env, copy_expr, copy_function, copy_params, copy_stmt, copy_type, copy_type_env, copy_value};
use crate::environment::{
    frame_index, lemma_stack_m, lemma_vars_m, put_var, scope_key,
};
use crate::lemmas::{
    lemma_args_stop, lemma_block_stop, lemma_boxed_m, lemma_cases_m, lemma_cases_size,
    lemma_cases_stop, lemma_exprs_m, lemma_exprs_size, lemma_fields_stop, lemma_match_values_stop,
    lemma_stmts_m, lemma_stmts_size,
};
use crate::model::{
    boxed_m, cases_m, env_m, expr_m, exprs_m, fail_m, frame_m, func_m, param_names, stack_m, stmt_m,
    stmts_m, tests_m, value_m, vars_m, ExprM, FailM, FlowM, StmtM, ValueM,
};
use crate::operators::{
    arith, boolean, fail, is_error, is_nothing, negate, propagate, relation, render_exec, res_m, text3,
    unwrap, wrap,
};
use crate::semantics as sem;
use crate::semantics::{
    cases_size, expr_size, exprs_size, is_constant, stmt_size, stmts_size, ArithOp, RelOp,
    MAX_CALL_DEPTH, MAX_LOOP_ITERATIONS,
};
use vstd::prelude::*;
use vstd::string::StringExecFns;

verus! {

pub open spec fn pair_m(r: Result<(EnvValue, EnvValue), Failure>) -> Result<(ValueM, ValueM), FailM> {
    match r {
        Ok(p) => Ok((value_m(p.0), value_m(p.1))),
        Err(f) => Err(fail_m(f)),
    }
}

pub open spec fn values_m(s: Seq<EnvValue>) -> Seq<ValueM> {
    Seq::new(s.len(), |i: int| value_m(s[i]))
}

pub open spec fn cf_m(r: Result<ControlFlow, Failure>) -> Result<FlowM, FailM> {
    match r {
        Ok(c) => Ok(crate::model::flow_m(c)),
        Err(f) => Err(fail_m(f)),
    }
}

pub open spec fn flow_res_m(r: Result<ControlFlow, String>) -> Result<FlowM, Seq<char>> {
    match r {
        Ok(c) => Ok(crate::model::flow_m(c)),
        Err(m) => Err(m@),
    }
}

pub open spec fn bool_res_m(r: Result<bool, Failure>) -> Result<bool, FailM> {
    match r {
        Ok(b) => Ok(b),
        Err(f) => Err(fail_m(f)),
    }
}

/// Evaluates `e` in `env` with the default bound on nested calls.
pub fn eval(exp: Expression, env: &Environment) -> (r: Result<EnvValue, Failure>)
    ensures
        res_m(r) == sem::eval(expr_m(exp), env_m(*env), MAX_CALL_DEPTH as nat),
{
    eval_in(&exp, env, MAX_CALL_DEPTH)
}

/// Executes `stmt` in `env` with the default bound on nested calls.
pub fn execute(stmt: Statement, env: &Environment) -> (r: Result<ControlFlow, String>)
    ensures
        flow_res_m(r) == sem::exec(stmt_m(stmt), env_m(*env), MAX_CALL_DEPTH as nat),
{
    execute_in(&stmt, env, MAX_CALL_DEPTH)
}

fn eval_pair(a: &Expression, b: &Expression, env: &Environment, d: u64) -> (r: Result<
    (EnvValue, EnvValue),
    Failure,
>)
    ensures
        pair_m(r) == sem::both(
            sem::eval(expr_m(*a), env_m(*env), d as nat),
            sem::eval(expr_m(*b), env_m(*env), d as nat),
        ),
    decreases d, expr_size(expr_m(*a)) + expr_size(expr_m(*b)) + 1, 1nat,
{
    match eval_in(a, env, d) {
        Err(f) => Err(f),
        Ok(l) => match eval_in(b, env, d) {
            Err(f) => Err(f),
            Ok(r) => Ok((l, r)),
        },
    }
}

/// Evaluation with at most `d` further nested user-function calls.
#[verifier::rlimit(60)]
pub fn eval_in(e: &Expression, env: &Environment, d: u64) -> (r: Result<EnvValue, Failure>)
    ensures
        res_m(r) == sem::eval(expr_m(*e), env_m(*env), d as nat),
    decreases d, expr_size(expr_m(*e)), 2nat,
{
    match e {
        Expression::Add(a, b) => match eval_pair(a, b, env, d) {
            Err(f) => Err(f),
            Ok(p) => arith(ArithOp::Add, &p.0, &p.1),
        },
        Expression::Sub(a, b) => match eval_pair(a, b, env, d) {
            Err(f) => Err(f),
            Ok(p) => arith(ArithOp::Sub, &p.0, &p.1),
        },
        Expression::Mul(a, b) => match eval_pair(a, b, env, d) {
            Err(f) => Err(f),
            Ok(p) => arith(ArithOp::Mul, &p.0, &p.1),
        },
        Expression::Div(a, b) => match eval_pair(a, b, env, d) {
            Err(f) => Err(f),
            Ok(p) => arith(ArithOp::Div, &p.0, &p.1),
        },
        Expression::And(a, b) => match eval_pair(a, b, env, d) {
            Err(f) => Err(f),
            Ok(p) => boolean(true, &p.0, &p.1),
        },
        Expression::Or(a, b) => match eval_pair(a, b, env, d) {
            Err(f) => Err(f),
            Ok(p) => boolean(false, &p.0, &p.1),
        },
        Expression::Not(a) => negate(eval_in(a, env, d)),
        Expression::EQ(a, b) => match eval_pair(a, b, env, d) {
            Err(f) => Err(f),
            Ok(p) => relation(RelOp::Eq, &p.0, &p.1),
        },
        Expression::GT(a, b) => match eval_pair(a, b, env, d) {
            Err(f) => Err(f),
            Ok(p) => relation(RelOp::Gt, &p.0, &p.1),
        },
        Expression::LT(a, b) => match eval_pair(a, b, env, d) {
            Err(f) => Err(f),
            Ok(p) => relation(RelOp::Lt, &p.0, &p.1),
        },
        Expression::GTE(a, b) => match eval_pair(a, b, env, d) {
            Err(f) => Err(f),
            Ok(p) => relation(RelOp::Gte, &p.0, &p.1),
        },
        Expression::LTE(a, b) => match eval_pair(a, b, env, d) {
            Err(f) => Err(f),
            Ok(p) => relation(RelOp::Lte, &p.0, &p.1),
        },
        Expression::Var(n) => match env.lookup(n) {
            Some(v) => Ok(copy_value(v)),
            None => Err(Failure::Message(text3("Variable ", n, " not found"))),
        },
        Expression::Unwrap(a) => unwrap(eval_in(a, env, d)),
        Expression::IsError(a) => is_error(eval_in(a, env, d)),
        Expression::IsNothing(a) => is_nothing(eval_in(a, env, d)),
        Expression::CJust(a) => wrap(0, eval_in(a, env, d)),
        Expression::COk(a) => wrap(1, eval_in(a, env, d)),
        Expression::CErr(a) => wrap(2, eval_in(a, env, d)),
        Expression::Propagate(a) => propagate(eval_in(a, env, d)),
        Expression::FuncCall(n, args) => call(n, args, env, d),
        Expression::ADTConstructor(t, c, args) => construct(t, c, args, env, d),
        _ => Ok(EnvValue::Exp(copy_expr(e))),
    }
}

/// A call of the function `n` with arguments `args`.
fn call(n: &Name, args: &Vec<Expression>, env: &Environment, d: u64) -> (r: Result<EnvValue, Failure>)
    ensures
        res_m(r) == sem::eval(ExprM::FuncCall(n@, exprs_m(args@)), env_m(*env), d as nat),
    decreases d, exprs_size(exprs_m(args@)) + 1, 1nat,
{
    match env.lookup(n) {
        Some(EnvValue::Func(f)) => {
            let k: usize = match &f.params {
                None => 0,
                Some(ps) => if ps.len() < args.len() {
                    ps.len()
                } else {
                    args.len()
                },
            };
            proof {
                assert(k == sem::min(param_names(f.params).len() as int, args@.len() as int));
                lemma_exprs_m(args@);
            }
            let vals = match eval_args(args, k, env, d) {
                Err(x) => {
                    return Err(x);
                },
                Ok(vs) => vs,
            };
            if d == 0 {
                return Err(fail("Maximum call depth exceeded"));
            }
            match &f.body {
                None => Err(fail("Function did not return a value")),
                Some(b) => {
                    let cenv = call_env(env, f, &vals);
                    match execute_in(b, &cenv, d - 1) {
                        Ok(ControlFlow::Return(v)) => Ok(v),
                        Ok(ControlFlow::Continue(_)) => Err(fail("Function did not return a value")),
                        Err(m) => Err(Failure::Message(m)),
                    }
                },
            }
        },
        _ => Err(Failure::Message(text3("Function ", n, " not found"))),
    }
}

/// Index of the constructor named `c` (the last one under that name) and its
/// field count.
fn find_ctor(cs: &Vec<crate::ast::ValueConstructor>, c: &Name) -> (r: Option<usize>)
    ensures
        match r {
            Some(k) => sem::find_ctor(crate::model::ctors_m(cs@), c@) == Some(
                crate::model::ctors_m(cs@)[k as int],
            ) && k < cs@.len(),
            None => sem::find_ctor(crate::model::ctors_m(cs@), c@) is None,
        },
{
    let ghost cm = crate::model::ctors_m(cs@);
    proof {
        crate::lemmas::lemma_ctors_m(cs@);
    }
    assert(cm.subrange(0, cm.len() as int) == cm);
    let mut i: usize = cs.len();
    while i > 0
        invariant
            i <= cs@.len(),
            cm == crate::model::ctors_m(cs@),
            cm.len() == cs@.len(),
            forall|j: int| 0 <= j < cs@.len() ==> #[trigger] cm[j].name == cs@[j].name@,
            sem::find_ctor(cm, c@) == sem::find_ctor(cm.subrange(0, i as int), c@),
        decreases i,
    {
        proof {
            assert(cm.subrange(0, i as int).drop_last() == cm.subrange(0, i as int - 1));
        }
        if cs[i - 1].name == *c {
            return Some(i - 1);
        }
        i = i - 1;
    }
    None
}

/// Construction of a value of the ADT `t` with constructor `c`.
fn construct(t: &Name, c: &Name, args: &Vec<Box<Expression>>, env: &Environment, d: u64) -> (r: Result<
    EnvValue,
    Failure,
>)
    ensures
        res_m(r) == sem::eval(ExprM::ADTConstructor(t@, c@, boxed_m(args@)), env_m(*env), d as nat),
    decreases d, exprs_size(boxed_m(args@)) + 1, 1nat,
{
    proof {
        lemma_boxed_m(args@);
    }
    match env.get_type(t) {
        None => Err(Failure::Message(text3("ADT ", t, " not declared"))),
        Some(cs) => match find_ctor(cs, c) {
            None => {
                let mut m = text3("Constructor ", c, " not found in ADT ");
                m.append(t.as_str());
                Err(Failure::Message(m))
            },
            Some(k) => {
                proof {
                    crate::lemmas::lemma_ctors_m(cs@);
                    crate::lemmas::lemma_type_list_m(cs@[k as int].types@);
                }
                if cs[k].types.len() != args.len() {
                    let mut m = String::from_str("Wrong number of arguments for constructor ");
                    m.append(c.as_str());
                    return Err(Failure::Message(m));
                }
                match eval_fields(args, env, d) {
                    Err(f) => Err(f),
                    Ok(vals) => Ok(EnvValue::Exp(Expression::ADTConstructor(t.clone(), c.clone(), vals))),
                }
            },
        },
    }
}

/// Evaluates the first `n` call arguments, left to right.
fn eval_args(args: &Vec<Expression>, n: usize, env: &Environment, d: u64) -> (r: Result<
    Vec<EnvValue>,
    Failure,
>)
    requires
        n <= args@.len(),
    ensures
        match r {
            Ok(vs) => sem::eval_args(exprs_m(args@).subrange(0, n as int), env_m(*env), d as nat) == Ok::<
                Seq<ValueM>,
                FailM,
            >(values_m(vs@)),
            Err(f) => sem::eval_args(exprs_m(args@).subrange(0, n as int), env_m(*env), d as nat) == Err::<
                Seq<ValueM>,
                FailM,
            >(fail_m(f)),
        },
    decreases d, exprs_size(exprs_m(args@)), 1nat,
{
    let ghost am = exprs_m(args@);
    proof {
        lemma_exprs_m(args@);
        lemma_exprs_size(am);
    }
    let ghost pm = am.subrange(0, n as int);
    let mut out: Vec<EnvValue> = Vec::new();
    proof {
        assert(pm.subrange(0, 0) =~= Seq::<ExprM>::empty());
        assert(values_m(out@) =~= Seq::<ValueM>::empty());
    }
    let mut i: usize = 0;
    while i < n
        invariant
            i <= n,
            n <= args@.len(),
            am == exprs_m(args@),
            pm == am.subrange(0, n as int),
            am.len() == args@.len(),
            forall|j: int| 0 <= j < args@.len() ==> #[trigger] am[j] == expr_m(args@[j]),
            forall|j: int| 0 <= j < am.len() ==> #[trigger] expr_size(am[j]) < exprs_size(am),
            sem::eval_args(pm.subrange(0, i as int), env_m(*env), d as nat) == Ok::<Seq<ValueM>, FailM>(
                values_m(out@),
            ),
        decreases n - i,
    {
        proof {
            assert(expr_size(am[i as int]) < exprs_size(am));
        }
        let r = eval_in(&args[i], env, d);
        proof {
            assert(pm.subrange(0, i + 1).drop_last() == pm.subrange(0, i as int));
            assert(pm.subrange(0, i + 1).last() == am[i as int]);
        }
        match r {
            Err(f) => {
                proof {
                    lemma_args_stop(pm, i + 1, env_m(*env), d as nat);
                }
                return Err(f);
            },
            Ok(v) => {
                let ghost prev = out@;
                out.push(v);
                proof {
                    assert(values_m(out@) =~= values_m(prev).push(value_m(v)));
                }
            },
        }
        i = i + 1;
    }
    proof {
        assert(pm.subrange(0, n as int) == pm);
    }
    Ok(out)
}

/// Evaluates constructor arguments left to right; each must give an expression.
fn eval_fields(args: &Vec<Box<Expression>>, env: &Environment, d: u64) -> (r: Result<
    Vec<Box<Expression>>,
    Failure,
>)
    ensures
        match r {
            Ok(vs) => sem::eval_fields(boxed_m(args@), env_m(*env), d as nat) == Ok::<Seq<ExprM>, FailM>(
                boxed_m(vs@),
            ),
            Err(f) => sem::eval_fields(boxed_m(args@), env_m(*env), d as nat) == Err::<Seq<ExprM>, FailM>(
                fail_m(f),
            ),
        },
    decreases d, exprs_size(boxed_m(args@)), 1nat,
{
    let ghost am = boxed_m(args@);
    proof {
        lemma_boxed_m(args@);
        lemma_exprs_size(am);
    }
    let mut out: Vec<Box<Expression>> = Vec::new();
    proof {
        assert(am.subrange(0, 0) =~= Seq::<ExprM>::empty());
        assert(boxed_m(out@) =~= Seq::<ExprM>::empty());
    }
    let mut i: usize = 0;
    while i < args.len()
        invariant
            i <= args@.len(),
            am == boxed_m(args@),
            am.len() == args@.len(),
            forall|j: int| 0 <= j < args@.len() ==> #[trigger] am[j] == expr_m(*args@[j]),
            forall|j: int| 0 <= j < am.len() ==> #[trigger] expr_size(am[j]) < exprs_size(am),
            sem::eval_fields(am.subrange(0, i as int), env_m(*env), d as nat) == Ok::<Seq<ExprM>, FailM>(
                boxed_m(out@),
            ),
        decreases args@.len() - i,
    {
        proof {
            assert(expr_size(am[i as int]) < exprs_size(am));
        }
        let r = eval_in(&args[i], env, d);
        proof {
            assert(am.subrange(0, i + 1).drop_last() == am.subrange(0, i as int));
        }
        match r {
            Err(f) => {
                proof {
                    lemma_fields_stop(am, i + 1, env_m(*env), d as nat);
                }
                return Err(f);
            },
            Ok(EnvValue::Exp(v)) => {
                let ghost prev = out@;
                let bv = Box::new(v);
                out.push(bv);
                proof {
                    assert(out@.drop_last() == prev);
                }
            },
            Ok(_) => {
                proof {
                    lemma_fields_stop(am, i + 1, env_m(*env), d as nat);
                }
                return Err(fail("Constructor arguments must be expressions"));
            },
        }
        i = i + 1;
    }
    proof {
        assert(am.subrange(0, am.len() as int) == am);
    }
    Ok(out)
}

/// Binds the function-valued entries of `vars`, in order, into `acc`.
fn put_functions(acc: &mut Vec<(Name, EnvValue)>, vars: &Vec<(Name, EnvValue)>)
    ensures
        vars_m(final(acc)@) == sem::put_functions(vars_m(old(acc)@), vars_m(vars@)),
{
    let ghost vm = vars_m(vars@);
    let ghost a0 = vars_m(acc@);
    proof {
        lemma_vars_m(vars@);
    }
    let mut j: usize = 0;
    while j < vars.len()
        invariant
            j <= vars@.len(),
            vm == vars_m(vars@),
            vm.len() == vars@.len(),
            forall|k: int| 0 <= k < vars@.len() ==> #[trigger] vm[k] == (vars@[k].0@, value_m(vars@[k].1)),
            vars_m(acc@) == sem::put_functions(a0, vm.subrange(0, j as int)),
        decreases vars@.len() - j,
    {
        proof {
            assert(vm.subrange(0, j + 1).drop_last() == vm.subrange(0, j as int));
        }
        match &vars[j].1 {
            EnvValue::Func(_) => {
                put_var(acc, vars[j].0.clone(), copy_value(&vars[j].1));
            },
            _ => {},
        }
        j = j + 1;
    }
    proof {
        assert(vm.subrange(0, vm.len() as int) == vm);
    }
}

/// The function bindings visible from the active frame of `env`.
fn collect_functions(env: &Environment) -> (r: Vec<(Name, EnvValue)>)
    ensures
        vars_m(r@) == sem::collect_functions(
            env_m(*env),
            scope_key(env_m(*env)),
            env_m(*env).stack.len(),
            Seq::empty(),
        ),
{
    let ghost e = env_m(*env);
    proof {
        lemma_stack_m(env.stack@);
    }
    let mut acc: Vec<(Name, EnvValue)> = Vec::new();
    proof {
        assert(vars_m(acc@) =~= Seq::empty());
    }
    let mut kname: Name = env.scope.name.clone();
    let mut kdepth: i32 = env.recursion;
    let mut steps: usize = env.stack.len();
    loop
        invariant
            e == env_m(*env),
            stack_m(env.stack@).len() == env.stack@.len(),
            forall|j: int|
                0 <= j < env.stack@.len() ==> #[trigger] stack_m(env.stack@)[j] == (
                    (env.stack@[j].0.0@, env.stack@[j].0.1),
                    frame_m(env.stack@[j].1),
                ),
            sem::collect_functions(e, (kname@, kdepth), steps as nat, vars_m(acc@))
                == sem::collect_functions(e, scope_key(e), e.stack.len(), Seq::empty()),
        decreases steps,
    {
        match frame_index(&env.stack, &kname, kdepth) {
            None => {
                return acc;
            },
            Some(fi) => {
                let frame = &env.stack[fi].1;
                put_functions(&mut acc, &frame.variables);
                match &frame.parent_key {
                    Some(pk) => {
                        if steps == 0 {
                            return acc;
                        }
                        kname = pk.0.clone();
                        kdepth = pk.1;
                        steps = steps - 1;
                    },
                    None => {
                        return acc;
                    },
                }
            },
        }
    }
}

/// The environment in which a call of `f` on `vals` runs.
fn call_env(caller: &Environment, f: &Function, vals: &Vec<EnvValue>) -> (r: Environment)
    ensures
        env_m(r) == sem::call_env(env_m(*caller), func_m(*f), values_m(vals@)),
{
    let mut vars = collect_functions(caller);
    let ghost funcs = vars_m(vars@);
    let ghost pn = param_names(f.params);
    let ghost vm = values_m(vals@);
    match &f.params {
        None => {},
        Some(ps) => {
            let n: usize = if ps.len() < vals.len() {
                ps.len()
            } else {
                vals.len()
            };
            let mut i: usize = 0;
            while i < n
                invariant
                    i <= n,
                    n <= ps@.len(),
                    n <= vals@.len(),
                    pn == param_names(f.params),
                    f.params == Some(*ps),
                    vm == values_m(vals@),
                    vars_m(vars@) == sem::bind_params(funcs, pn, vm, i as nat),
                decreases n - i,
            {
                put_var(&mut vars, ps[i].0.clone(), copy_value(&vals[i]));
                i = i + 1;
            }
        },
    }
    let frame = Frame { parent_function: None, parent_key: None, variables: vars, tests: Vec::new() };
    let mut stack: Vec<((Name, i32), Frame)> = Vec::new();
    stack.push(((String::from_str("__main__"), 0i32), frame));
    let r = Environment {
        scope: Function::new(),
        recursion: 0,
        stack,
        type_env: copy_type_env(&caller.type_env),
    };
    proof {
        lemma_stack_m(r.stack@);
        assert(tests_m(frame.tests@) =~= Seq::empty());
        assert(env_m(r).stack =~= sem::call_env(env_m(*caller), func_m(*f), vm).stack);
    }
    r
}

/// Matches a value against a pattern as written.
fn match_pattern(v: &Expression, p: &Expression, env: &Environment, d: u64) -> (r: Result<bool, Failure>)
    ensures
        bool_res_m(r) == sem::match_pattern(expr_m(*v), expr_m(*p), env_m(*env), d as nat),
    decreases d, expr_size(expr_m(*p)), 0nat,
{
    match p {
        Expression::ADTConstructor(pt, pc, pargs) => match v {
            Expression::ADTConstructor(t, c, fields) => {
                if !(*t == *pt) || !(*c == *pc) {
                    return Ok(false);
                }
                match eval_fields(pargs, env, d) {
                    Err(f) => Err(f),
                    Ok(pvals) => match_values(fields, &pvals),
                }
            },
            _ => Err(fail("Unsupported pattern")),
        },
        _ => match constant_equal(v, p) {
            Some(b) => Ok(b),
            None => Err(fail("Unsupported pattern")),
        },
    }
}

/// Whether `v` equals the constant `p`; `None` when `p` is not a constant.
fn constant_equal(v: &Expression, p: &Expression) -> (r: Option<bool>)
    ensures
        match r {
            Some(b) => is_constant(expr_m(*p)) && b == (expr_m(*v) == expr_m(*p)),
            None => !is_constant(expr_m(*p)),
        },
{
    match p {
        Expression::CTrue => Some(v matches Expression::CTrue),
        Expression::CFalse => Some(v matches Expression::CFalse),
        Expression::CVoid => Some(v matches Expression::CVoid),
        Expression::CNothing => Some(v matches Expression::CNothing),
        Expression::CInt(n) => match v {
            Expression::CInt(m) => Some(*m == *n),
            _ => Some(false),
        },
        Expression::CReal(x) => match v {
            Expression::CReal(y) => Some(y.num == x.num && y.den == x.den),
            _ => Some(false),
        },
        Expression::CString(s) => match v {
            Expression::CString(t) => Some(*t == *s),
            _ => Some(false),
        },
        _ => None,
    }
}

/// Structural match of a value against an evaluated pattern.
fn match_value(v: &Expression, p: &Expression) -> (r: Result<bool, Failure>)
    ensures
        bool_res_m(r) == sem::match_value(expr_m(*v), expr_m(*p)),
    decreases p,
{
    match p {
        Expression::ADTConstructor(pt, pc, pargs) => match v {
            Expression::ADTConstructor(t, c, fields) => {
                if !(*t == *pt) || !(*c == *pc) {
                    return Ok(false);
                }
                match_values(fields, pargs)
            },
            _ => Err(fail("Unsupported pattern")),
        },
        _ => match constant_equal(v, p) {
            Some(b) => Ok(b),
            None => Err(fail("Unsupported pattern")),
        },
    }
}

/// Position-wise match of fields against evaluated patterns.
fn match_values(fields: &Vec<Box<Expression>>, pats: &Vec<Box<Expression>>) -> (r: Result<bool, Failure>)
    ensures
        bool_res_m(r) == sem::match_values(boxed_m(fields@), boxed_m(pats@)),
    decreases pats,
{
    let ghost fm = boxed_m(fields@);
    let ghost pm = boxed_m(pats@);
    proof {
        lemma_boxed_m(fields@);
        lemma_boxed_m(pats@);
    }
    let mut i: usize = 0;
    while i < pats.len()
        invariant
            i <= pats@.len(),
            fm == boxed_m(fields@),
            pm == boxed_m(pats@),
            fm.len() == fields@.len(),
            pm.len() == pats@.len(),
            forall|j: int| 0 <= j < fields@.len() ==> #[trigger] fm[j] == expr_m(*fields@[j]),
            forall|j: int| 0 <= j < pats@.len() ==> #[trigger] pm[j] == expr_m(*pats@[j]),
            sem::match_values(fm, pm.subrange(0, i as int)) == Ok::<bool, FailM>(true),
        decreases pats@.len() - i,
    {
        proof {
            assert(pm.subrange(0, i + 1).drop_last() == pm.subrange(0, i as int));
            assert(decreases_to!(pats => pats@[i as int]));
        }
        if i >= fields.len() {
            proof {
                lemma_match_values_stop(fm, pm, i + 1);
            }
            return Ok(false);
        }
        match match_value(&fields[i], &pats[i]) {
            Ok(true) => {},
            other => {
                proof {
                    lemma_match_values_stop(fm, pm, i + 1);
                }
                return other;
            },
        }
        i = i + 1;
    }
    proof {
        assert(pm.subrange(0, pm.len() as int) == pm);
    }
    Ok(true)
}

fn lift(r: Result<ControlFlow, String>) -> (out: Result<ControlFlow, Failure>)
    ensures
        cf_m(out) == sem::lift(flow_res_m(r)),
{
    match r {
        Ok(x) => Ok(x),
        Err(m) => Err(Failure::Message(m)),
    }
}

/// Turns the propagation signal into termination (at depth zero) or into
/// returning the error value.
fn handle(r: Result<ControlFlow, Failure>, env: &Environment) -> (out: Result<ControlFlow, String>)
    ensures
        flow_res_m(out) == sem::handle(cf_m(r), env_m(*env)),
{
    match r {
        Ok(x) => Ok(x),
        Err(Failure::Message(m)) => Err(m),
        Err(Failure::Propagated(v)) => if env.recursion == 0 {
            let mut m = String::from_str("terminated with errors: ");
            let t = render_exec(&v);
            m.append(t.as_str());
            Err(m)
        } else {
            Ok(ControlFlow::Return(EnvValue::Exp(Expression::CErr(Box::new(v)))))
        },
    }
}

/// Execution with at most `d` further nested user-function calls.
pub fn execute_in(s: &Statement, env: &Environment, d: u64) -> (r: Result<ControlFlow, String>)
    ensures
        flow_res_m(r) == sem::exec(stmt_m(*s), env_m(*env), d as nat),
    decreases d, stmt_size(stmt_m(*s)), 2nat,
{
    let r = execute_inner(s, env, d);
    handle(r, env)
}

fn test_function(f: &Function) -> (r: Function)
    ensures
        func_m(r) == sem::test_function(func_m(*f)),
{
    let ret = Statement::Return(Box::new(Expression::CVoid));
    let body = match &f.body {
        Some(b) => Statement::Sequence(Box::new(copy_stmt(b)), Box::new(ret)),
        None => ret,
    };
    let kind = match &f.kind {
        Some(t) => Some(copy_type(t)),
        None => None,
    };
    let r = Function { name: f.name.clone(), kind, params: copy_params(&f.params), body: Some(Box::new(body)) };
    proof {
        assert(stmt_m(Statement::Return(Box::new(Expression::CVoid))) == StmtM::Return(ExprM::CVoid));
        if f.body is Some {
            assert(stmt_m(body) == StmtM::Sequence(
                Box::new(stmt_m(*f.body.unwrap())),
                Box::new(StmtM::Return(ExprM::CVoid)),
            ));
        }
    }
    r
}

/// The iterations of `while c { b }`.
fn run_while(c: &Expression, b: &Statement, env: &Environment, d: u64) -> (r: Result<ControlFlow, Failure>)
    ensures
        cf_m(r) == sem::exec_while(expr_m(*c), stmt_m(*b), env_m(*env), d as nat, MAX_LOOP_ITERATIONS as nat),
    decreases d, expr_size(expr_m(*c)) + stmt_size(stmt_m(*b)) + 1, 0nat,
{
    let mut cur = copy_env(env);
    let mut n: u64 = MAX_LOOP_ITERATIONS;
    loop
        invariant
            sem::exec_while(expr_m(*c), stmt_m(*b), env_m(cur), d as nat, n as nat) == sem::exec_while(
                expr_m(*c),
                stmt_m(*b),
                env_m(*env),
                d as nat,
                MAX_LOOP_ITERATIONS as nat,
            ),
        decreases n,
    {
        match eval_in(c, &cur, d) {
            Err(f) => {
                return Err(f);
            },
            Ok(EnvValue::Exp(Expression::CFalse)) => {
                return Ok(ControlFlow::Continue(cur));
            },
            Ok(EnvValue::Exp(Expression::CTrue)) => {
                if n == 0 {
                    return Err(fail("Loop iteration limit exceeded"));
                }
                match execute_in(b, &cur, d) {
                    Err(m) => {
                        return Err(Failure::Message(m));
                    },
                    Ok(ControlFlow::Return(v)) => {
                        return Ok(ControlFlow::Return(v));
                    },
                    Ok(ControlFlow::Continue(e2)) => {
                        cur = e2;
                        n = n - 1;
                    },
                }
            },
            Ok(_) => {
                return Err(fail("Condition must evaluate to a boolean"));
            },
        }
    }
}

/// The statements of a block, in order.
fn run_block(v: &Vec<Statement>, env: &Environment, d: u64) -> (r: Result<ControlFlow, Failure>)
    ensures
        cf_m(r) == sem::exec_block(stmts_m(v@), env_m(*env), d as nat),
    decreases d, stmts_size(stmts_m(v@)), 0nat,
{
    let ghost vm = stmts_m(v@);
    proof {
        lemma_stmts_m(v@);
        lemma_stmts_size(vm);
        assert(vm.subrange(0, 0) =~= Seq::<StmtM>::empty());
    }
    let mut cur = copy_env(env);
    let mut i: usize = 0;
    while i < v.len()
        invariant
            i <= v@.len(),
            vm == stmts_m(v@),
            vm.len() == v@.len(),
            forall|j: int| 0 <= j < v@.len() ==> #[trigger] vm[j] == stmt_m(v@[j]),
            forall|j: int| 0 <= j < vm.len() ==> #[trigger] stmt_size(vm[j]) < stmts_size(vm),
            sem::exec_block(vm.subrange(0, i as int), env_m(*env), d as nat) == Ok::<FlowM, FailM>(
                FlowM::Continue(env_m(cur)),
            ),
        decreases v@.len() - i,
    {
        proof {
            assert(stmt_size(vm[i as int]) < stmts_size(vm));
        }
        let r = execute_in(&v[i], &cur, d);
        proof {
            assert(vm.subrange(0, i + 1).drop_last() == vm.subrange(0, i as int));
        }
        match r {
            Err(m) => {
                proof {
                    lemma_block_stop(vm, i + 1, env_m(*env), d as nat);
                }
                return Err(Failure::Message(m));
            },
            Ok(ControlFlow::Return(x)) => {
                proof {
                    lemma_block_stop(vm, i + 1, env_m(*env), d as nat);
                }
                return Ok(ControlFlow::Return(x));
            },
            Ok(ControlFlow::Continue(e2)) => {
                cur = e2;
            },
        }
        i = i + 1;
    }
    proof {
        assert(vm.subrange(0, vm.len() as int) == vm);
    }
    Ok(ControlFlow::Continue(cur))
}

/// Runs the body of the first case whose pattern matches `v`.
fn run_match(v: &Expression, cases: &Vec<(Expression, Box<Statement>)>, env: &Environment, d: u64) -> (r:
    Result<ControlFlow, Failure>)
    ensures
        cf_m(r) == match sem::try_cases(expr_m(*v), cases_m(cases@), env_m(*env), d as nat) {
            Err(f) => Err(f),
            Ok(Some(x)) => Ok(x),
            Ok(None) => Err(sem::msg(sem::no_match_msg())),
        },
    decreases d, cases_size(cases_m(cases@)), 0nat,
{
    let ghost cm = cases_m(cases@);
    proof {
        lemma_cases_m(cases@);
        lemma_cases_size(cm);
        assert(cm.subrange(0, 0) =~= Seq::<(ExprM, StmtM)>::empty());
    }
    let mut i: usize = 0;
    while i < cases.len()
        invariant
            i <= cases@.len(),
            cm == cases_m(cases@),
            cm.len() == cases@.len(),
            forall|j: int|
                0 <= j < cases@.len() ==> #[trigger] cm[j] == (expr_m(cases@[j].0), stmt_m(*cases@[j].1)),
            forall|j: int|
                0 <= j < cm.len() ==> #[trigger] expr_size(cm[j].0) + stmt_size(cm[j].1) < cases_size(cm),
            sem::try_cases(expr_m(*v), cm.subrange(0, i as int), env_m(*env), d as nat) == Ok::<
                Option<FlowM>,
                FailM,
            >(None),
        decreases cases@.len() - i,
    {
        proof {
            assert(expr_size(cm[i as int].0) + stmt_size(cm[i as int].1) < cases_size(cm));
            assert(cm.subrange(0, i + 1).drop_last() == cm.subrange(0, i as int));
        }
        match match_pattern(v, &cases[i].0, env, d) {
            Err(f) => {
                proof {
                    lemma_cases_stop(expr_m(*v), cm, i + 1, env_m(*env), d as nat);
                }
                return Err(f);
            },
            Ok(true) => {
                let r = execute_in(&cases[i].1, env, d);
                proof {
                    lemma_cases_stop(expr_m(*v), cm, i + 1, env_m(*env), d as nat);
                }
                return lift(r);
            },
            Ok(false) => {},
        }
        i = i + 1;
    }
    proof {
        assert(cm.subrange(0, cm.len() as int) == cm);
    }
    Err(fail("no matching pattern found"))
}

fn execute_inner(s: &Statement, env: &Environment, d: u64) -> (r: Result<ControlFlow, Failure>)
    ensures
        cf_m(r) == sem::exec_inner(stmt_m(*s), env_m(*env), d as nat),
    decreases d, stmt_size(stmt_m(*s)), 1nat,
{
    match s {
        Statement::Assignment(n, e, _) => match eval_in(e, env, d) {
            Err(f) => Err(f),
            Ok(v) => {
                let mut ne = copy_env(env);
                ne.insert_variable(n.clone(), v);
                Ok(ControlFlow::Continue(ne))
            },
        },
        Statement::IfThenElse(c, t, el) => match eval_in(c, env, d) {
            Err(f) => Err(f),
            Ok(EnvValue::Exp(Expression::CTrue)) => lift(execute_in(t, env, d)),
            Ok(EnvValue::Exp(Expression::CFalse)) => match el {
                Some(x) => lift(execute_in(x, env, d)),
                None => Ok(ControlFlow::Continue(copy_env(env))),
            },
            Ok(_) => Err(fail("Condition must evaluate to a boolean")),
        },
        Statement::While(c, b) => run_while(c, b, env, d),
        Statement::Block(v) => run_block(v, env, d),
        Statement::Sequence(a, b) => match execute_in(a, env, d) {
            Err(m) => Err(Failure::Message(m)),
            Ok(ControlFlow::Return(v)) => Ok(ControlFlow::Return(v)),
            Ok(ControlFlow::Continue(e2)) => lift(execute_in(b, &e2, d)),
        },
        Statement::AssertTrue(e, m) => match eval_in(e, env, d) {
            Err(f) => Err(f),
            Ok(EnvValue::Exp(Expression::CTrue)) => Ok(ControlFlow::Continue(copy_env(env))),
            Ok(EnvValue::Exp(Expression::CFalse)) => Err(Failure::Message(m.clone())),
            Ok(_) => Err(fail("Condition must evaluate to a boolean")),
        },
        Statement::AssertFalse(e, m) => match eval_in(e, env, d) {
            Err(f) => Err(f),
            Ok(EnvValue::Exp(Expression::CFalse)) => Ok(ControlFlow::Continue(copy_env(env))),
            Ok(EnvValue::Exp(Expression::CTrue)) => Err(Failure::Message(m.clone())),
            Ok(_) => Err(fail("Condition must evaluate to a boolean")),
        },
        Statement::AssertEQ(a, b, m) => {
            let r = match eval_pair(a, b, env, d) {
                Err(f) => Err(f),
                Ok(p) => relation(RelOp::Eq, &p.0, &p.1),
            };
            match r {
                Err(f) => Err(f),
                Ok(EnvValue::Exp(Expression::CTrue)) => Ok(ControlFlow::Continue(copy_env(env))),
                Ok(_) => Err(Failure::Message(m.clone())),
            }
        },
        Statement::AssertNEQ(a, b, m) => {
            let r = match eval_pair(a, b, env, d) {
                Err(f) => Err(f),
                Ok(p) => relation(RelOp::Eq, &p.0, &p.1),
            };
            match r {
                Err(f) => Err(f),
                Ok(EnvValue::Exp(Expression::CFalse)) => Ok(ControlFlow::Continue(copy_env(env))),
                Ok(_) => Err(Failure::Message(m.clone())),
            }
        },
        Statement::TestDef(f) => {
            let mut ne = copy_env(env);
            ne.insert_test(f.name.clone(), test_function(f));
            Ok(ControlFlow::Continue(ne))
        },
        Statement::ModTestDef(n, b) => {
            let menv = Environment::new();
            match execute_in(b, &menv, d) {
                Err(m) => Err(Failure::Message(m)),
                Ok(ControlFlow::Return(v)) => Ok(ControlFlow::Return(v)),
                Ok(ControlFlow::Continue(m2)) => {
                    let mut ne = copy_env(env);
                    ne.insert_variable(
                        n.clone(),
                        EnvValue::TestEnvironment(TestEnvironment { name: n.clone(), env: m2 }),
                    );
                    Ok(ControlFlow::Continue(ne))
                },
            }
        },
        Statement::AssertFails(m) => Err(Failure::Message(m.clone())),
        Statement::FuncDef(f) => {
            let mut ne = copy_env(env);
            ne.insert_variable(f.name.clone(), EnvValue::Func(copy_function(f)));
            Ok(ControlFlow::Continue(ne))
        },
        Statement::Return(e) => match eval_in(e, env, d) {
            Err(f) => Err(f),
            Ok(v) => Ok(ControlFlow::Return(v)),
        },
        Statement::ADTDeclaration(n, cs) => {
            let mut ne = copy_env(env);
            ne.insert_type(n.clone(), copy_ctors(cs));
            Ok(ControlFlow::Continue(ne))
        },
        Statement::Match(e, cases) => match eval_in(e, env, d) {
            Err(f) => Err(f),
            Ok(EnvValue::Exp(v)) => run_match(&v, cases, env, d),
            Ok(_) => Err(fail("Unsupported pattern")),
        },
        _ => Err(fail("not implemented yet")),
    }
}

} // verus!
