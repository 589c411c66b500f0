//! Running the tests registered in test modules.
use crate::ast::{EnvValue, Environment, Expression, Failure, Function, Name};
use crate::copy::{copy_env, copy_function};
use crate::environment::{assoc, bind_var, current_frame, frame_index, lemma_key_index, lemma_stack_m, lookup};
use crate::interpreter::eval_in;
use crate::model::{env_m, func_m, tests_m, EnvM, ExprM, FailM, FuncM, ValueM};
use crate::operators::{render_exec, text3};
use crate::semantics::{eval, render, MAX_CALL_DEPTH};
use vstd::prelude::*;
use vstd::string::StringExecFns;

verus! {

pub open spec fn opt_str_m(o: Option<String>) -> Option<Seq<char>> {
    match o {
        Some(s) => Some(s@),
        None => None,
    }
}

/// The detail of a test outcome: none on success, else the failure's text.
pub open spec fn test_detail(r: Result<ValueM, FailM>) -> Option<Seq<char>> {
    match r {
        Ok(_) => None,
        Err(FailM::Message(m)) => Some(m),
        Err(FailM::Propagated(v)) => Some("terminated with errors: "@ + render(v)),
    }
}

/// Runs test `t` of a module: the test is bound as a function in the
/// module's environment and called with no arguments.
#[verifier::opaque]
pub open spec fn run_test(menv: EnvM, t: Seq<char>, f: FuncM) -> Option<Seq<char>> {
    test_detail(
        eval(
            ExprM::FuncCall(t, Seq::empty()),
            bind_var(menv, t, ValueM::Func(f)),
            MAX_CALL_DEPTH as nat,
        ),
    )
}

/// A result record: `module::test`, whether it passed, and the failure text.
pub open spec fn record(m: Seq<char>, t: Seq<char>, detail: Option<Seq<char>>) -> (
    Seq<char>,
    bool,
    Option<Seq<char>>,
) {
    (m + "::"@ + t, detail is None, detail)
}

pub open spec fn module_tests(menv: EnvM) -> Seq<(Seq<char>, FuncM)> {
    match current_frame(menv) {
        Some(f) => f.tests,
        None => Seq::empty(),
    }
}

/// Runs one test of module `m`, or all of them in registration order.
#[verifier::opaque]
pub open spec fn run_module(env: EnvM, m: Seq<char>, t: Option<Seq<char>>) -> Result<
    Seq<(Seq<char>, bool, Option<Seq<char>>)>,
    Seq<char>,
> {
    match lookup(env, m) {
        Some(ValueM::TestEnv(_, menv)) => {
            let tests = module_tests(menv);
            match t {
                Some(tn) => match assoc(tests, tn) {
                    Some(f) => Ok(seq![record(m, tn, run_test(menv, tn, f))]),
                    None => Err("Test "@ + tn + " not found"@),
                },
                None => Ok(
                    Seq::new(
                        tests.len(),
                        |i: int| record(m, tests[i].0, run_test(menv, tests[i].0, tests[i].1)),
                    ),
                ),
            }
        },
        _ => Err("Test module "@ + m + " not found"@),
    }
}

/// The records of every selected `(module, test)` pair, in order.
pub open spec fn run_selection(env: EnvM, sel: Seq<(Seq<char>, Option<Seq<char>>)>) -> Result<
    Seq<(Seq<char>, bool, Option<Seq<char>>)>,
    Seq<char>,
>
    decreases sel.len(),
{
    if sel.len() == 0 {
        Ok(Seq::empty())
    } else {
        match run_selection(env, sel.drop_last()) {
            Err(e) => Err(e),
            Ok(rs) => match run_module(env, sel.last().0, sel.last().1) {
                Err(e) => Err(e),
                Ok(more) => Ok(rs + more),
            },
        }
    }
}

pub open spec fn selection_m(s: Seq<(Name, Option<Name>)>) -> Seq<(Seq<char>, Option<Seq<char>>)> {
    Seq::new(s.len(), |i: int| (s[i].0@, opt_str_m(s[i].1)))
}

pub open spec fn records_m(s: Seq<(String, bool, Option<String>)>) -> Seq<
    (Seq<char>, bool, Option<Seq<char>>),
> {
    Seq::new(s.len(), |i: int| (s[i].0@, s[i].1, opt_str_m(s[i].2)))
}

fn run_one(menv: &Environment, m: &Name, t: &Name, f: &Function) -> (r: (String, bool, Option<String>))
    ensures
        (r.0@, r.1, opt_str_m(r.2)) == record(m@, t@, run_test(env_m(*menv), t@, func_m(*f))),
{
    proof {
        reveal(run_test);
    }
    let mut e2 = copy_env(menv);
    e2.insert_variable(t.clone(), EnvValue::Func(copy_function(f)));
    let no_args: Vec<Expression> = Vec::new();
    proof {
        assert(crate::model::exprs_m(no_args@) =~= Seq::<ExprM>::empty());
    }
    let call = Expression::FuncCall(t.clone(), no_args);
    let detail = match eval_in(&call, &e2, MAX_CALL_DEPTH) {
        Ok(_) => None,
        Err(Failure::Message(msg)) => Some(msg),
        Err(Failure::Propagated(v)) => {
            let mut msg = String::from_str("terminated with errors: ");
            let text = render_exec(&v);
            msg.append(text.as_str());
            Some(msg)
        },
    };
    let mut name = m.clone();
    name.append("::");
    name.append(t.as_str());
    let passed = detail.is_none();
    (name, passed, detail)
}

/// Runs the tests of module `m`: only `t` when given, else all of them.
fn run_module_exec(env: &Environment, m: &Name, t: &Option<Name>) -> (r: Result<
    Vec<(String, bool, Option<String>)>,
    String,
>)
    ensures
        match r {
            Ok(v) => run_module(env_m(*env), m@, opt_str_m(*t)) == Ok::<
                Seq<(Seq<char>, bool, Option<Seq<char>>)>,
                Seq<char>,
            >(records_m(v@)),
            Err(e) => run_module(env_m(*env), m@, opt_str_m(*t)) == Err::<
                Seq<(Seq<char>, bool, Option<Seq<char>>)>,
                Seq<char>,
            >(e@),
        },
{
    proof {
        reveal(run_module);
    }
    let menv = match env.lookup(m) {
        Some(EnvValue::TestEnvironment(te)) => &te.env,
        _ => {
            return Err(text3("Test module ", m, " not found"));
        },
    };
    let ghost me = env_m(*menv);
    proof {
        lemma_stack_m(menv.stack@);
        lemma_key_index(me.stack, (me.scope.name, me.recursion));
    }
    let empty: Vec<(Name, Function)> = Vec::new();
    let tests = match frame_index(&menv.stack, &menv.scope.name, menv.recursion) {
        Some(fi) => &menv.stack[fi].1.tests,
        None => &empty,
    };
    proof {
        assert(tests_m(empty@) =~= Seq::empty());
        assert(tests_m(tests@) == module_tests(me));
    }
    let mut out: Vec<(String, bool, Option<String>)> = Vec::new();
    match t {
        Some(tn) => match crate::environment::test_index(tests, tn) {
            Some(k) => {
                let rec = run_one(menv, m, tn, &tests[k].1);
                out.push(rec);
                proof {
                    assert(records_m(out@) =~= seq![record(m@, tn@, run_test(me, tn@, func_m(tests@[k as int].1)))]);
                }
                Ok(out)
            },
            None => Err(text3("Test ", tn, " not found")),
        },
        None => {
            let mut i: usize = 0;
            while i < tests.len()
                invariant
                    i <= tests@.len(),
                    out@.len() == i,
                    me == env_m(*menv),
                    tests_m(tests@) == module_tests(me),
                    forall|j: int|
                        0 <= j < i ==> #[trigger] records_m(out@)[j] == record(
                            m@,
                            tests@[j].0@,
                            run_test(me, tests@[j].0@, func_m(tests@[j].1)),
                        ),
                decreases tests@.len() - i,
            {
                let rec = run_one(menv, m, &tests[i].0, &tests[i].1);
                let ghost prev = out@;
                out.push(rec);
                proof {
                    assert forall|j: int| 0 <= j < i + 1 implies #[trigger] records_m(out@)[j] == record(
                        m@,
                        tests@[j].0@,
                        run_test(me, tests@[j].0@, func_m(tests@[j].1)),
                    ) by {
                        if j < i {
                            assert(out@[j] == prev[j]);
                            assert(records_m(prev)[j] == records_m(out@)[j]);
                        }
                    }
                }
                i = i + 1;
            }
            proof {
                let tm = module_tests(me);
                assert(records_m(out@) =~= Seq::new(
                    tm.len(),
                    |k: int| record(m@, tm[k].0, run_test(me, tm[k].0, tm[k].1)),
                ));
            }
            Ok(out)
        },
    }
}

/// Runs the selected tests: for each `(module, test)` pair, that test of the
/// module, or every test of it when no test is named. A failing test gives a
/// record that did not pass, with the failure's text; an unknown module or
/// test fails the whole run.
pub fn execute_tests(selection: Vec<(Name, Option<Name>)>, env: &Environment) -> (r: Result<
    Vec<(String, bool, Option<String>)>,
    String,
>)
    ensures
        match r {
            Ok(v) => run_selection(env_m(*env), selection_m(selection@)) == Ok::<
                Seq<(Seq<char>, bool, Option<Seq<char>>)>,
                Seq<char>,
            >(records_m(v@)),
            Err(e) => run_selection(env_m(*env), selection_m(selection@)) == Err::<
                Seq<(Seq<char>, bool, Option<Seq<char>>)>,
                Seq<char>,
            >(e@),
        },
{
    let ghost sm = selection_m(selection@);
    let mut out: Vec<(String, bool, Option<String>)> = Vec::new();
    proof {
        assert(sm.subrange(0, 0) =~= Seq::<(Seq<char>, Option<Seq<char>>)>::empty());
        assert(records_m(out@) =~= Seq::empty());
    }
    let mut i: usize = 0;
    while i < selection.len()
        invariant
            i <= selection@.len(),
            sm == selection_m(selection@),
            run_selection(env_m(*env), sm.subrange(0, i as int)) == Ok::<
                Seq<(Seq<char>, bool, Option<Seq<char>>)>,
                Seq<char>,
            >(records_m(out@)),
        decreases selection@.len() - i,
    {
        proof {
            assert(sm.subrange(0, i + 1).drop_last() == sm.subrange(0, i as int));
        }
        match run_module_exec(env, &selection[i].0, &selection[i].1) {
            Err(e) => {
                proof {
                    lemma_selection_stop(env_m(*env), sm, i + 1);
                }
                return Err(e);
            },
            Ok(more) => {
                let ghost prev = out@;
                let ghost added = more@;
                let mut more = more;
                out.append(&mut more);
                proof {
                    assert(records_m(out@) =~= records_m(prev) + records_m(added));
                }
            },
        }
        i = i + 1;
    }
    proof {
        assert(sm.subrange(0, sm.len() as int) == sm);
    }
    Ok(out)
}

proof fn lemma_selection_stop(env: EnvM, v: Seq<(Seq<char>, Option<Seq<char>>)>, i: int)
    requires
        0 <= i <= v.len(),
        run_selection(env, v.subrange(0, i)) is Err,
    ensures
        run_selection(env, v) == run_selection(env, v.subrange(0, i)),
    decreases v.len(),
{
    if i < v.len() {
        assert(v.drop_last().subrange(0, i) == v.subrange(0, i));
        lemma_selection_stop(env, v.drop_last(), i);
    } else {
        assert(v.subrange(0, i) == v);
    }
}

} // verus!
