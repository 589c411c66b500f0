//! Facts about the models of sequences and about the size measures.
use crate::ast::{Expression, Statement, Type, ValueConstructor};
use crate::model::{ctors_m, type_list_m, CtorM, boxed_m, cases_m, expr_m, exprs_m, stmt_m, stmts_m, ExprM, FailM, FlowM, StmtM};
use crate::semantics::{
    cases_size, eval_args, eval_fields, exec_block, expr_size, exprs_size, match_values, stmt_size,
    stmts_size, try_cases,
};
use crate::model::EnvM;
use vstd::prelude::*;

verus! {

pub proof fn lemma_type_list_m(s: Seq<Type>)
    ensures
        type_list_m(s).len() == s.len(),
    decreases s.len(),
{
    if s.len() > 0 {
        lemma_type_list_m(s.drop_last());
    }
}

pub proof fn lemma_ctors_m(s: Seq<ValueConstructor>)
    ensures
        ctors_m(s).len() == s.len(),
        forall|i: int|
            0 <= i < s.len() ==> #[trigger] ctors_m(s)[i] == (CtorM {
                name: s[i].name@,
                types: type_list_m(s[i].types@),
            }),
    decreases s.len(),
{
    if s.len() > 0 {
        lemma_ctors_m(s.drop_last());
    }
}

pub proof fn lemma_exprs_m(s: Seq<Expression>)
    ensures
        exprs_m(s).len() == s.len(),
        forall|i: int| 0 <= i < s.len() ==> #[trigger] exprs_m(s)[i] == expr_m(s[i]),
    decreases s.len(),
{
    if s.len() > 0 {
        lemma_exprs_m(s.drop_last());
    }
}

pub proof fn lemma_boxed_m(s: Seq<Box<Expression>>)
    ensures
        boxed_m(s).len() == s.len(),
        forall|i: int| 0 <= i < s.len() ==> #[trigger] boxed_m(s)[i] == expr_m(*s[i]),
    decreases s.len(),
{
    if s.len() > 0 {
        lemma_boxed_m(s.drop_last());
    }
}

pub proof fn lemma_stmts_m(s: Seq<Statement>)
    ensures
        stmts_m(s).len() == s.len(),
        forall|i: int| 0 <= i < s.len() ==> #[trigger] stmts_m(s)[i] == stmt_m(s[i]),
    decreases s.len(),
{
    if s.len() > 0 {
        lemma_stmts_m(s.drop_last());
    }
}

pub proof fn lemma_cases_m(s: Seq<(Expression, Box<Statement>)>)
    ensures
        cases_m(s).len() == s.len(),
        forall|i: int|
            0 <= i < s.len() ==> #[trigger] cases_m(s)[i] == (expr_m(s[i].0), stmt_m(*s[i].1)),
    decreases s.len(),
{
    if s.len() > 0 {
        lemma_cases_m(s.drop_last());
    }
}

pub proof fn lemma_exprs_size(s: Seq<ExprM>)
    ensures
        forall|i: int| 0 <= i < s.len() ==> #[trigger] expr_size(s[i]) < exprs_size(s),
    decreases s.len(),
{
    if s.len() > 0 {
        lemma_exprs_size(s.drop_last());
        assert forall|i: int| 0 <= i < s.len() implies #[trigger] expr_size(s[i]) < exprs_size(s) by {
            if i < s.len() - 1 {
                assert(s[i] == s.drop_last()[i]);
            }
        }
    }
}

pub proof fn lemma_stmts_size(s: Seq<StmtM>)
    ensures
        forall|i: int| 0 <= i < s.len() ==> #[trigger] stmt_size(s[i]) < stmts_size(s),
    decreases s.len(),
{
    if s.len() > 0 {
        lemma_stmts_size(s.drop_last());
        assert forall|i: int| 0 <= i < s.len() implies #[trigger] stmt_size(s[i]) < stmts_size(s) by {
            if i < s.len() - 1 {
                assert(s[i] == s.drop_last()[i]);
            }
        }
    }
}

pub proof fn lemma_cases_size(s: Seq<(ExprM, StmtM)>)
    ensures
        forall|i: int|
            0 <= i < s.len() ==> #[trigger] expr_size(s[i].0) + stmt_size(s[i].1) < cases_size(s),
    decreases s.len(),
{
    if s.len() > 0 {
        lemma_cases_size(s.drop_last());
        assert forall|i: int| 0 <= i < s.len() implies #[trigger] expr_size(s[i].0) + stmt_size(s[i].1)
            < cases_size(s) by {
            if i < s.len() - 1 {
                assert(s[i] == s.drop_last()[i]);
            }
        }
    }
}

/// Once a prefix of a block returns or fails, the block gives the same.
pub proof fn lemma_block_stop(v: Seq<StmtM>, i: int, env: EnvM, d: nat)
    requires
        0 <= i <= v.len(),
        !(exec_block(v.subrange(0, i), env, d) matches Ok(FlowM::Continue(_))),
    ensures
        exec_block(v, env, d) == exec_block(v.subrange(0, i), env, d),
    decreases v.len(),
{
    if i < v.len() {
        assert(v.drop_last().subrange(0, i) == v.subrange(0, i));
        lemma_block_stop(v.drop_last(), i, env, d);
    } else {
        assert(v.subrange(0, i) == v);
    }
}

/// Once a prefix of the cases has matched or failed, the match gives the same.
pub proof fn lemma_cases_stop(x: ExprM, v: Seq<(ExprM, StmtM)>, i: int, env: EnvM, d: nat)
    requires
        0 <= i <= v.len(),
        try_cases(x, v.subrange(0, i), env, d) != Ok::<Option<FlowM>, FailM>(None),
    ensures
        try_cases(x, v, env, d) == try_cases(x, v.subrange(0, i), env, d),
    decreases v.len(),
{
    if i < v.len() {
        assert(v.drop_last().subrange(0, i) == v.subrange(0, i));
        lemma_cases_stop(x, v.drop_last(), i, env, d);
    } else {
        assert(v.subrange(0, i) == v);
    }
}

/// Once evaluating a prefix of the arguments fails, evaluating all of them
/// fails the same way.
pub proof fn lemma_args_stop(v: Seq<ExprM>, i: int, env: EnvM, d: nat)
    requires
        0 <= i <= v.len(),
        eval_args(v.subrange(0, i), env, d) is Err,
    ensures
        eval_args(v, env, d) == eval_args(v.subrange(0, i), env, d),
    decreases v.len(),
{
    if i < v.len() {
        assert(v.drop_last().subrange(0, i) == v.subrange(0, i));
        lemma_args_stop(v.drop_last(), i, env, d);
    } else {
        assert(v.subrange(0, i) == v);
    }
}

pub proof fn lemma_fields_stop(v: Seq<ExprM>, i: int, env: EnvM, d: nat)
    requires
        0 <= i <= v.len(),
        eval_fields(v.subrange(0, i), env, d) is Err,
    ensures
        eval_fields(v, env, d) == eval_fields(v.subrange(0, i), env, d),
    decreases v.len(),
{
    if i < v.len() {
        assert(v.drop_last().subrange(0, i) == v.subrange(0, i));
        lemma_fields_stop(v.drop_last(), i, env, d);
    } else {
        assert(v.subrange(0, i) == v);
    }
}

pub proof fn lemma_match_values_stop(fields: Seq<ExprM>, v: Seq<ExprM>, i: int)
    requires
        0 <= i <= v.len(),
        match_values(fields, v.subrange(0, i)) != Ok::<bool, FailM>(true),
    ensures
        match_values(fields, v) == match_values(fields, v.subrange(0, i)),
    decreases v.len(),
{
    if i < v.len() {
        assert(v.drop_last().subrange(0, i) == v.subrange(0, i));
        lemma_match_values_stop(fields, v.drop_last(), i);
    } else {
        assert(v.subrange(0, i) == v);
    }
}

} // verus!
