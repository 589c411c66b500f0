//! The environment and frame store: frames keyed by `(function, depth)`,
//! variable lookup along the chain of parent keys, and the table of ADTs.
use crate::ast::{EnvValue, Environment, Frame, Function, Name, TestEnvironment, ValueConstructor};
use crate::model::{
    ctors_m, env_m, frame_m, func_m, stack_m, tests_m, types_m, value_m, vars_m, CtorM, EnvM, FrameM,
    FuncM, ValueM,
};
use vstd::prelude::*;
use vstd::string::StringExecFns;

verus! {

/// Index of the last pair of `s` whose key is `k`, or -1.
pub open spec fn key_index<K, V>(s: Seq<(K, V)>, k: K) -> int
    decreases s.len(),
{
    if s.len() == 0 {
        -1
    } else if s.last().0 == k {
        s.len() - 1
    } else {
        key_index(s.drop_last(), k)
    }
}

/// The value bound to `k` in an association list.
pub open spec fn assoc<K, V>(s: Seq<(K, V)>, k: K) -> Option<V> {
    let i = key_index(s, k);
    if i >= 0 {
        Some(s[i].1)
    } else {
        None
    }
}

/// `s` with `k` bound to `v`: the binding is replaced in place, or appended.
pub open spec fn assoc_put<K, V>(s: Seq<(K, V)>, k: K, v: V) -> Seq<(K, V)> {
    let i = key_index(s, k);
    if i >= 0 {
        s.update(i, (k, v))
    } else {
        s.push((k, v))
    }
}

/// `s` without the binding of `k`.
pub open spec fn assoc_remove<K, V>(s: Seq<(K, V)>, k: K) -> Seq<(K, V)> {
    let i = key_index(s, k);
    if i >= 0 {
        s.remove(i)
    } else {
        s
    }
}

pub proof fn lemma_key_index<K, V>(s: Seq<(K, V)>, k: K)
    ensures
        -1 <= key_index(s, k) < s.len(),
        key_index(s, k) >= 0 ==> s[key_index(s, k)].0 == k,
        forall|j: int| key_index(s, k) < j < s.len() ==> s[j].0 != k,
    decreases s.len(),
{
    if s.len() > 0 && s.last().0 != k {
        lemma_key_index(s.drop_last(), k);
        assert forall|j: int| key_index(s, k) < j < s.len() implies s[j].0 != k by {
            if j < s.len() - 1 {
                assert(s[j] == s.drop_last()[j]);
            }
        }
    }
}

pub proof fn lemma_key_index_at<K, V>(s: Seq<(K, V)>, k: K, i: int)
    requires
        -1 <= i < s.len(),
        i >= 0 ==> s[i].0 == k,
        forall|j: int| i < j < s.len() ==> s[j].0 != k,
    ensures
        key_index(s, k) == i,
    decreases s.len(),
{
    if s.len() > 0 && i < s.len() - 1 {
        assert(s.last().0 != k);
        lemma_key_index_at(s.drop_last(), k, i);
    }
}

pub proof fn lemma_assoc_put<K, V>(s: Seq<(K, V)>, k: K, v: V, k2: K)
    ensures
        assoc(assoc_put(s, k, v), k2) == if k2 == k {
            Some(v)
        } else {
            assoc(s, k2)
        },
{
    let t = assoc_put(s, k, v);
    lemma_key_index(s, k);
    lemma_key_index(s, k2);
    lemma_key_index(t, k2);
    if k2 == k {
        if key_index(s, k) >= 0 {
            lemma_key_index_at(t, k, key_index(s, k));
        } else {
            lemma_key_index_at(t, k, s.len() as int);
        }
    } else {
        lemma_key_index_at(t, k2, key_index(s, k2));
    }
}

pub proof fn lemma_vars_m(s: Seq<(Name, EnvValue)>)
    ensures
        vars_m(s).len() == s.len(),
        forall|i: int| 0 <= i < s.len() ==> #[trigger] vars_m(s)[i] == (s[i].0@, value_m(s[i].1)),
    decreases s.len(),
{
    if s.len() > 0 {
        lemma_vars_m(s.drop_last());
    }
}

pub proof fn lemma_stack_m(s: Seq<((Name, i32), Frame)>)
    ensures
        stack_m(s).len() == s.len(),
        forall|i: int|
            0 <= i < s.len() ==> #[trigger] stack_m(s)[i] == ((s[i].0.0@, s[i].0.1), frame_m(s[i].1)),
    decreases s.len(),
{
    if s.len() > 0 {
        lemma_stack_m(s.drop_last());
    }
}

pub open spec fn main_function() -> FuncM {
    FuncM {
        name: "__main__"@,
        kind: None,
        params: Seq::empty(),
        param_types: Seq::empty(),
        body: None,
    }
}

pub open spec fn new_frame(func: Option<FuncM>, key: Option<(Seq<char>, i32)>) -> FrameM {
    FrameM { parent_function: func, parent_key: key, variables: Seq::empty(), tests: Seq::empty() }
}

/// A fresh environment: the main scope at depth zero, with one empty frame.
pub open spec fn empty_env() -> EnvM {
    EnvM {
        scope: main_function(),
        recursion: 0,
        stack: seq![(("__main__"@, 0i32), new_frame(None, None))],
        types: Seq::empty(),
    }
}

pub open spec fn scope_key(e: EnvM) -> (Seq<char>, i32) {
    (e.scope.name, e.recursion)
}

pub open spec fn current_frame(e: EnvM) -> Option<FrameM> {
    assoc(e.stack, scope_key(e))
}

/// Binds `name` to `v` in the active frame (no change when there is none).
pub open spec fn bind_var(e: EnvM, name: Seq<char>, v: ValueM) -> EnvM {
    match current_frame(e) {
        Some(f) => EnvM {
            stack: assoc_put(
                e.stack,
                scope_key(e),
                FrameM { variables: assoc_put(f.variables, name, v), ..f },
            ),
            ..e
        },
        None => e,
    }
}

/// Registers test `t` under `name` in the active frame (no change when there is none).
pub open spec fn bind_test(e: EnvM, name: Seq<char>, t: FuncM) -> EnvM {
    match current_frame(e) {
        Some(f) => EnvM {
            stack: assoc_put(e.stack, scope_key(e), FrameM { tests: assoc_put(f.tests, name, t), ..f }),
            ..e
        },
        None => e,
    }
}

pub open spec fn bind_type(e: EnvM, name: Seq<char>, cs: Seq<CtorM>) -> EnvM {
    EnvM { types: assoc_put(e.types, name, cs), ..e }
}

/// The binding of `name` in the active frame alone.
pub open spec fn search_frame(e: EnvM, name: Seq<char>) -> Option<ValueM> {
    match current_frame(e) {
        Some(f) => assoc(f.variables, name),
        None => None,
    }
}

/// The binding of `name`, looked up from the frame `key` outward along the
/// parent keys, visiting at most `steps + 1` frames.
pub open spec fn chain_lookup(e: EnvM, key: (Seq<char>, i32), name: Seq<char>, steps: nat) -> Option<
    ValueM,
>
    decreases steps,
{
    match assoc(e.stack, key) {
        None => None,
        Some(f) => match assoc(f.variables, name) {
            Some(v) => Some(v),
            None => match f.parent_key {
                Some(pk) => if steps > 0 {
                    chain_lookup(e, pk, name, (steps - 1) as nat)
                } else {
                    None
                },
                None => None,
            },
        },
    }
}

/// The binding of `name` visible from the active frame.
pub open spec fn lookup(e: EnvM, name: Seq<char>) -> Option<ValueM> {
    chain_lookup(e, scope_key(e), name, e.stack.len())
}

/// Enters the scope of `f`: a new frame one level deeper, whose parent is
/// the current scope.
pub open spec fn push_frame(e: EnvM, f: FuncM) -> EnvM {
    EnvM {
        scope: f,
        recursion: (e.recursion + 1) as i32,
        stack: assoc_put(
            e.stack,
            (f.name, (e.recursion + 1) as i32),
            new_frame(Some(e.scope), Some(scope_key(e))),
        ),
        ..e
    }
}

/// Leaves the current scope, back to the function that owned it.
pub open spec fn pop_frame(e: EnvM) -> EnvM {
    EnvM {
        scope: current_frame(e).unwrap().parent_function.unwrap(),
        recursion: (e.recursion - 1) as i32,
        stack: assoc_remove(e.stack, scope_key(e)),
        ..e
    }
}

/// Whether the parent key of `f`, if any, names a frame of `s`.
pub open spec fn parent_exists(s: Seq<((Seq<char>, i32), FrameM)>, f: FrameM) -> bool {
    match f.parent_key {
        Some(pk) => assoc(s, pk) is Some,
        None => true,
    }
}

/// Every parent key in the frame table names a frame of the table.
pub open spec fn parents_ok(s: Seq<((Seq<char>, i32), FrameM)>) -> bool {
    forall|j: int| 0 <= j < s.len() ==> #[trigger] parent_exists(s, s[j].1)
}

/// Well-formedness: the main frame and the active frame exist, every parent
/// key names a frame, and the depth is not negative.
pub open spec fn env_wf(e: EnvM) -> bool {
    &&& current_frame(e) is Some
    &&& assoc(e.stack, ("__main__"@, 0i32)) is Some
    &&& parents_ok(e.stack)
    &&& e.recursion >= 0
}

pub proof fn lemma_empty_env_wf()
    ensures
        env_wf(empty_env()),
{
    let e = empty_env();
    assert(key_index(e.stack, ("__main__"@, 0i32)) == 0);
    assert forall|j: int| 0 <= j < e.stack.len() implies #[trigger] parent_exists(e.stack, e.stack[j].1) by {
        assert(j == 0);
    }
}

/// Binding a frame whose parent exists keeps every parent key valid.
pub proof fn lemma_put_frame_parents(s: Seq<((Seq<char>, i32), FrameM)>, k: (Seq<char>, i32), f: FrameM)
    requires
        parents_ok(s),
        parent_exists(s, f),
    ensures
        parents_ok(assoc_put(s, k, f)),
        assoc(assoc_put(s, k, f), k) == Some(f),
{
    let t = assoc_put(s, k, f);
    lemma_key_index(s, k);
    lemma_assoc_put(s, k, f, k);
    assert forall|j: int| 0 <= j < t.len() implies #[trigger] parent_exists(t, t[j].1) by {
        let x = t[j].1;
        if j < s.len() && t[j] == s[j] {
            assert(parent_exists(s, s[j].1));
        }
        if let Some(pk) = x.parent_key {
            lemma_assoc_put(s, k, f, pk);
        }
    }
}

/// The active frame is the entry of the table at its key's index.
proof fn lemma_current_parent(e: EnvM)
    requires
        env_wf(e),
    ensures
        parent_exists(e.stack, current_frame(e).unwrap()),
{
    lemma_key_index(e.stack, scope_key(e));
    let i = key_index(e.stack, scope_key(e));
    assert(parent_exists(e.stack, e.stack[i].1));
}

pub proof fn lemma_bind_var_wf(e: EnvM, name: Seq<char>, v: ValueM)
    requires
        env_wf(e),
    ensures
        env_wf(bind_var(e, name, v)),
{
    let f = current_frame(e).unwrap();
    let nf = FrameM { variables: assoc_put(f.variables, name, v), ..f };
    lemma_current_parent(e);
    lemma_put_frame_parents(e.stack, scope_key(e), nf);
    lemma_assoc_put(e.stack, scope_key(e), nf, ("__main__"@, 0i32));
}

pub proof fn lemma_bind_test_wf(e: EnvM, name: Seq<char>, t: FuncM)
    requires
        env_wf(e),
    ensures
        env_wf(bind_test(e, name, t)),
{
    let f = current_frame(e).unwrap();
    let nf = FrameM { tests: assoc_put(f.tests, name, t), ..f };
    lemma_current_parent(e);
    lemma_put_frame_parents(e.stack, scope_key(e), nf);
    lemma_assoc_put(e.stack, scope_key(e), nf, ("__main__"@, 0i32));
}

pub proof fn lemma_push_frame_wf(e: EnvM, f: FuncM)
    requires
        env_wf(e),
        e.recursion < i32::MAX,
    ensures
        env_wf(push_frame(e, f)),
{
    let k = (f.name, (e.recursion + 1) as i32);
    let nf = new_frame(Some(e.scope), Some(scope_key(e)));
    lemma_put_frame_parents(e.stack, k, nf);
    lemma_assoc_put(e.stack, k, nf, ("__main__"@, 0i32));
}

/// Index of the frame keyed `(name, depth)`.
pub(crate) fn frame_index(stack: &Vec<((Name, i32), Frame)>, name: &Name, depth: i32) -> (r: Option<usize>)
    ensures
        match r {
            Some(i) => key_index(stack_m(stack@), (name@, depth)) == i && i < stack@.len(),
            None => key_index(stack_m(stack@), (name@, depth)) == -1,
        },
{
    proof {
        lemma_stack_m(stack@);
    }
    let mut i: usize = stack.len();
    while i > 0
        invariant
            i <= stack@.len(),
            stack_m(stack@).len() == stack@.len(),
            forall|j: int| i <= j < stack@.len() ==> stack_m(stack@)[j].0 != (name@, depth),
            forall|j: int|
                0 <= j < stack@.len() ==> #[trigger] stack_m(stack@)[j] == ((stack@[j].0.0@, stack@[j].0.1), frame_m(stack@[j].1)),
        decreases i,
    {
        i = i - 1;
        if stack[i].0.1 == depth && stack[i].0.0 == *name {
            proof {
                lemma_key_index_at(stack_m(stack@), (name@, depth), i as int);
            }
            return Some(i);
        }
    }
    proof {
        lemma_key_index_at(stack_m(stack@), (name@, depth), -1);
    }
    None
}

/// Index of the variable `name` among `vars`.
fn var_index(vars: &Vec<(Name, EnvValue)>, name: &Name) -> (r: Option<usize>)
    ensures
        match r {
            Some(i) => key_index(vars_m(vars@), name@) == i && i < vars@.len(),
            None => key_index(vars_m(vars@), name@) == -1,
        },
{
    proof {
        lemma_vars_m(vars@);
    }
    let mut i: usize = vars.len();
    while i > 0
        invariant
            i <= vars@.len(),
            vars_m(vars@).len() == vars@.len(),
            forall|j: int| i <= j < vars@.len() ==> vars_m(vars@)[j].0 != name@,
            forall|j: int|
                0 <= j < vars@.len() ==> #[trigger] vars_m(vars@)[j] == (vars@[j].0@, value_m(vars@[j].1)),
        decreases i,
    {
        i = i - 1;
        if vars[i].0 == *name {
            proof {
                lemma_key_index_at(vars_m(vars@), name@, i as int);
            }
            return Some(i);
        }
    }
    proof {
        lemma_key_index_at(vars_m(vars@), name@, -1);
    }
    None
}

/// Binds `name` to `v` in a list of variable bindings.
pub fn put_var(vars: &mut Vec<(Name, EnvValue)>, name: Name, v: EnvValue)
    ensures
        vars_m(final(vars)@) == assoc_put(vars_m(old(vars)@), name@, value_m(v)),
{
    proof {
        lemma_vars_m(vars@);
        lemma_key_index(vars_m(vars@), name@);
    }
    let ghost old_vars = vars@;
    match var_index(vars, &name) {
        Some(vi) => {
            vars[vi] = (name, v);
        },
        None => {
            vars.push((name, v));
        },
    }
    proof {
        lemma_vars_m(vars@);
        assert(vars_m(vars@) =~= assoc_put(vars_m(old_vars), name@, value_m(v)));
    }
}

/// Index of the ADT `name` in the type table.
fn type_index(types: &Vec<(Name, Vec<ValueConstructor>)>, name: &Name) -> (r: Option<usize>)
    ensures
        match r {
            Some(i) => key_index(types_m(types@), name@) == i && i < types@.len(),
            None => key_index(types_m(types@), name@) == -1,
        },
{
    let mut i: usize = types.len();
    while i > 0
        invariant
            i <= types@.len(),
            forall|j: int| i <= j < types@.len() ==> types_m(types@)[j].0 != name@,
        decreases i,
    {
        i = i - 1;
        if types[i].0 == *name {
            proof {
                lemma_key_index_at(types_m(types@), name@, i as int);
            }
            return Some(i);
        }
    }
    proof {
        lemma_key_index_at(types_m(types@), name@, -1);
    }
    None
}

/// Index of the test `name` in a frame's test table.
pub(crate) fn test_index(tests: &Vec<(Name, Function)>, name: &Name) -> (r: Option<usize>)
    ensures
        match r {
            Some(i) => key_index(tests_m(tests@), name@) == i && i < tests@.len(),
            None => key_index(tests_m(tests@), name@) == -1,
        },
{
    let mut i: usize = tests.len();
    while i > 0
        invariant
            i <= tests@.len(),
            forall|j: int| i <= j < tests@.len() ==> tests_m(tests@)[j].0 != name@,
        decreases i,
    {
        i = i - 1;
        if tests[i].0 == *name {
            proof {
                lemma_key_index_at(tests_m(tests@), name@, i as int);
            }
            return Some(i);
        }
    }
    proof {
        lemma_key_index_at(tests_m(tests@), name@, -1);
    }
    None
}

/// Replaces the frame at index `i` of the stack, keeping its key.
fn set_frame(stack: &mut Vec<((Name, i32), Frame)>, i: usize, f: Frame)
    requires
        i < old(stack)@.len(),
    ensures
        final(stack)@ == old(stack)@.update(i as int, (old(stack)@[i as int].0, f)),
        stack_m(final(stack)@) == stack_m(old(stack)@).update(
            i as int,
            (stack_m(old(stack)@)[i as int].0, frame_m(f)),
        ),
{
    proof {
        lemma_stack_m(old(stack)@);
    }
    let mut entry = stack.remove(i);
    entry.1 = f;
    stack.insert(i, entry);
    proof {
        assert(stack@ =~= old(stack)@.update(i as int, (old(stack)@[i as int].0, f)));
        lemma_stack_m(stack@);
        assert(stack_m(stack@) =~= stack_m(old(stack)@).update(
            i as int,
            (stack_m(old(stack)@)[i as int].0, frame_m(f)),
        ));
    }
}

/// Binds `name` to `test` in a list of test bindings.
fn put_test(tests: &mut Vec<(Name, Function)>, name: Name, test: Function)
    ensures
        tests_m(final(tests)@) == assoc_put(tests_m(old(tests)@), name@, func_m(test)),
{
    let ghost old_tests = tests@;
    proof {
        lemma_key_index(tests_m(old_tests), name@);
    }
    match test_index(tests, &name) {
        Some(ti) => {
            tests[ti] = (name, test);
        },
        None => {
            tests.push((name, test));
        },
    }
    proof {
        assert(tests_m(tests@) =~= assoc_put(tests_m(old_tests), name@, func_m(test)));
    }
}

/// Index, in the frame table of `e`, of the frame keyed `(name, depth)`.
pub open spec fn slot(e: Environment, name: Seq<char>, depth: i32) -> int {
    key_index(stack_m(e.stack@), (name, depth))
}

/// Index of the active frame of `e`.
pub open spec fn active_slot(e: Environment) -> int {
    slot(e, e.scope.name@, e.recursion)
}

/// `f` has the frame table of `e` with at most the active frame changed, and
/// that frame keeps its key, owner and parent key.
pub open spec fn same_frames_but_active(e: Environment, f: Environment) -> bool {
    &&& f.scope == e.scope
    &&& f.recursion == e.recursion
    &&& f.stack@.len() == e.stack@.len()
    &&& forall|j: int|
        0 <= j < e.stack@.len() ==> (#[trigger] f.stack@[j]).0 == e.stack@[j].0
            && f.stack@[j].1.parent_function == e.stack@[j].1.parent_function
            && f.stack@[j].1.parent_key == e.stack@[j].1.parent_key
    &&& forall|j: int| 0 <= j < e.stack@.len() && j != active_slot(e) ==> #[trigger] f.stack@[j] == e.stack@[j]
}

impl Function {
    /// The function that owns the main scope.
    pub fn new() -> (r: Function)
        ensures
            func_m(r) == main_function(),
            r.name@ == "__main__"@,
            r.kind is None,
            r.params is None,
            r.body is None,
    {
        let r = Function { name: String::from_str("__main__"), kind: None, params: None, body: None };
        assert(func_m(r).params =~= Seq::<Seq<char>>::empty());
        assert(func_m(r).param_types =~= Seq::<crate::model::TypeM>::empty());
        r
    }
}

impl Frame {
    pub fn new(func: Option<Function>, key: Option<(Name, i32)>) -> (r: Frame)
        ensures
            frame_m(r) == new_frame(
                match func {
                    Some(f) => Some(func_m(f)),
                    None => None,
                },
                match key {
                    Some(k) => Some((k.0@, k.1)),
                    None => None,
                },
            ),
            r.parent_function == func,
            r.parent_key == key,
            r.variables@.len() == 0,
            r.tests@.len() == 0,
    {
        let r = Frame { parent_function: func, parent_key: key, variables: Vec::new(), tests: Vec::new() };
        assert(frame_m(r).variables =~= Seq::empty());
        assert(frame_m(r).tests =~= Seq::empty());
        r
    }
}

impl TestEnvironment {
    pub fn new() -> (r: TestEnvironment)
        ensures
            r.name@ == "__test__"@,
            env_m(r.env) == empty_env(),
    {
        TestEnvironment { name: String::from_str("__test__"), env: Environment::new() }
    }
}

impl Environment {
    pub fn new() -> (r: Environment)
        ensures
            env_m(r) == empty_env(),
            env_wf(env_m(r)),
            r.scope.kind is None,
            r.scope.params is None,
            r.scope.body is None,
            r.recursion == 0,
            r.stack@.len() == 1,
            r.type_env@.len() == 0,
    {
        proof {
            lemma_empty_env_wf();
        }
        let frame = Frame::new(None, None);
        let mut stack: Vec<((Name, i32), Frame)> = Vec::new();
        stack.push(((String::from_str("__main__"), 0i32), frame));
        let r = Environment { scope: Function::new(), recursion: 0, stack, type_env: Vec::new() };
        proof {
            lemma_stack_m(r.stack@);
            assert(env_m(r).stack =~= empty_env().stack);
            assert(env_m(r).types =~= empty_env().types);
        }
        r
    }

    pub fn scope_key(&self) -> (r: (Name, i32))
        ensures
            (r.0@, r.1) == scope_key(env_m(*self)),
    {
        (self.scope_name(), self.recursion)
    }

    pub fn scope_name(&self) -> (r: Name)
        ensures
            r@ == env_m(*self).scope.name,
    {
        self.scope.name.clone()
    }

    /// Index of the active frame.
    fn current_index(&self) -> (r: Option<usize>)
        ensures
            match r {
                Some(i) => key_index(env_m(*self).stack, scope_key(env_m(*self))) == i && i
                    < self.stack@.len(),
                None => key_index(env_m(*self).stack, scope_key(env_m(*self))) == -1,
            },
    {
        frame_index(&self.stack, &self.scope.name, self.recursion)
    }

    /// The binding of `name` in the active frame alone.
    pub fn search_frame(&self, name: Name) -> (r: Option<&EnvValue>)
        ensures
            match r {
                Some(v) => search_frame(env_m(*self), name@) == Some(value_m(*v)),
                None => search_frame(env_m(*self), name@) is None,
            },
    {
        proof {
            lemma_stack_m(self.stack@);
        }
        match self.current_index() {
            None => None,
            Some(fi) => {
                let vars = &self.stack[fi].1.variables;
                proof {
                    lemma_vars_m(vars@);
                }
                match var_index(vars, &name) {
                    Some(vi) => Some(&vars[vi].1),
                    None => None,
                }
            },
        }
    }

    /// The binding, in the active frame, of the name of the active function.
    pub fn scope_return(&self) -> (r: Option<&EnvValue>)
        ensures
            match r {
                Some(v) => search_frame(env_m(*self), env_m(*self).scope.name) == Some(value_m(*v)),
                None => search_frame(env_m(*self), env_m(*self).scope.name) is None,
            },
    {
        self.search_frame(self.scope_name())
    }

    pub fn get_frame(&self, key: (Name, i32)) -> (r: &Frame)
        requires
            assoc(env_m(*self).stack, (key.0@, key.1)) is Some,
        ensures
            assoc(env_m(*self).stack, (key.0@, key.1)) == Some(frame_m(*r)),
    {
        proof {
            lemma_stack_m(self.stack@);
        }
        match frame_index(&self.stack, &key.0, key.1) {
            Some(i) => &self.stack[i].1,
            None => {
                proof {
                    assert(false);
                }
                &self.stack[0].1
            },
        }
    }

    /// The binding of `name` visible from the active frame, following the
    /// parent keys outward.
    pub fn lookup(&self, name: &Name) -> (r: Option<&EnvValue>)
        ensures
            match r {
                Some(v) => lookup(env_m(*self), name@) == Some(value_m(*v)),
                None => lookup(env_m(*self), name@) is None,
            },
    {
        proof {
            lemma_stack_m(self.stack@);
        }
        let ghost e = env_m(*self);
        let mut kname: Name = self.scope.name.clone();
        let mut kdepth: i32 = self.recursion;
        let mut steps: usize = self.stack.len();
        loop
            invariant
                e == env_m(*self),
                stack_m(self.stack@).len() == self.stack@.len(),
                forall|j: int|
                    0 <= j < self.stack@.len() ==> #[trigger] stack_m(self.stack@)[j] == (
                        (self.stack@[j].0.0@, self.stack@[j].0.1),
                        frame_m(self.stack@[j].1),
                    ),
                chain_lookup(e, (kname@, kdepth), name@, steps as nat) == lookup(e, name@),
            decreases steps,
        {
            match frame_index(&self.stack, &kname, kdepth) {
                None => {
                    return None;
                },
                Some(fi) => {
                    let frame = &self.stack[fi].1;
                    proof {
                        lemma_vars_m(frame.variables@);
                    }
                    match var_index(&frame.variables, name) {
                        Some(vi) => {
                            return Some(&frame.variables[vi].1);
                        },
                        None => match &frame.parent_key {
                            Some(pk) => {
                                if steps == 0 {
                                    return None;
                                }
                                kname = pk.0.clone();
                                kdepth = pk.1;
                                steps = steps - 1;
                            },
                            None => {
                                return None;
                            },
                        },
                    }
                },
            }
        }
    }

    /// Enters the scope of `func`, one level deeper: the new frame is owned by
    /// the old scope and its parent key is the old scope's key.
    pub fn insert_frame(&mut self, func: Function)
        requires
            old(self).recursion < i32::MAX,
        ensures
            env_m(*final(self)) == push_frame(env_m(*old(self)), func_m(func)),
            final(self).scope == func,
            final(self).recursion == old(self).recursion + 1,
            final(self).type_env == old(self).type_env,
            0 <= active_slot(*final(self)) < final(self).stack@.len(),
            final(self).stack@[active_slot(*final(self))].1.parent_function == Some(old(self).scope),
            final(self).stack@.len() == old(self).stack@.len() || final(self).stack@.len()
                == old(self).stack@.len() + 1,
            forall|j: int|
                0 <= j < old(self).stack@.len() && j != active_slot(*final(self))
                    ==> #[trigger] final(self).stack@[j] == old(self).stack@[j],
            env_wf(env_m(*old(self))) ==> env_wf(env_m(*final(self))),
    {
        proof {
            if env_wf(env_m(*self)) {
                lemma_push_frame_wf(env_m(*self), func_m(func));
            }
        }
        let key = self.scope_key();
        let depth = self.recursion + 1;
        let fname = func.name.clone();
        let mut parent = func;
        core::mem::swap(&mut self.scope, &mut parent);
        let frame = Frame::new(Some(parent), Some(key));
        proof {
            lemma_stack_m(self.stack@);
            lemma_key_index(stack_m(self.stack@), (fname@, depth));
        }
        let ghost old_stack = self.stack@;
        match frame_index(&self.stack, &fname, depth) {
            Some(i) => {
                set_frame(&mut self.stack, i, frame);
                proof {
                    lemma_stack_m(self.stack@);
                    lemma_key_index_at(stack_m(self.stack@), (fname@, depth), i as int);
                }
            },
            None => {
                self.stack.push(((fname, depth), frame));
                proof {
                    lemma_stack_m(self.stack@);
                    assert(stack_m(self.stack@) =~= stack_m(old_stack).push(
                        ((fname@, depth), frame_m(frame)),
                    ));
                    lemma_key_index_at(stack_m(self.stack@), (fname@, depth), old_stack.len() as int);
                }
            },
        }
        self.recursion = depth;
    }

    /// Leaves the active scope, back to the function that owned it.
    pub fn remove_frame(&mut self)
        requires
            current_frame(env_m(*old(self))) is Some,
            current_frame(env_m(*old(self))).unwrap().parent_function is Some,
            old(self).recursion > i32::MIN,
        ensures
            env_m(*final(self)) == pop_frame(env_m(*old(self))),
            0 <= active_slot(*old(self)) < old(self).stack@.len(),
            final(self).stack@ == old(self).stack@.remove(active_slot(*old(self))),
            Some(final(self).scope) == old(self).stack@[active_slot(*old(self))].1.parent_function,
            final(self).recursion == old(self).recursion - 1,
            final(self).type_env == old(self).type_env,
    {
        proof {
            lemma_stack_m(self.stack@);
        }
        match self.current_index() {
            Some(i) => {
                let removed = self.stack.remove(i);
                proof {
                    lemma_stack_m(self.stack@);
                    assert(stack_m(self.stack@) =~= stack_m(old(self).stack@).remove(i as int));
                }
                match removed.1.parent_function {
                    Some(f) => {
                        self.scope = f;
                    },
                    None => {
                        proof {
                            assert(false);
                        }
                    },
                }
                self.recursion = self.recursion - 1;
            },
            None => {
                proof {
                    assert(false);
                }
            },
        }
    }

    /// Binds `name` to `kind` in the active frame.
    pub fn insert_variable(&mut self, name: Name, kind: EnvValue)
        ensures
            env_m(*final(self)) == bind_var(env_m(*old(self)), name@, value_m(kind)),
            same_frames_but_active(*old(self), *final(self)),
            final(self).type_env == old(self).type_env,
            env_wf(env_m(*old(self))) ==> env_wf(env_m(*final(self))),
    {
        proof {
            if env_wf(env_m(*self)) {
                lemma_bind_var_wf(env_m(*self), name@, value_m(kind));
            }
            lemma_stack_m(self.stack@);
            lemma_key_index(env_m(*self).stack, scope_key(env_m(*self)));
        }
        match self.current_index() {
            None => {},
            Some(fi) => {
                let ghost old_stack = self.stack@;
                let mut entry = self.stack.remove(fi);
                put_var(&mut entry.1.variables, name, kind);
                self.stack.insert(fi, entry);
                proof {
                    assert(self.stack@ =~= old_stack.update(fi as int, entry));
                    lemma_stack_m(self.stack@);
                    assert(stack_m(self.stack@) =~= bind_var(
                        env_m(*old(self)),
                        name@,
                        value_m(kind),
                    ).stack);
                }
            },
        }
    }

    /// Registers `test` under `name` in the active frame.
    pub fn insert_test(&mut self, name: Name, test: Function)
        ensures
            env_m(*final(self)) == bind_test(env_m(*old(self)), name@, func_m(test)),
            same_frames_but_active(*old(self), *final(self)),
            final(self).type_env == old(self).type_env,
            env_wf(env_m(*old(self))) ==> env_wf(env_m(*final(self))),
    {
        proof {
            if env_wf(env_m(*self)) {
                lemma_bind_test_wf(env_m(*self), name@, func_m(test));
            }
            lemma_stack_m(self.stack@);
            lemma_key_index(env_m(*self).stack, scope_key(env_m(*self)));
        }
        match self.current_index() {
            None => {},
            Some(fi) => {
                let ghost old_stack = self.stack@;
                let mut entry = self.stack.remove(fi);
                put_test(&mut entry.1.tests, name, test);
                self.stack.insert(fi, entry);
                proof {
                    assert(self.stack@ =~= old_stack.update(fi as int, entry));
                    lemma_stack_m(self.stack@);
                    assert(stack_m(self.stack@) =~= bind_test(
                        env_m(*old(self)),
                        name@,
                        func_m(test),
                    ).stack);
                }
            },
        }
    }

    /// Declares the ADT `name` with its constructors.
    pub fn insert_type(&mut self, name: Name, constructors: Vec<ValueConstructor>)
        ensures
            env_m(*final(self)) == bind_type(env_m(*old(self)), name@, ctors_m(constructors@)),
            final(self).scope == old(self).scope,
            final(self).recursion == old(self).recursion,
            final(self).stack == old(self).stack,
            env_wf(env_m(*old(self))) ==> env_wf(env_m(*final(self))),
    {
        let ghost old_types = self.type_env@;
        proof {
            lemma_key_index(types_m(old_types), name@);
        }
        match type_index(&self.type_env, &name) {
            Some(i) => {
                self.type_env[i] = (name, constructors);
            },
            None => {
                self.type_env.push((name, constructors));
            },
        }
        proof {
            assert(types_m(self.type_env@) =~= assoc_put(
                types_m(old_types),
                name@,
                ctors_m(constructors@),
            ));
        }
    }

    /// The constructors of the ADT `name`.
    pub fn get_type(&self, name: &Name) -> (r: Option<&Vec<ValueConstructor>>)
        ensures
            match r {
                Some(v) => assoc(env_m(*self).types, name@) == Some(ctors_m(v@)),
                None => assoc(env_m(*self).types, name@) is None,
            },
    {
        match type_index(&self.type_env, name) {
            Some(i) => Some(&self.type_env[i].1),
            None => None,
        }
    }
}

} // verus!
