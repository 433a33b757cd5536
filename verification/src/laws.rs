//! Laws the engine obeys, stated over the semantics that every
//! interpreter function is proved to compute.

use vstd::prelude::*;
use crate::value::{Value, Outcome, EngineError};
use crate::ast::{Ast, FnDef, lookup_fun};
use crate::env::{Binding, EnvModel, declare_env, assign_env, pop_env, lookup_env};
use crate::sem::{sem_node, sem_eval, sem_seq, sem_args, sem_loop, sem_while, sem_for, sem_call};

verus! {

/// Determinism: one program, one entry point, equal argument lists and
/// equal step budgets always yield the same result or the same error.
/// Because `interp::call` is proved to return exactly
/// `sem_call(fuel, prog.funs@, name, args@)`, two executions with equal
/// inputs can never disagree.
pub proof fn lemma_call_deterministic(
    funs: Seq<(u64, FnDef)>,
    name: u64,
    args1: Seq<Value>,
    args2: Seq<Value>,
    fuel: nat,
)
    requires
        args1 == args2,
    ensures
        sem_call(fuel, funs, name, args1) == sem_call(fuel, funs, name, args2),
{
}

/// Shadowing: declaring a mutable binding in a freshly opened scope and
/// assigning through it touches only that scope; once the scope is
/// popped, the enclosing environment — any outer binding of the same
/// name included — is exactly what it was.
pub proof fn lemma_shadowing(env: EnvModel, name: u64, v0: Value, v1: Value)
    ensures
        ({
            let inner = declare_env(env.push(Seq::<Binding>::empty()), name, v0, true);
            let b1 = Binding { name, value: v1, mutable: true };
            &&& assign_env(inner, name, v1) == Ok::<EnvModel, EngineError>(env.push(seq![b1]))
            &&& pop_env(env.push(seq![b1])) == env
            &&& lookup_env(pop_env(env.push(seq![b1])), name) == lookup_env(env, name)
        }),
{
    let b0 = Binding { name, value: v0, mutable: true };
    let b1 = Binding { name, value: v1, mutable: true };
    let pushed = env.push(Seq::<Binding>::empty());
    assert(pushed.drop_last() =~= env);
    assert(pushed.last().push(b0) =~= seq![b0]);
    let inner = declare_env(pushed, name, v0, true);
    assert(inner =~= env.push(seq![b0]));
    assert(inner.last() =~= seq![b0]);
    assert(seq![b0].drop_last().push(b1) =~= seq![b1]);
    assert(inner.drop_last() =~= env);
    assert(env.push(seq![b1]).drop_last() =~= env);
}

proof fn lemma_eval_mono(f1: nat, f2: nat, ast: Ast, env: EnvModel, funs: Seq<(u64, FnDef)>)
    requires
        f1 <= f2,
        sem_eval(f1, ast, env, funs).0 != Err::<Value, EngineError>(EngineError::StepLimit),
    ensures
        sem_eval(f2, ast, env, funs) == sem_eval(f1, ast, env, funs),
    decreases f1, 1nat,
{
    lemma_node_mono(f1, f2, ast, env, funs);
}

proof fn lemma_seq_mono(
    f1: nat,
    f2: nat,
    stmts: Seq<Ast>,
    i: int,
    env: EnvModel,
    funs: Seq<(u64, FnDef)>,
)
    requires
        f1 <= f2,
        sem_seq(f1, stmts, i, env, funs).0 != Err::<Outcome, EngineError>(EngineError::StepLimit),
    ensures
        sem_seq(f2, stmts, i, env, funs) == sem_seq(f1, stmts, i, env, funs),
    decreases f1, stmts.len() - i,
{
    if 0 <= i < stmts.len() {
        lemma_node_mono(f1, f2, stmts[i], env, funs);
        let (r, env1) = sem_node(f1, stmts[i], env, funs);
        if r matches Ok(Outcome::Normal(_)) && i != stmts.len() - 1 {
            lemma_seq_mono(f1, f2, stmts, i + 1, env1, funs);
        }
    }
}

proof fn lemma_args_mono(
    f1: nat,
    f2: nat,
    args: Seq<Ast>,
    i: int,
    acc: Seq<Value>,
    env: EnvModel,
    funs: Seq<(u64, FnDef)>,
)
    requires
        f1 <= f2,
        sem_args(f1, args, i, acc, env, funs).0 != Err::<Seq<Value>, EngineError>(
            EngineError::StepLimit,
        ),
    ensures
        sem_args(f2, args, i, acc, env, funs) == sem_args(f1, args, i, acc, env, funs),
    decreases f1, args.len() - i + 2,
{
    if 0 <= i < args.len() {
        lemma_eval_mono(f1, f2, args[i], env, funs);
        let (r, env1) = sem_eval(f1, args[i], env, funs);
        match r {
            Ok(v) => lemma_args_mono(f1, f2, args, i + 1, acc.push(v), env1, funs),
            Err(_) => {},
        }
    }
}

proof fn lemma_loop_mono(f1: nat, f2: nat, body: Ast, env: EnvModel, funs: Seq<(u64, FnDef)>)
    requires
        f1 <= f2,
        sem_loop(f1, body, env, funs).0 != Err::<Outcome, EngineError>(EngineError::StepLimit),
    ensures
        sem_loop(f2, body, env, funs) == sem_loop(f1, body, env, funs),
    decreases f1, 2nat,
{
    lemma_node_mono(f1, f2, body, env, funs);
    let (r, env1) = sem_node(f1, body, env, funs);
    if r matches Ok(o) && !(o matches Outcome::Break(_)) && !(o matches Outcome::Return(_)) {
        lemma_loop_mono((f1 - 1) as nat, (f2 - 1) as nat, body, env1, funs);
    }
}

proof fn lemma_while_mono(
    f1: nat,
    f2: nat,
    cond: Ast,
    body: Ast,
    env: EnvModel,
    funs: Seq<(u64, FnDef)>,
)
    requires
        f1 <= f2,
        sem_while(f1, cond, body, env, funs).0 != Err::<Outcome, EngineError>(
            EngineError::StepLimit,
        ),
    ensures
        sem_while(f2, cond, body, env, funs) == sem_while(f1, cond, body, env, funs),
    decreases f1, 2nat,
{
    lemma_eval_mono(f1, f2, cond, env, funs);
    let (rc, env1) = sem_eval(f1, cond, env, funs);
    if rc == Ok::<Value, EngineError>(Value::Bool(true)) {
        lemma_node_mono(f1, f2, body, env1, funs);
        let (rb, env2) = sem_node(f1, body, env1, funs);
        if rb matches Ok(o) && !(o matches Outcome::Break(_)) && !(o
            matches Outcome::Return(_)) {
            lemma_while_mono((f1 - 1) as nat, (f2 - 1) as nat, cond, body, env2, funs);
        }
    }
}

proof fn lemma_for_mono(
    f1: nat,
    f2: nat,
    name: u64,
    mutable: bool,
    i: int,
    hi: int,
    body: Ast,
    env: EnvModel,
    funs: Seq<(u64, FnDef)>,
)
    requires
        f1 <= f2,
        sem_for(f1, name, mutable, i, hi, body, env, funs).0 != Err::<Outcome, EngineError>(
            EngineError::StepLimit,
        ),
    ensures
        sem_for(f2, name, mutable, i, hi, body, env, funs) == sem_for(
            f1,
            name,
            mutable,
            i,
            hi,
            body,
            env,
            funs,
        ),
    decreases f1, 2nat,
{
    if i < hi {
        let env1 = declare_env(
            env.push(Seq::<Binding>::empty()),
            name,
            Value::Int(i as i64),
            mutable,
        );
        lemma_node_mono(f1, f2, body, env1, funs);
        let (rb, env2) = sem_node(f1, body, env1, funs);
        if rb matches Ok(o) && !(o matches Outcome::Break(_)) && !(o
            matches Outcome::Return(_)) {
            lemma_for_mono(
                (f1 - 1) as nat,
                (f2 - 1) as nat,
                name,
                mutable,
                i + 1,
                hi,
                body,
                pop_env(env2),
                funs,
            );
        }
    }
}

proof fn lemma_node_mono(f1: nat, f2: nat, ast: Ast, env: EnvModel, funs: Seq<(u64, FnDef)>)
    requires
        f1 <= f2,
        sem_node(f1, ast, env, funs).0 != Err::<Outcome, EngineError>(EngineError::StepLimit),
    ensures
        sem_node(f2, ast, env, funs) == sem_node(f1, ast, env, funs),
    decreases f1, 0nat,
{
    let g1 = (f1 - 1) as nat;
    let g2 = (f2 - 1) as nat;
    match ast {
        Ast::Lit(_) => {},
        Ast::Var(_) => {},
        Ast::Binary(op, e1, e2) => {
            lemma_eval_mono(g1, g2, *e1, env, funs);
            let (r1, env1) = sem_eval(g1, *e1, env, funs);
            if r1 is Ok {
                lemma_eval_mono(g1, g2, *e2, env1, funs);
            }
        },
        Ast::Call(g, args) => {
            lemma_args_mono(g1, g2, args@, 0, Seq::<Value>::empty(), env, funs);
            let (ra, _env1) = sem_args(g1, args@, 0, Seq::<Value>::empty(), env, funs);
            match ra {
                Ok(vals) => lemma_call_mono(g1, g2, funs, g, vals),
                Err(_) => {},
            }
        },
        Ast::Let(_x, _m, init) => {
            lemma_eval_mono(g1, g2, *init, env, funs);
        },
        Ast::Assign(_x, rhs) => {
            lemma_eval_mono(g1, g2, *rhs, env, funs);
        },
        Ast::Block(stmts) => {
            lemma_seq_mono(g1, g2, stmts@, 0, env.push(Seq::<Binding>::empty()), funs);
        },
        Ast::If(c, t, eo) => {
            lemma_eval_mono(g1, g2, *c, env, funs);
            let (rc, env1) = sem_eval(g1, *c, env, funs);
            if rc == Ok::<Value, EngineError>(Value::Bool(true)) {
                lemma_node_mono(g1, g2, *t, env1, funs);
            }
            if rc == Ok::<Value, EngineError>(Value::Bool(false)) {
                match eo {
                    Some(e2) => lemma_node_mono(g1, g2, *e2, env1, funs),
                    None => {},
                }
            }
        },
        Ast::While(c, b) => {
            lemma_while_mono(g1, g2, *c, *b, env, funs);
        },
        Ast::Loop(b) => {
            lemma_loop_mono(g1, g2, *b, env, funs);
        },
        Ast::For(x, m, lo, hi, b) => {
            lemma_eval_mono(g1, g2, *lo, env, funs);
            let (rl, env1) = sem_eval(g1, *lo, env, funs);
            match rl {
                Ok(Value::Int(l)) => {
                    lemma_eval_mono(g1, g2, *hi, env1, funs);
                    let (rh, env2) = sem_eval(g1, *hi, env1, funs);
                    match rh {
                        Ok(Value::Int(h)) => lemma_for_mono(
                            g1,
                            g2,
                            x,
                            m,
                            l as int,
                            h as int,
                            *b,
                            env2,
                            funs,
                        ),
                        _ => {},
                    }
                },
                _ => {},
            }
        },
        Ast::Break(None) => {},
        Ast::Break(Some(e)) => {
            lemma_eval_mono(g1, g2, *e, env, funs);
        },
        Ast::Continue => {},
        Ast::Return(None) => {},
        Ast::Return(Some(e)) => {
            lemma_eval_mono(g1, g2, *e, env, funs);
        },
    }
}

/// The step budget is benign: a result the engine delivered within some
/// budget — any value and any error other than `StepLimit` itself — is
/// what every larger budget delivers too. Together with
/// `lemma_call_deterministic`, a completed call has one result,
/// independent of the budget chosen.
pub proof fn lemma_call_fuel_mono(
    f1: nat,
    f2: nat,
    funs: Seq<(u64, FnDef)>,
    name: u64,
    args: Seq<Value>,
)
    requires
        f1 <= f2,
        sem_call(f1, funs, name, args) != Err::<Value, EngineError>(EngineError::StepLimit),
    ensures
        sem_call(f2, funs, name, args) == sem_call(f1, funs, name, args),
{
    lemma_call_mono(f1, f2, funs, name, args);
}

proof fn lemma_call_mono(f1: nat, f2: nat, funs: Seq<(u64, FnDef)>, name: u64, args: Seq<Value>)
    requires
        f1 <= f2,
        sem_call(f1, funs, name, args) != Err::<Value, EngineError>(EngineError::StepLimit),
    ensures
        sem_call(f2, funs, name, args) == sem_call(f1, funs, name, args),
    decreases f1, 1nat,
{
    match lookup_fun(funs, name) {
        Some(d) => {
            if d.params@.len() == args.len() {
                let env0 = seq![crate::ast::bind_params(d.params@, args)];
                lemma_node_mono(f1, f2, d.body, env0, funs);
            }
        },
        None => {},
    }
}

} // verus!
