//! The mathematical semantics of the language: one spec function per
//! construct, defining exactly what the interpreter must compute.
//!
//! Every function takes a step budget (`fuel`). Entering a node, one
//! more loop iteration, and dispatching a call each spend one step; when
//! the budget runs out the result is the `StepLimit` error. For a
//! terminating program any large enough budget yields the program's one
//! true result, and because these are functions, evaluation is
//! deterministic by construction.
//!
//! Each function returns the control outcome (or error) together with
//! the environment as it stands afterwards. Scope frames are pushed on
//! entry to a block, a loop iteration or a call, and popped again on
//! every exit path, normal or abnormal.

use vstd::prelude::*;
use crate::value::{Value, Kind, Outcome, EngineError, kind_of, sem_binop};
use crate::ast::{Ast, FnDef, lookup_fun, bind_params};
use crate::env::{EnvModel, lookup_env, declare_env, assign_env, pop_env};

verus! {

/// Evaluates a node in expression position: its outcome must be normal
/// completion with a value; a break, continue or return signal here
/// means the tree was malformed, reported as `ControlEscaped`.
pub open spec fn sem_eval(fuel: nat, ast: Ast, env: EnvModel, funs: Seq<(u64, FnDef)>) -> (Result<
    Value,
    EngineError,
>, EnvModel)
    decreases fuel, 1nat,
{
    let (r, env1) = sem_node(fuel, ast, env, funs);
    match r {
        Err(e) => (Err(e), env1),
        Ok(Outcome::Normal(v)) => (Ok(v), env1),
        Ok(_) => (Err(EngineError::ControlEscaped), env1),
    }
}

/// Executes the statements of a block from position `i` on, stopping at
/// the first non-normal outcome; the block's value is the value of its
/// last statement (`Unit` for an empty tail).
pub open spec fn sem_seq(
    fuel: nat,
    stmts: Seq<Ast>,
    i: int,
    env: EnvModel,
    funs: Seq<(u64, FnDef)>,
) -> (Result<Outcome, EngineError>, EnvModel)
    recommends
        0 <= i <= stmts.len(),
    decreases fuel, stmts.len() - i,
{
    if i < 0 || i >= stmts.len() {
        (Ok(Outcome::Normal(Value::Unit)), env)
    } else {
        let (r, env1) = sem_node(fuel, stmts[i], env, funs);
        match r {
            Err(e) => (Err(e), env1),
            Ok(Outcome::Normal(v)) => if i == stmts.len() - 1 {
                (Ok(Outcome::Normal(v)), env1)
            } else {
                sem_seq(fuel, stmts, i + 1, env1, funs)
            },
            Ok(o) => (Ok(o), env1),
        }
    }
}

/// Evaluates call arguments from position `i` on, left to right,
/// appending each value to `acc`.
pub open spec fn sem_args(
    fuel: nat,
    args: Seq<Ast>,
    i: int,
    acc: Seq<Value>,
    env: EnvModel,
    funs: Seq<(u64, FnDef)>,
) -> (Result<Seq<Value>, EngineError>, EnvModel)
    recommends
        0 <= i <= args.len(),
    decreases fuel, args.len() - i + 2,
{
    if i < 0 || i >= args.len() {
        (Ok(acc), env)
    } else {
        let (r, env1) = sem_eval(fuel, args[i], env, funs);
        match r {
            Err(e) => (Err(e), env1),
            Ok(v) => sem_args(fuel, args, i + 1, acc.push(v), env1, funs),
        }
    }
}

/// One unconditional loop: runs the body until it breaks (the break's
/// value becomes the loop's value), propagating returns and errors.
pub open spec fn sem_loop(fuel: nat, body: Ast, env: EnvModel, funs: Seq<(u64, FnDef)>) -> (Result<
    Outcome,
    EngineError,
>, EnvModel)
    decreases fuel, 2nat,
{
    if fuel == 0 {
        (Err(EngineError::StepLimit), env)
    } else {
        let (r, env1) = sem_node(fuel, body, env, funs);
        match r {
            Err(e) => (Err(e), env1),
            Ok(Outcome::Break(v)) => (Ok(Outcome::Normal(v)), env1),
            Ok(Outcome::Return(v)) => (Ok(Outcome::Return(v)), env1),
            Ok(_) => sem_loop((fuel - 1) as nat, body, env1, funs),
        }
    }
}

/// One conditional loop: evaluates the condition (which must be a
/// boolean) before each iteration; a break exits with no value.
pub open spec fn sem_while(
    fuel: nat,
    cond: Ast,
    body: Ast,
    env: EnvModel,
    funs: Seq<(u64, FnDef)>,
) -> (Result<Outcome, EngineError>, EnvModel)
    decreases fuel, 2nat,
{
    if fuel == 0 {
        (Err(EngineError::StepLimit), env)
    } else {
        let (rc, env1) = sem_eval(fuel, cond, env, funs);
        match rc {
            Err(e) => (Err(e), env1),
            Ok(Value::Bool(false)) => (Ok(Outcome::Normal(Value::Unit)), env1),
            Ok(Value::Bool(true)) => {
                let (rb, env2) = sem_node(fuel, body, env1, funs);
                match rb {
                    Err(e) => (Err(e), env2),
                    Ok(Outcome::Break(_)) => (Ok(Outcome::Normal(Value::Unit)), env2),
                    Ok(Outcome::Return(v)) => (Ok(Outcome::Return(v)), env2),
                    Ok(_) => sem_while((fuel - 1) as nat, cond, body, env2, funs),
                }
            },
            Ok(v) => (Err(EngineError::TypeMismatch(Kind::BoolKind, kind_of(v))), env1),
        }
    }
}

/// One ranged loop: binds `name` fresh to each integer in `[i, hi)` in
/// ascending order, in a scope of its own around each body run.
pub open spec fn sem_for(
    fuel: nat,
    name: u64,
    mutable: bool,
    i: int,
    hi: int,
    body: Ast,
    env: EnvModel,
    funs: Seq<(u64, FnDef)>,
) -> (Result<Outcome, EngineError>, EnvModel)
    decreases fuel, 2nat,
{
    if fuel == 0 {
        (Err(EngineError::StepLimit), env)
    } else if i >= hi {
        (Ok(Outcome::Normal(Value::Unit)), env)
    } else {
        let env1 = declare_env(
            env.push(Seq::<crate::env::Binding>::empty()),
            name,
            Value::Int(i as i64),
            mutable,
        );
        let (rb, env2) = sem_node(fuel, body, env1, funs);
        let env3 = pop_env(env2);
        match rb {
            Err(e) => (Err(e), env3),
            Ok(Outcome::Break(_)) => (Ok(Outcome::Normal(Value::Unit)), env3),
            Ok(Outcome::Return(v)) => (Ok(Outcome::Return(v)), env3),
            Ok(_) => sem_for((fuel - 1) as nat, name, mutable, i + 1, hi, body, env3, funs),
        }
    }
}

/// One call: looks the function up, checks arity, binds the parameters
/// in one fresh frame, runs the body, and resolves the outcome — an
/// explicit return or the body's tail value gives the result; a break or
/// continue reaching the call boundary means the tree was malformed.
pub open spec fn sem_call(fuel: nat, funs: Seq<(u64, FnDef)>, name: u64, args: Seq<Value>) -> Result<
    Value,
    EngineError,
>
    decreases fuel, 1nat,
{
    match lookup_fun(funs, name) {
        None => Err(EngineError::UndefinedFunction(name)),
        Some(d) => if d.params@.len() != args.len() {
            Err(
                EngineError::ArityMismatch(
                    name,
                    d.params@.len() as usize,
                    args.len() as usize,
                ),
            )
        } else {
            let env0 = seq![bind_params(d.params@, args)];
            let (r, _env1) = sem_node(fuel, d.body, env0, funs);
            match r {
                Err(e) => Err(e),
                Ok(Outcome::Return(v)) => Ok(v),
                Ok(Outcome::Normal(v)) => Ok(v),
                Ok(_) => Err(EngineError::ControlEscaped),
            }
        },
    }
}

/// Executes one node. This is the whole language: each variant's clause
/// below is its definition.
pub open spec fn sem_node(fuel: nat, ast: Ast, env: EnvModel, funs: Seq<(u64, FnDef)>) -> (Result<
    Outcome,
    EngineError,
>, EnvModel)
    decreases fuel, 0nat,
{
    if fuel == 0 {
        (Err(EngineError::StepLimit), env)
    } else {
        let f = (fuel - 1) as nat;
        match ast {
            Ast::Lit(n) => (Ok(Outcome::Normal(Value::Int(n))), env),
            Ast::Var(x) => match lookup_env(env, x) {
                Some(b) => (Ok(Outcome::Normal(b.value)), env),
                None => (Err(EngineError::UndefinedVariable(x)), env),
            },
            Ast::Binary(op, e1, e2) => {
                let (r1, env1) = sem_eval(f, *e1, env, funs);
                match r1 {
                    Err(e) => (Err(e), env1),
                    Ok(v1) => {
                        let (r2, env2) = sem_eval(f, *e2, env1, funs);
                        match r2 {
                            Err(e) => (Err(e), env2),
                            Ok(v2) => match sem_binop(op, v1, v2) {
                                Ok(v) => (Ok(Outcome::Normal(v)), env2),
                                Err(e) => (Err(e), env2),
                            },
                        }
                    },
                }
            },
            Ast::Call(g, args) => {
                let (ra, env1) = sem_args(f, args@, 0, Seq::<Value>::empty(), env, funs);
                match ra {
                    Err(e) => (Err(e), env1),
                    Ok(vals) => match sem_call(f, funs, g, vals) {
                        Ok(v) => (Ok(Outcome::Normal(v)), env1),
                        Err(e) => (Err(e), env1),
                    },
                }
            },
            Ast::Let(x, m, init) => {
                let (r, env1) = sem_eval(f, *init, env, funs);
                match r {
                    Err(e) => (Err(e), env1),
                    Ok(v) => (Ok(Outcome::Normal(Value::Unit)), declare_env(env1, x, v, m)),
                }
            },
            Ast::Assign(x, rhs) => {
                let (r, env1) = sem_eval(f, *rhs, env, funs);
                match r {
                    Err(e) => (Err(e), env1),
                    Ok(v) => match assign_env(env1, x, v) {
                        Ok(env2) => (Ok(Outcome::Normal(Value::Unit)), env2),
                        Err(e) => (Err(e), env1),
                    },
                }
            },
            Ast::Block(stmts) => {
                let (r, env1) = sem_seq(
                    f,
                    stmts@,
                    0,
                    env.push(Seq::<crate::env::Binding>::empty()),
                    funs,
                );
                (r, pop_env(env1))
            },
            Ast::If(c, t, eo) => {
                let (rc, env1) = sem_eval(f, *c, env, funs);
                match rc {
                    Err(e) => (Err(e), env1),
                    Ok(Value::Bool(true)) => sem_node(f, *t, env1, funs),
                    Ok(Value::Bool(false)) => match eo {
                        Some(e2) => sem_node(f, *e2, env1, funs),
                        None => (Ok(Outcome::Normal(Value::Unit)), env1),
                    },
                    Ok(v) => (Err(EngineError::TypeMismatch(Kind::BoolKind, kind_of(v))), env1),
                }
            },
            Ast::While(c, b) => sem_while(f, *c, *b, env, funs),
            Ast::Loop(b) => sem_loop(f, *b, env, funs),
            Ast::For(x, m, lo, hi, b) => {
                let (rl, env1) = sem_eval(f, *lo, env, funs);
                match rl {
                    Err(e) => (Err(e), env1),
                    Ok(Value::Int(l)) => {
                        let (rh, env2) = sem_eval(f, *hi, env1, funs);
                        match rh {
                            Err(e) => (Err(e), env2),
                            Ok(Value::Int(h)) => sem_for(
                                f,
                                x,
                                m,
                                l as int,
                                h as int,
                                *b,
                                env2,
                                funs,
                            ),
                            Ok(v) => (
                                Err(EngineError::TypeMismatch(Kind::IntKind, kind_of(v))),
                                env2,
                            ),
                        }
                    },
                    Ok(v) => (Err(EngineError::TypeMismatch(Kind::IntKind, kind_of(v))), env1),
                }
            },
            Ast::Break(None) => (Ok(Outcome::Break(Value::Unit)), env),
            Ast::Break(Some(e)) => {
                let (r, env1) = sem_eval(f, *e, env, funs);
                match r {
                    Err(er) => (Err(er), env1),
                    Ok(v) => (Ok(Outcome::Break(v)), env1),
                }
            },
            Ast::Continue => (Ok(Outcome::Continue), env),
            Ast::Return(None) => (Ok(Outcome::Return(Value::Unit)), env),
            Ast::Return(Some(e)) => {
                let (r, env1) = sem_eval(f, *e, env, funs);
                match r {
                    Err(er) => (Err(er), env1),
                    Ok(v) => (Ok(Outcome::Return(v)), env1),
                }
            },
        }
    }
}

} // verus!
