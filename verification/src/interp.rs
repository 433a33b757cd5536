//! The executable interpreter: a strict depth-first walk of the tree,
//! each function proved to return exactly what the corresponding
//! semantics function says, and to leave the scope chain at its original
//! depth.

use vstd::prelude::*;
use crate::value::{Value, Outcome, EngineError, apply_binop, value_kind, Kind};
use crate::ast::{Ast, Program, find_fun, bind_params};
use crate::env::{Env, Binding};
use crate::sem::{sem_node, sem_eval, sem_seq, sem_args, sem_loop, sem_while, sem_for, sem_call};

verus! {

/// Evaluates a node in expression position, yielding its value; any
/// break, continue or return signal arising here is a malformed tree,
/// reported as `ControlEscaped`.
pub fn eval_expr(fuel: u64, ast: &Ast, env: &mut Env, prog: &Program) -> (r: Result<
    Value,
    EngineError,
>)
    requires
        old(env).model().len() >= 1,
    ensures
        ({
            let (r2, e2) = sem_eval(fuel as nat, *ast, old(env).model(), prog.funs@);
            r == r2 && final(env).model() == e2
        }),
        final(env).model().len() == old(env).model().len(),
    decreases fuel, 1nat,
{
    match exec_node(fuel, ast, env, prog) {
        Err(e) => Err(e),
        Ok(Outcome::Normal(v)) => Ok(v),
        Ok(_) => Err(EngineError::ControlEscaped),
    }
}

/// Executes the statements of a block from position `i` on.
fn exec_seq(fuel: u64, stmts: &Vec<Ast>, i: usize, env: &mut Env, prog: &Program) -> (r: Result<
    Outcome,
    EngineError,
>)
    requires
        i <= stmts@.len(),
        old(env).model().len() >= 1,
    ensures
        ({
            let (r2, e2) = sem_seq(fuel as nat, stmts@, i as int, old(env).model(), prog.funs@);
            r == r2 && final(env).model() == e2
        }),
        final(env).model().len() == old(env).model().len(),
    decreases fuel, stmts@.len() - i,
{
    if i >= stmts.len() {
        Ok(Outcome::Normal(Value::Unit))
    } else {
        let r = exec_node(fuel, &stmts[i], env, prog);
        match r {
            Err(e) => Err(e),
            Ok(Outcome::Normal(v)) => if i == stmts.len() - 1 {
                Ok(Outcome::Normal(v))
            } else {
                exec_seq(fuel, stmts, i + 1, env, prog)
            },
            Ok(o) => Ok(o),
        }
    }
}

/// Evaluates call arguments from position `i` on, appending to `acc`.
fn exec_args(
    fuel: u64,
    args: &Vec<Ast>,
    i: usize,
    acc: Vec<Value>,
    env: &mut Env,
    prog: &Program,
) -> (r: Result<Vec<Value>, EngineError>)
    requires
        i <= args@.len(),
        old(env).model().len() >= 1,
    ensures
        ({
            let (r2, e2) = sem_args(
                fuel as nat,
                args@,
                i as int,
                acc@,
                old(env).model(),
                prog.funs@,
            );
            final(env).model() == e2 && match (r, r2) {
                (Ok(v), Ok(s)) => v@ == s,
                (Err(a), Err(b)) => a == b,
                _ => false,
            }
        }),
        final(env).model().len() == old(env).model().len(),
    decreases fuel, args@.len() - i + 2,
{
    if i >= args.len() {
        Ok(acc)
    } else {
        match eval_expr(fuel, &args[i], env, prog) {
            Err(e) => Err(e),
            Ok(v) => {
                let mut acc2 = acc;
                acc2.push(v);
                exec_args(fuel, args, i + 1, acc2, env, prog)
            },
        }
    }
}

/// Runs an unconditional loop body until it breaks.
fn exec_loop(fuel: u64, body: &Ast, env: &mut Env, prog: &Program) -> (r: Result<
    Outcome,
    EngineError,
>)
    requires
        old(env).model().len() >= 1,
    ensures
        ({
            let (r2, e2) = sem_loop(fuel as nat, *body, old(env).model(), prog.funs@);
            r == r2 && final(env).model() == e2
        }),
        final(env).model().len() == old(env).model().len(),
    decreases fuel, 2nat,
{
    if fuel == 0 {
        Err(EngineError::StepLimit)
    } else {
        match exec_node(fuel, body, env, prog) {
            Err(e) => Err(e),
            Ok(Outcome::Break(v)) => Ok(Outcome::Normal(v)),
            Ok(Outcome::Return(v)) => Ok(Outcome::Return(v)),
            Ok(_) => exec_loop(fuel - 1, body, env, prog),
        }
    }
}

/// Runs a conditional loop, testing the condition before each pass.
fn exec_while(fuel: u64, cond: &Ast, body: &Ast, env: &mut Env, prog: &Program) -> (r: Result<
    Outcome,
    EngineError,
>)
    requires
        old(env).model().len() >= 1,
    ensures
        ({
            let (r2, e2) = sem_while(fuel as nat, *cond, *body, old(env).model(), prog.funs@);
            r == r2 && final(env).model() == e2
        }),
        final(env).model().len() == old(env).model().len(),
    decreases fuel, 2nat,
{
    if fuel == 0 {
        Err(EngineError::StepLimit)
    } else {
        match eval_expr(fuel, cond, env, prog) {
            Err(e) => Err(e),
            Ok(Value::Bool(false)) => Ok(Outcome::Normal(Value::Unit)),
            Ok(Value::Bool(true)) => {
                match exec_node(fuel, body, env, prog) {
                    Err(e) => Err(e),
                    Ok(Outcome::Break(_)) => Ok(Outcome::Normal(Value::Unit)),
                    Ok(Outcome::Return(v)) => Ok(Outcome::Return(v)),
                    Ok(_) => exec_while(fuel - 1, cond, body, env, prog),
                }
            },
            Ok(v) => Err(EngineError::TypeMismatch(Kind::BoolKind, value_kind(v))),
        }
    }
}

/// Runs a ranged loop from `i` (inclusive) to `hi` (exclusive), binding
/// the loop variable fresh in a scope of its own around each pass.
fn exec_for(
    fuel: u64,
    name: u64,
    mutable: bool,
    i: i64,
    hi: i64,
    body: &Ast,
    env: &mut Env,
    prog: &Program,
) -> (r: Result<Outcome, EngineError>)
    requires
        old(env).model().len() >= 1,
    ensures
        ({
            let (r2, e2) = sem_for(
                fuel as nat,
                name,
                mutable,
                i as int,
                hi as int,
                *body,
                old(env).model(),
                prog.funs@,
            );
            r == r2 && final(env).model() == e2
        }),
        final(env).model().len() == old(env).model().len(),
    decreases fuel, 2nat,
{
    if fuel == 0 {
        Err(EngineError::StepLimit)
    } else if i >= hi {
        Ok(Outcome::Normal(Value::Unit))
    } else {
        env.push_frame();
        env.declare(name, Value::Int(i), mutable);
        let rb = exec_node(fuel, body, env, prog);
        env.pop_frame();
        match rb {
            Err(e) => Err(e),
            Ok(Outcome::Break(_)) => Ok(Outcome::Normal(Value::Unit)),
            Ok(Outcome::Return(v)) => Ok(Outcome::Return(v)),
            Ok(_) => exec_for(fuel - 1, name, mutable, i + 1, hi, body, env, prog),
        }
    }
}

/// Executes one node against the current environment, producing its
/// control outcome.
pub fn exec_node(fuel: u64, ast: &Ast, env: &mut Env, prog: &Program) -> (r: Result<
    Outcome,
    EngineError,
>)
    requires
        old(env).model().len() >= 1,
    ensures
        ({
            let (r2, e2) = sem_node(fuel as nat, *ast, old(env).model(), prog.funs@);
            r == r2 && final(env).model() == e2
        }),
        final(env).model().len() == old(env).model().len(),
    decreases fuel, 0nat,
{
    if fuel == 0 {
        return Err(EngineError::StepLimit);
    }
    let f = fuel - 1;
    match ast {
        Ast::Lit(n) => Ok(Outcome::Normal(Value::Int(*n))),
        Ast::Var(x) => match env.lookup(*x) {
            Ok(v) => Ok(Outcome::Normal(v)),
            Err(e) => Err(e),
        },
        Ast::Binary(op, e1, e2) => {
            let v1 = match eval_expr(f, e1, env, prog) {
                Ok(v) => v,
                Err(e) => {
                    return Err(e);
                },
            };
            let v2 = match eval_expr(f, e2, env, prog) {
                Ok(v) => v,
                Err(e) => {
                    return Err(e);
                },
            };
            match apply_binop(*op, v1, v2) {
                Ok(v) => Ok(Outcome::Normal(v)),
                Err(e) => Err(e),
            }
        },
        Ast::Call(g, args) => {
            let vals = match exec_args(f, args, 0, Vec::new(), env, prog) {
                Ok(v) => v,
                Err(e) => {
                    return Err(e);
                },
            };
            match call(prog, *g, vals, f) {
                Ok(v) => Ok(Outcome::Normal(v)),
                Err(e) => Err(e),
            }
        },
        Ast::Let(x, m, init) => {
            match eval_expr(f, init, env, prog) {
                Ok(v) => {
                    env.declare(*x, v, *m);
                    Ok(Outcome::Normal(Value::Unit))
                },
                Err(e) => Err(e),
            }
        },
        Ast::Assign(x, rhs) => {
            match eval_expr(f, rhs, env, prog) {
                Ok(v) => match ({
                    proof {
                        crate::env::lemma_assign_env_len(env.model(), *x, v);
                    }
                    env.assign(*x, v)
                }) {
                    Ok(()) => Ok(Outcome::Normal(Value::Unit)),
                    Err(e) => Err(e),
                },
                Err(e) => Err(e),
            }
        },
        Ast::Block(stmts) => {
            env.push_frame();
            let r = exec_seq(f, stmts, 0, env, prog);
            env.pop_frame();
            r
        },
        Ast::If(c, t, eo) => {
            match eval_expr(f, c, env, prog) {
                Err(e) => Err(e),
                Ok(Value::Bool(true)) => exec_node(f, t, env, prog),
                Ok(Value::Bool(false)) => match eo {
                    Some(e2) => exec_node(f, e2, env, prog),
                    None => Ok(Outcome::Normal(Value::Unit)),
                },
                Ok(v) => Err(EngineError::TypeMismatch(Kind::BoolKind, value_kind(v))),
            }
        },
        Ast::While(c, b) => exec_while(f, c, b, env, prog),
        Ast::Loop(b) => exec_loop(f, b, env, prog),
        Ast::For(x, m, lo, hi, b) => {
            let l = match eval_expr(f, lo, env, prog) {
                Ok(Value::Int(l)) => l,
                Ok(v) => {
                    return Err(EngineError::TypeMismatch(Kind::IntKind, value_kind(v)));
                },
                Err(e) => {
                    return Err(e);
                },
            };
            match eval_expr(f, hi, env, prog) {
                Ok(Value::Int(h)) => exec_for(f, *x, *m, l, h, b, env, prog),
                Ok(v) => Err(EngineError::TypeMismatch(Kind::IntKind, value_kind(v))),
                Err(e) => Err(e),
            }
        },
        Ast::Break(None) => Ok(Outcome::Break(Value::Unit)),
        Ast::Break(Some(e)) => match eval_expr(f, e, env, prog) {
            Ok(v) => Ok(Outcome::Break(v)),
            Err(er) => Err(er),
        },
        Ast::Continue => Ok(Outcome::Continue),
        Ast::Return(None) => Ok(Outcome::Return(Value::Unit)),
        Ast::Return(Some(e)) => match eval_expr(f, e, env, prog) {
            Ok(v) => Ok(Outcome::Return(v)),
            Err(er) => Err(er),
        },
    }
}

/// Dispatches one call: looks the function up, checks arity, binds the
/// parameters in one fresh frame, executes the body, and resolves the
/// outcome into the call's result.
pub fn call(prog: &Program, name: u64, args: Vec<Value>, fuel: u64) -> (r: Result<
    Value,
    EngineError,
>)
    ensures
        r == sem_call(fuel as nat, prog.funs@, name, args@),
    decreases fuel, 1nat,
{
    match find_fun(prog, name) {
        None => Err(EngineError::UndefinedFunction(name)),
        Some(j) => {
            let d = &prog.funs[j].1;
            if d.params.len() != args.len() {
                Err(EngineError::ArityMismatch(name, d.params.len(), args.len()))
            } else {
                let mut frame: Vec<Binding> = Vec::new();
                let mut k: usize = 0;
                while k < d.params.len()
                    invariant
                        k <= d.params@.len(),
                        d.params@.len() == args@.len(),
                        frame@.len() == k as int,
                        d == &prog.funs@[j as int].1,
                        forall|t: int|
                            0 <= t < k ==> frame@[t] == bind_params(d.params@, args@)[t],
                    decreases d.params@.len() - k,
                {
                    frame.push(
                        Binding { name: d.params[k].0, value: args[k], mutable: d.params[k].1 },
                    );
                    k += 1;
                }
                proof {
                    assert(frame@ =~= bind_params(d.params@, args@));
                }
                let mut env0 = Env::from_frame(frame);
                match exec_node(fuel, &d.body, &mut env0, prog) {
                    Err(e) => Err(e),
                    Ok(Outcome::Return(v)) => Ok(v),
                    Ok(Outcome::Normal(v)) => Ok(v),
                    Ok(_) => Err(EngineError::ControlEscaped),
                }
            }
        },
    }
}

} // verus!
