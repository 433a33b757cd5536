//! Syntax trees: the node variants the engine executes, function
//! definitions, and whole programs.
//!
//! Names are interned identifiers (`u64`); resolving source text to such
//! identifiers is the front end's job, not the engine's.

use vstd::prelude::*;
use crate::value::Value;

verus! {

/// One node of a parsed program. Expression-like nodes (literal,
/// variable, operator, call) compute a value; statement-like nodes
/// (bindings, assignment, blocks, conditionals, loops, control signals)
/// produce a control outcome. The engine reads nodes, never mutates them.
pub enum Ast {
    /// An integer literal.
    Lit(i64),
    /// A variable reference, resolved innermost scope first.
    Var(u64),
    /// A binary operator applied to two operands, left evaluated first.
    Binary(crate::value::BinOp, Box<Ast>, Box<Ast>),
    /// A call: the callee's name and the arguments, evaluated left to
    /// right in the caller's environment.
    Call(u64, Vec<Ast>),
    /// `let` / `let mut`: name, mutability, initializer.
    Let(u64, bool, Box<Ast>),
    /// Assignment to the nearest binding of the name.
    Assign(u64, Box<Ast>),
    /// A block: a fresh scope around a statement sequence; its value is
    /// the value of its last statement.
    Block(Vec<Ast>),
    /// `if cond { then } else { alt }`; the condition must be a boolean.
    If(Box<Ast>, Box<Ast>, Option<Box<Ast>>),
    /// `while cond { body }`; carries no break value.
    While(Box<Ast>, Box<Ast>),
    /// `loop { body }`; a `break v` inside gives the loop the value `v`.
    Loop(Box<Ast>),
    /// `for name in lo..hi { body }`: bound variable's name and
    /// mutability annotation, the two bounds (evaluated once, in order),
    /// and the body.
    For(u64, bool, Box<Ast>, Box<Ast>, Box<Ast>),
    /// `break`, optionally carrying a value for an enclosing `loop`.
    Break(Option<Box<Ast>>),
    /// `continue`.
    Continue,
    /// `return`, optionally carrying the value returned.
    Return(Option<Box<Ast>>),
}

/// A function definition: the parameter names with their mutability
/// annotations, and the body (normally a block).
pub struct FnDef {
    pub params: Vec<(u64, bool)>,
    pub body: Ast,
}

/// A whole program: its function definitions, looked up by name. When a
/// name is defined twice, the earlier definition wins.
pub struct Program {
    pub funs: Vec<(u64, FnDef)>,
}

/// Looks a function up by name, from position `i` on: the first match.
pub open spec fn lookup_fun_from(funs: Seq<(u64, FnDef)>, name: u64, i: int) -> Option<FnDef>
    decreases funs.len() - i,
{
    if i < 0 || i >= funs.len() {
        None
    } else if funs[i].0 == name {
        Some(funs[i].1)
    } else {
        lookup_fun_from(funs, name, i + 1)
    }
}

/// Looks a function up by name: the first definition of that name.
pub open spec fn lookup_fun(funs: Seq<(u64, FnDef)>, name: u64) -> Option<FnDef> {
    lookup_fun_from(funs, name, 0)
}

/// Finds the position of the first definition of `name`, if any.
fn find_fun_from(prog: &Program, name: u64, i: usize) -> (r: Option<usize>)
    requires
        i <= prog.funs@.len(),
    ensures
        match r {
            Some(j) => i <= j < prog.funs@.len() && prog.funs@[j as int].0 == name
                && lookup_fun_from(prog.funs@, name, i as int) == Some(prog.funs@[j as int].1),
            None => lookup_fun_from(prog.funs@, name, i as int) is None,
        },
    decreases prog.funs@.len() - i,
{
    if i == prog.funs.len() {
        None
    } else if prog.funs[i].0 == name {
        Some(i)
    } else {
        find_fun_from(prog, name, i + 1)
    }
}

/// Finds the position of the first definition of `name`, if any.
pub fn find_fun(prog: &Program, name: u64) -> (r: Option<usize>)
    ensures
        match r {
            Some(j) => j < prog.funs@.len() && prog.funs@[j as int].0 == name
                && lookup_fun(prog.funs@, name) == Some(prog.funs@[j as int].1),
            None => lookup_fun(prog.funs@, name) is None,
        },
{
    find_fun_from(prog, name, 0)
}

/// The parameter frame of a call: each parameter name bound to its
/// argument value with its declared mutability.
pub open spec fn bind_params(params: Seq<(u64, bool)>, args: Seq<Value>) -> Seq<crate::env::Binding>
    recommends
        params.len() == args.len(),
{
    Seq::new(params.len(), |i: int| crate::env::Binding {
        name: params[i].0,
        value: args[i],
        mutable: params[i].1,
    })
}

} // verus!
