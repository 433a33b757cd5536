//! Runtime values, the binary operators on them, and the engine's errors.

use vstd::prelude::*;

verus! {

/// A runtime value of the language: a 64-bit signed integer, a boolean
/// (produced by comparisons and consumed by conditions), or the
/// "no value" marker left by statements that compute nothing.
#[derive(Clone, Copy, Debug, PartialEq, Eq, Structural)]
pub enum Value {
    Int(i64),
    Bool(bool),
    Unit,
}

/// The kind of a runtime value, used to report type mismatches.
#[derive(Clone, Copy, Debug, PartialEq, Eq, Structural)]
pub enum Kind {
    IntKind,
    BoolKind,
    UnitKind,
}

/// Binary operators: integer arithmetic and integer comparisons.
#[derive(Clone, Copy, Debug, PartialEq, Eq, Structural)]
pub enum BinOp {
    Add,
    Sub,
    Mul,
    Div,
    Rem,
    Lt,
    Le,
    Gt,
    Ge,
    Eq,
    Ne,
}

/// The control outcome of executing a statement or block: normal
/// completion carrying the statement's value (`Value::Unit` when there is
/// none), or a `break`, `continue` or `return` signal travelling to the
/// enclosing loop or call boundary.
#[derive(Clone, Copy, Debug, PartialEq, Eq, Structural)]
pub enum Outcome {
    Normal(Value),
    Break(Value),
    Continue,
    Return(Value),
}

/// Everything that can go wrong while evaluating a program. Each error
/// aborts the enclosing top-level call; no partial result is returned.
#[derive(Clone, Copy, Debug, PartialEq, Eq, Structural)]
pub enum EngineError {
    /// A variable reference found no binding in any enclosing scope.
    UndefinedVariable(u64),
    /// A call named a function the program does not define.
    UndefinedFunction(u64),
    /// An assignment hit a binding that was not declared mutable.
    ImmutableAssignment(u64),
    /// Division or remainder by zero.
    DivisionByZero,
    /// A value of the wrong kind reached an operator or a condition:
    /// the kind expected, then the kind found.
    TypeMismatch(Kind, Kind),
    /// A call supplied the wrong number of arguments: the function's
    /// name, the arity it declares, and the arity supplied.
    ArityMismatch(u64, usize, usize),
    /// A `break` or `continue` signal reached a boundary with no
    /// enclosing loop: the tree handed to the engine was malformed.
    ControlEscaped,
    /// The step budget given to the engine ran out before the program
    /// finished; a larger budget may let the same program complete.
    StepLimit,
}

/// The kind of a value.
pub open spec fn kind_of(v: Value) -> Kind {
    match v {
        Value::Int(_) => Kind::IntKind,
        Value::Bool(_) => Kind::BoolKind,
        Value::Unit => Kind::UnitKind,
    }
}

/// Truncating (Rust-style) division, wrapping on `i64::MIN / -1`.
pub open spec fn div_wrap(a: i64, b: i64) -> i64
    recommends
        b != 0,
{
    match a.checked_div(b) {
        Some(q) => q,
        None => i64::MIN,
    }
}

/// Truncating (Rust-style) remainder, with `i64::MIN % -1 == 0`.
pub open spec fn rem_wrap(a: i64, b: i64) -> i64
    recommends
        b != 0,
{
    match a.checked_rem(b) {
        Some(r) => r,
        None => 0,
    }
}

/// What a binary operator yields on two integer operands: wrapping
/// two's-complement arithmetic, truncating division and remainder that
/// fail on a zero divisor, and comparisons yielding booleans.
pub open spec fn sem_binop_int(op: BinOp, a: i64, b: i64) -> Result<Value, EngineError> {
    match op {
        BinOp::Add => Ok(Value::Int(a.wrapping_add(b))),
        BinOp::Sub => Ok(Value::Int(a.wrapping_sub(b))),
        BinOp::Mul => Ok(Value::Int(a.wrapping_mul(b))),
        BinOp::Div => if b == 0 {
            Err(EngineError::DivisionByZero)
        } else {
            Ok(Value::Int(div_wrap(a, b)))
        },
        BinOp::Rem => if b == 0 {
            Err(EngineError::DivisionByZero)
        } else {
            Ok(Value::Int(rem_wrap(a, b)))
        },
        BinOp::Lt => Ok(Value::Bool(a < b)),
        BinOp::Le => Ok(Value::Bool(a <= b)),
        BinOp::Gt => Ok(Value::Bool(a > b)),
        BinOp::Ge => Ok(Value::Bool(a >= b)),
        BinOp::Eq => Ok(Value::Bool(a == b)),
        BinOp::Ne => Ok(Value::Bool(a != b)),
    }
}

/// What a binary operator yields on two values: both operands must be
/// integers, anything else is a type mismatch naming the offender.
pub open spec fn sem_binop(op: BinOp, v1: Value, v2: Value) -> Result<Value, EngineError> {
    match (v1, v2) {
        (Value::Int(a), Value::Int(b)) => sem_binop_int(op, a, b),
        (Value::Int(_), _) => Err(EngineError::TypeMismatch(Kind::IntKind, kind_of(v2))),
        _ => Err(EngineError::TypeMismatch(Kind::IntKind, kind_of(v1))),
    }
}

/// The kind of a value, computed at run time.
pub fn value_kind(v: Value) -> (k: Kind)
    ensures
        k == kind_of(v),
{
    match v {
        Value::Int(_) => Kind::IntKind,
        Value::Bool(_) => Kind::BoolKind,
        Value::Unit => Kind::UnitKind,
    }
}

/// Applies a binary operator to two runtime values.
pub fn apply_binop(op: BinOp, v1: Value, v2: Value) -> (r: Result<Value, EngineError>)
    ensures
        r == sem_binop(op, v1, v2),
{
    match (v1, v2) {
        (Value::Int(a), Value::Int(b)) => match op {
            BinOp::Add => Ok(Value::Int(a.wrapping_add(b))),
            BinOp::Sub => Ok(Value::Int(a.wrapping_sub(b))),
            BinOp::Mul => Ok(Value::Int(a.wrapping_mul(b))),
            BinOp::Div => if b == 0 {
                Err(EngineError::DivisionByZero)
            } else {
                match a.checked_div(b) {
                    Some(q) => Ok(Value::Int(q)),
                    None => Ok(Value::Int(i64::MIN)),
                }
            },
            BinOp::Rem => if b == 0 {
                Err(EngineError::DivisionByZero)
            } else {
                match a.checked_rem(b) {
                    Some(rr) => Ok(Value::Int(rr)),
                    None => Ok(Value::Int(0)),
                }
            },
            BinOp::Lt => Ok(Value::Bool(a < b)),
            BinOp::Le => Ok(Value::Bool(a <= b)),
            BinOp::Gt => Ok(Value::Bool(a > b)),
            BinOp::Ge => Ok(Value::Bool(a >= b)),
            BinOp::Eq => Ok(Value::Bool(a == b)),
            BinOp::Ne => Ok(Value::Bool(a != b)),
        },
        (Value::Int(_), _) => Err(EngineError::TypeMismatch(Kind::IntKind, value_kind(v2))),
        _ => Err(EngineError::TypeMismatch(Kind::IntKind, value_kind(v1))),
    }
}

} // verus!
