//! A verified evaluation engine for a minimal imperative language.
//!
//! The engine walks an already-parsed syntax tree and computes integer
//! results: it keeps a chain of lexical scopes with mutable bindings,
//! evaluates expressions, executes statements, and threads an explicit
//! control outcome (normal / break / continue / return) through nested
//! blocks and loops. A mathematical semantics (`sem`) defines what every
//! construct means; the executable interpreter (`interp`) is proved to
//! return exactly what the semantics says.

pub mod value;
pub mod ast;
pub mod env;
pub mod sem;
pub mod interp;
pub mod fixtures;
pub mod laws;
