use treewalk::ast::{Ast, FnDef, Program};
use treewalk::interp::call;
use treewalk::value::{BinOp, EngineError, Kind, Value};

const A: u64 = 1;
const B: u64 = 2;
const C: u64 = 3;
const I: u64 = 4;
const FOO: u64 = 10;
const FOO2: u64 = 11;
const FOO3: u64 = 12;
const FOO4: u64 = 13;
const MAIN: u64 = 14;
const FUEL: u64 = 1_000_000;

fn lit(n: i64) -> Ast {
    Ast::Lit(n)
}

fn var(x: u64) -> Ast {
    Ast::Var(x)
}

fn bin(op: BinOp, l: Ast, r: Ast) -> Ast {
    Ast::Binary(op, Box::new(l), Box::new(r))
}

fn let_mut(x: u64, init: Ast) -> Ast {
    Ast::Let(x, true, Box::new(init))
}

fn assign(x: u64, rhs: Ast) -> Ast {
    Ast::Assign(x, Box::new(rhs))
}

fn if_else(cond: Ast, then: Ast, alt: Ast) -> Ast {
    Ast::If(Box::new(cond), Box::new(then), Some(Box::new(alt)))
}

fn if_only(cond: Ast, then: Ast) -> Ast {
    Ast::If(Box::new(cond), Box::new(then), None)
}

fn while_loop(cond: Ast, body: Ast) -> Ast {
    Ast::While(Box::new(cond), Box::new(body))
}

fn ret(e: Ast) -> Ast {
    Ast::Return(Some(Box::new(e)))
}

fn def(params: Vec<(u64, bool)>, stmts: Vec<Ast>) -> FnDef {
    FnDef { params, body: Ast::Block(stmts) }
}

/// The source fixtures as syntax trees, plus an entry point.
fn fixture_program() -> Program {
    let foo = def(
        vec![(A, true), (B, true)],
        vec![
            let_mut(C, bin(BinOp::Add, var(A), var(B))),
            ret(bin(BinOp::Add, bin(BinOp::Add, var(A), var(B)), var(C))),
        ],
    );
    let foo2 = def(
        vec![],
        vec![
            let_mut(A, lit(1)),
            assign(A, bin(BinOp::Mul, var(A), lit(4))),
            if_only(
                bin(BinOp::Gt, var(A), lit(1)),
                Ast::Block(vec![assign(A, bin(BinOp::Add, var(A), lit(1)))]),
            ),
            let_mut(B, lit(0)),
            Ast::For(
                I,
                true,
                Box::new(lit(1)),
                Box::new(var(A)),
                Box::new(Ast::Block(vec![assign(B, bin(BinOp::Add, var(B), var(I)))])),
            ),
            var(B),
        ],
    );
    let foo3 = def(
        vec![],
        vec![
            let_mut(A, lit(1)),
            let_mut(
                B,
                if_else(
                    bin(BinOp::Gt, var(A), lit(1)),
                    Ast::Block(vec![lit(1)]),
                    Ast::Block(vec![lit(2)]),
                ),
            ),
            while_loop(
                bin(BinOp::Ge, var(A), lit(1)),
                Ast::Block(vec![
                    assign(A, bin(BinOp::Sub, var(A), lit(1))),
                    assign(B, bin(BinOp::Div, var(B), lit(1))),
                ]),
            ),
            assign(A, lit(4)),
            while_loop(
                bin(BinOp::Ge, var(A), lit(1)),
                Ast::Block(vec![
                    if_else(
                        bin(BinOp::Ge, var(A), lit(1)),
                        Ast::Block(vec![
                            assign(A, bin(BinOp::Sub, var(A), lit(1))),
                            Ast::Continue,
                        ]),
                        Ast::Block(vec![assign(B, lit(10))]),
                    ),
                ]),
            ),
            ret(var(B)),
        ],
    );
    let foo4 = def(
        vec![],
        vec![ret(Ast::Loop(Box::new(Ast::Block(vec![Ast::Break(Some(Box::new(lit(2))))]))))],
    );
    let main0 = def(
        vec![],
        vec![
            let_mut(A, lit(1)),
            let_mut(B, lit(2)),
            ret(bin(
                BinOp::Add,
                bin(
                    BinOp::Add,
                    bin(
                        BinOp::Add,
                        Ast::Call(FOO, vec![var(A), var(B)]),
                        Ast::Call(FOO2, vec![]),
                    ),
                    Ast::Call(FOO3, vec![]),
                ),
                Ast::Call(FOO4, vec![]),
            )),
        ],
    );
    Program {
        funs: vec![(FOO, foo), (FOO2, foo2), (FOO3, foo3), (FOO4, foo4), (MAIN, main0)],
    }
}

#[test]
fn engine_simple_call() {
    let prog = fixture_program();
    assert_eq!(
        call(&prog, FOO, vec![Value::Int(1), Value::Int(2)], FUEL),
        Ok(Value::Int(6))
    );
}

#[test]
fn engine_ranged_loop() {
    let prog = fixture_program();
    assert_eq!(call(&prog, FOO2, vec![], FUEL), Ok(Value::Int(10)));
}

#[test]
fn engine_conditional_loops() {
    let prog = fixture_program();
    assert_eq!(call(&prog, FOO3, vec![], FUEL), Ok(Value::Int(2)));
}

#[test]
fn engine_loop_break_value() {
    let prog = fixture_program();
    assert_eq!(call(&prog, FOO4, vec![], FUEL), Ok(Value::Int(2)));
}

#[test]
fn engine_end_to_end_entry_point() {
    let prog = fixture_program();
    assert_eq!(call(&prog, MAIN, vec![], FUEL), Ok(Value::Int(20)));
}

#[test]
fn engine_is_deterministic() {
    let prog = fixture_program();
    let first = call(&prog, MAIN, vec![], FUEL);
    let second = call(&prog, MAIN, vec![], FUEL);
    assert_eq!(first, second);
}

#[test]
fn engine_shadowing_in_nested_block() {
    // let mut a = 1; { let mut a = 2; a = 3; } a
    let prog = Program {
        funs: vec![(FOO, def(
            vec![],
            vec![
                let_mut(A, lit(1)),
                Ast::Block(vec![let_mut(A, lit(2)), assign(A, lit(3))]),
                var(A),
            ],
        ))],
    };
    assert_eq!(call(&prog, FOO, vec![], FUEL), Ok(Value::Int(1)));
}

#[test]
fn engine_tail_expression_is_the_result() {
    let prog = Program {
        funs: vec![(FOO, def(vec![], vec![let_mut(A, lit(5)), var(A)]))],
    };
    assert_eq!(call(&prog, FOO, vec![], FUEL), Ok(Value::Int(5)));
}

#[test]
fn engine_body_without_tail_value_yields_unit() {
    let prog = Program {
        funs: vec![(FOO, def(vec![], vec![let_mut(A, lit(5))]))],
    };
    assert_eq!(call(&prog, FOO, vec![], FUEL), Ok(Value::Unit));
}

#[test]
fn engine_return_unwinds_nested_loops() {
    // loop { while true { return 42 } }
    let prog = Program {
        funs: vec![(FOO, def(
            vec![],
            vec![Ast::Loop(Box::new(Ast::Block(vec![while_loop(
                bin(BinOp::Eq, lit(0), lit(0)),
                Ast::Block(vec![ret(lit(42))]),
            )])))],
        ))],
    };
    assert_eq!(call(&prog, FOO, vec![], FUEL), Ok(Value::Int(42)));
}

#[test]
fn engine_undefined_function() {
    let prog = fixture_program();
    assert_eq!(
        call(&prog, 99, vec![], FUEL),
        Err(EngineError::UndefinedFunction(99))
    );
}

#[test]
fn engine_arity_mismatch() {
    let prog = fixture_program();
    assert_eq!(
        call(&prog, FOO, vec![Value::Int(1)], FUEL),
        Err(EngineError::ArityMismatch(FOO, 2, 1))
    );
}

#[test]
fn engine_undefined_variable() {
    let prog = Program {
        funs: vec![(FOO, def(vec![], vec![var(C)]))],
    };
    assert_eq!(call(&prog, FOO, vec![], FUEL), Err(EngineError::UndefinedVariable(C)));
}

#[test]
fn engine_immutable_assignment() {
    let prog = Program {
        funs: vec![(FOO, def(
            vec![],
            vec![Ast::Let(A, false, Box::new(lit(1))), assign(A, lit(2))],
        ))],
    };
    assert_eq!(
        call(&prog, FOO, vec![], FUEL),
        Err(EngineError::ImmutableAssignment(A))
    );
}

#[test]
fn engine_division_by_zero_aborts_the_call() {
    let prog = Program {
        funs: vec![(FOO, def(
            vec![(A, false)],
            vec![bin(BinOp::Div, var(A), lit(0)), ret(lit(7))],
        ))],
    };
    assert_eq!(
        call(&prog, FOO, vec![Value::Int(1)], FUEL),
        Err(EngineError::DivisionByZero)
    );
}

#[test]
fn engine_condition_must_be_boolean() {
    let prog = Program {
        funs: vec![(FOO, def(
            vec![],
            vec![if_only(lit(1), Ast::Block(vec![lit(2)]))],
        ))],
    };
    assert_eq!(
        call(&prog, FOO, vec![], FUEL),
        Err(EngineError::TypeMismatch(Kind::BoolKind, Kind::IntKind))
    );
}

#[test]
fn engine_break_outside_loop_is_malformed() {
    let prog = Program {
        funs: vec![(FOO, def(vec![], vec![Ast::Break(None)]))],
    };
    assert_eq!(call(&prog, FOO, vec![], FUEL), Err(EngineError::ControlEscaped));
}

#[test]
fn engine_step_limit_on_infinite_loop() {
    let prog = Program {
        funs: vec![(FOO, def(
            vec![],
            vec![Ast::Loop(Box::new(Ast::Block(vec![lit(0)])))],
        ))],
    };
    assert_eq!(call(&prog, FOO, vec![], 1000), Err(EngineError::StepLimit));
}

#[test]
fn engine_break_exits_while_without_value() {
    // let mut a = 0; while true { a = 7; break 9; } a
    let prog = Program {
        funs: vec![(FOO, def(
            vec![],
            vec![
                let_mut(A, lit(0)),
                while_loop(
                    bin(BinOp::Eq, lit(0), lit(0)),
                    Ast::Block(vec![
                        assign(A, lit(7)),
                        Ast::Break(Some(Box::new(lit(9)))),
                    ]),
                ),
                var(A),
            ],
        ))],
    };
    assert_eq!(call(&prog, FOO, vec![], FUEL), Ok(Value::Int(7)));
}

#[test]
fn engine_break_in_nested_if_exits_only_the_loop() {
    // loop { if true { break 3 } } + 1
    let prog = Program {
        funs: vec![(FOO, def(
            vec![],
            vec![bin(
                BinOp::Add,
                Ast::Loop(Box::new(Ast::Block(vec![if_only(
                    bin(BinOp::Eq, lit(0), lit(0)),
                    Ast::Block(vec![Ast::Break(Some(Box::new(lit(3))))]),
                )]))),
                lit(1),
            )],
        ))],
    };
    assert_eq!(call(&prog, FOO, vec![], FUEL), Ok(Value::Int(4)));
}

#[test]
fn engine_larger_budget_gives_the_same_result() {
    let prog = fixture_program();
    let small = call(&prog, MAIN, vec![], 200);
    let large = call(&prog, MAIN, vec![], FUEL);
    assert_eq!(small, large);
}

#[test]
fn engine_zero_iterations_when_range_is_empty() {
    let prog = Program {
        funs: vec![(FOO, def(
            vec![],
            vec![
                let_mut(B, lit(0)),
                Ast::For(
                    I,
                    false,
                    Box::new(lit(5)),
                    Box::new(lit(5)),
                    Box::new(Ast::Block(vec![assign(B, lit(1))])),
                ),
                var(B),
            ],
        ))],
    };
    assert_eq!(call(&prog, FOO, vec![], FUEL), Ok(Value::Int(0)));
}
