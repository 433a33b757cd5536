use treewalk::value::{apply_binop, BinOp, EngineError, Kind, Value};

#[test]
fn arithmetic_on_integers() {
    assert_eq!(apply_binop(BinOp::Add, Value::Int(2), Value::Int(3)), Ok(Value::Int(5)));
    assert_eq!(apply_binop(BinOp::Sub, Value::Int(2), Value::Int(3)), Ok(Value::Int(-1)));
    assert_eq!(apply_binop(BinOp::Mul, Value::Int(-4), Value::Int(3)), Ok(Value::Int(-12)));
    assert_eq!(apply_binop(BinOp::Div, Value::Int(9), Value::Int(2)), Ok(Value::Int(4)));
    assert_eq!(apply_binop(BinOp::Rem, Value::Int(9), Value::Int(2)), Ok(Value::Int(1)));
}

#[test]
fn arithmetic_wraps_like_twos_complement() {
    assert_eq!(
        apply_binop(BinOp::Add, Value::Int(i64::MAX), Value::Int(1)),
        Ok(Value::Int(i64::MIN))
    );
    assert_eq!(
        apply_binop(BinOp::Sub, Value::Int(i64::MIN), Value::Int(1)),
        Ok(Value::Int(i64::MAX))
    );
    assert_eq!(
        apply_binop(BinOp::Div, Value::Int(i64::MIN), Value::Int(-1)),
        Ok(Value::Int(i64::MIN))
    );
    assert_eq!(
        apply_binop(BinOp::Rem, Value::Int(i64::MIN), Value::Int(-1)),
        Ok(Value::Int(0))
    );
}

#[test]
fn division_truncates_toward_zero() {
    assert_eq!(apply_binop(BinOp::Div, Value::Int(-7), Value::Int(2)), Ok(Value::Int(-3)));
    assert_eq!(apply_binop(BinOp::Div, Value::Int(7), Value::Int(-2)), Ok(Value::Int(-3)));
    assert_eq!(apply_binop(BinOp::Rem, Value::Int(-7), Value::Int(2)), Ok(Value::Int(-1)));
    assert_eq!(apply_binop(BinOp::Rem, Value::Int(7), Value::Int(-2)), Ok(Value::Int(1)));
}

#[test]
fn division_by_zero_is_an_error() {
    assert_eq!(
        apply_binop(BinOp::Div, Value::Int(1), Value::Int(0)),
        Err(EngineError::DivisionByZero)
    );
    assert_eq!(
        apply_binop(BinOp::Rem, Value::Int(1), Value::Int(0)),
        Err(EngineError::DivisionByZero)
    );
}

#[test]
fn comparisons_yield_booleans() {
    assert_eq!(apply_binop(BinOp::Lt, Value::Int(1), Value::Int(2)), Ok(Value::Bool(true)));
    assert_eq!(apply_binop(BinOp::Le, Value::Int(2), Value::Int(2)), Ok(Value::Bool(true)));
    assert_eq!(apply_binop(BinOp::Gt, Value::Int(1), Value::Int(2)), Ok(Value::Bool(false)));
    assert_eq!(apply_binop(BinOp::Ge, Value::Int(1), Value::Int(2)), Ok(Value::Bool(false)));
    assert_eq!(apply_binop(BinOp::Eq, Value::Int(3), Value::Int(3)), Ok(Value::Bool(true)));
    assert_eq!(apply_binop(BinOp::Ne, Value::Int(3), Value::Int(3)), Ok(Value::Bool(false)));
}

#[test]
fn operands_must_be_integers() {
    assert_eq!(
        apply_binop(BinOp::Add, Value::Bool(true), Value::Int(1)),
        Err(EngineError::TypeMismatch(Kind::IntKind, Kind::BoolKind))
    );
    assert_eq!(
        apply_binop(BinOp::Eq, Value::Int(1), Value::Unit),
        Err(EngineError::TypeMismatch(Kind::IntKind, Kind::UnitKind))
    );
}
