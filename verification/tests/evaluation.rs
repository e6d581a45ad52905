use prefix_calc::ast::{Expr, Operator};
use prefix_calc::eval::{evaluate, EvalError};

fn constants(values: &[i32]) -> Vec<Expr> {
    values.iter().map(|v| Expr::Constant(*v)).collect()
}

#[test]
fn evaluates_a_constant_to_itself() {
    assert_eq!(evaluate(&Expr::Constant(7)), Ok(7));
    assert_eq!(evaluate(&Expr::Constant(-3)), Ok(-3));
}

#[test]
fn folds_addition() {
    let e = Expr::Operation(Operator::Add, constants(&[2, 3, 4]));
    assert_eq!(evaluate(&e), Ok(9));
}

#[test]
fn folds_subtraction() {
    let e = Expr::Operation(Operator::Subtract, constants(&[10, 3, 2]));
    assert_eq!(evaluate(&e), Ok(5));
}

#[test]
fn folds_multiplication() {
    let e = Expr::Operation(Operator::Multiply, constants(&[2, 3, 4]));
    assert_eq!(evaluate(&e), Ok(24));
}

#[test]
fn folds_division() {
    let e = Expr::Operation(Operator::Divide, constants(&[20, 4, 5]));
    assert_eq!(evaluate(&e), Ok(1));
}

#[test]
fn a_single_operand_is_the_identity() {
    let e = Expr::Operation(Operator::Subtract, constants(&[5]));
    assert_eq!(evaluate(&e), Ok(5));
}

#[test]
fn division_by_zero_fails() {
    let e = Expr::Operation(Operator::Divide, constants(&[10, 0]));
    assert_eq!(evaluate(&e), Err(EvalError::DivisionByZero));
}

#[test]
fn an_empty_operand_list_fails() {
    let e = Expr::Operation(Operator::Add, vec![]);
    assert_eq!(evaluate(&e), Err(EvalError::EmptyOperandList));
}

#[test]
fn evaluates_a_nested_expression() {
    let e = Expr::Operation(
        Operator::Add,
        vec![
            Expr::Constant(1),
            Expr::Operation(Operator::Multiply, constants(&[2, 3])),
        ],
    );
    assert_eq!(evaluate(&e), Ok(7));
}

#[test]
fn addition_overflow_fails() {
    let e = Expr::Operation(Operator::Add, constants(&[2147483647, 1]));
    assert_eq!(evaluate(&e), Err(EvalError::ArithmeticOverflow));
}

#[test]
fn subtraction_overflow_fails() {
    let e = Expr::Operation(Operator::Subtract, constants(&[-2147483648, 1]));
    assert_eq!(evaluate(&e), Err(EvalError::ArithmeticOverflow));
}

#[test]
fn multiplication_overflow_fails() {
    let e = Expr::Operation(Operator::Multiply, constants(&[65536, 65536]));
    assert_eq!(evaluate(&e), Err(EvalError::ArithmeticOverflow));
}

#[test]
fn division_overflow_fails() {
    let e = Expr::Operation(Operator::Divide, constants(&[-2147483648, -1]));
    assert_eq!(evaluate(&e), Err(EvalError::ArithmeticOverflow));
}

#[test]
fn division_truncates_toward_zero() {
    let cases: [(i32, i32, i32); 4] = [(-7, 2, -3), (7, -2, -3), (-7, -2, 3), (7, 2, 3)];
    for (a, b, q) in cases {
        let e = Expr::Operation(Operator::Divide, constants(&[a, b]));
        assert_eq!(evaluate(&e), Ok(q));
    }
}

#[test]
fn an_inner_failure_stops_the_fold() {
    let e = Expr::Operation(
        Operator::Add,
        vec![
            Expr::Operation(Operator::Divide, constants(&[1, 0])),
            Expr::Constant(5),
        ],
    );
    assert_eq!(evaluate(&e), Err(EvalError::DivisionByZero));
}

#[test]
fn evaluation_is_deterministic() {
    let e = Expr::Operation(
        Operator::Subtract,
        vec![
            Expr::Constant(100),
            Expr::Operation(Operator::Divide, constants(&[20, 4, 5])),
        ],
    );
    assert_eq!(evaluate(&e), evaluate(&e));
    assert_eq!(evaluate(&e), Ok(99));
}
