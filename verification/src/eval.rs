//! The evaluator: folds an expression tree, left to right, into one `i32`.

use vstd::prelude::*;

use crate::ast::{deep_view_seq, lemma_deep_view_seq, Expr, Operator, SpecExpr};

verus! {

/// The ways evaluation of a structurally valid tree can fail.
#[derive(Clone, Copy, Debug, PartialEq, Eq, Structural)]
pub enum EvalError {
    /// An operation node has no operands, so there is no value to start the
    /// fold from.
    EmptyOperandList,
    /// Some divisor operand evaluated to zero.
    DivisionByZero,
    /// An arithmetic step left the `i32` range.
    ArithmeticOverflow,
}

/// Integer division truncating toward zero, defined for `d != 0`.
pub open spec fn spec_div_trunc(x: int, d: int) -> int {
    if x == 0 {
        0
    } else if x > 0 && d > 0 {
        x / d
    } else if x < 0 && d < 0 {
        (x * -1) / (d * -1)
    } else if x < 0 {
        ((x * -1) / d) * -1
    } else {
        (x / (d * -1)) * -1
    }
}

/// One fold step: combines the accumulator with the next operand value.
/// Addition, subtraction and multiplication fail on `i32` overflow; division
/// fails on a zero divisor, truncates toward zero, and fails on overflow in
/// the one case where the quotient leaves the range.
pub open spec fn spec_apply(op: Operator, a: i32, b: i32) -> Result<i32, EvalError> {
    match op {
        Operator::Add => if i32::MIN <= a + b <= i32::MAX {
            Ok((a + b) as i32)
        } else {
            Err(EvalError::ArithmeticOverflow)
        },
        Operator::Subtract => if i32::MIN <= a - b <= i32::MAX {
            Ok((a - b) as i32)
        } else {
            Err(EvalError::ArithmeticOverflow)
        },
        Operator::Multiply => if i32::MIN <= a * b <= i32::MAX {
            Ok((a * b) as i32)
        } else {
            Err(EvalError::ArithmeticOverflow)
        },
        Operator::Divide => if b == 0 {
            Err(EvalError::DivisionByZero)
        } else {
            let q = spec_div_trunc(a as int, b as int);
            if i32::MIN <= q <= i32::MAX {
                Ok(q as i32)
            } else {
                Err(EvalError::ArithmeticOverflow)
            }
        },
    }
}

/// The value of an expression tree: a constant is its own value; an operation
/// evaluates its first operand and then folds the remaining operands into it,
/// left to right, with `spec_apply`. An operation with no operands fails.
pub open spec fn spec_eval(e: SpecExpr) -> Result<i32, EvalError>
    decreases e, 0int,
{
    match e {
        SpecExpr::Constant(v) => Ok(v),
        SpecExpr::Operation(op, operands) => if operands.len() == 0 {
            Err(EvalError::EmptyOperandList)
        } else {
            spec_eval_operands(op, operands)
        },
    }
}

/// Evaluates a non-empty operand list: the first operand gives the initial
/// accumulator, the rest are folded into it.
pub open spec fn spec_eval_operands(op: Operator, s: Seq<SpecExpr>) -> Result<i32, EvalError>
    decreases s, s.len() as int,
{
    if s.len() == 0 {
        Err(EvalError::EmptyOperandList)
    } else {
        match spec_eval(s[0]) {
            Ok(first) => spec_eval_fold(op, first, s, 1),
            Err(e) => Err(e),
        }
    }
}

/// Folds `s[i..]` into the accumulator, left to right. The first operand
/// value error or failing step ends the fold with that error.
pub open spec fn spec_eval_fold(op: Operator, acc: i32, s: Seq<SpecExpr>, i: int) -> Result<
    i32,
    EvalError,
>
    decreases s, s.len() - i,
{
    if i < 0 || i >= s.len() {
        Ok(acc)
    } else {
        match spec_eval(s[i]) {
            Ok(v) => match spec_apply(op, acc, v) {
                Ok(acc2) => spec_eval_fold(op, acc2, s, i + 1),
                Err(e) => Err(e),
            },
            Err(e) => Err(e),
        }
    }
}

/// One fold step, executed with checked arithmetic.
pub fn apply_op(op: Operator, a: i32, b: i32) -> (r: Result<i32, EvalError>)
    ensures
        r == spec_apply(op, a, b),
{
    match op {
        Operator::Add => match a.checked_add(b) {
            Some(v) => Ok(v),
            None => Err(EvalError::ArithmeticOverflow),
        },
        Operator::Subtract => match a.checked_sub(b) {
            Some(v) => Ok(v),
            None => Err(EvalError::ArithmeticOverflow),
        },
        Operator::Multiply => match a.checked_mul(b) {
            Some(v) => Ok(v),
            None => Err(EvalError::ArithmeticOverflow),
        },
        Operator::Divide => if b == 0 {
            Err(EvalError::DivisionByZero)
        } else {
            match a.checked_div(b) {
                Some(v) => Ok(v),
                None => Err(EvalError::ArithmeticOverflow),
            }
        },
    }
}

/// Evaluates a tree to the value its model prescribes.
#[verifier::loop_isolation(false)]
pub fn evaluate(e: &Expr) -> (r: Result<i32, EvalError>)
    ensures
        r == spec_eval(e.deep_view()),
    decreases *e,
{
    match e {
        Expr::Constant(v) => Ok(*v),
        Expr::Operation(op, operands) => {
            let ghost s = deep_view_seq(operands@);
            proof {
                lemma_deep_view_seq(operands@);
            }
            if operands.len() == 0 {
                return Err(EvalError::EmptyOperandList);
            }
            let mut acc: i32;
            proof {
                assert(decreases_to!(*e => operands@[0])) by {
                    assert(decreases_to!(*e => *operands));
                    assert(decreases_to!(*operands => operands@));
                    assert(decreases_to!(operands@ => operands@[0]));
                }
            }
            match evaluate(&operands[0]) {
                Ok(v) => {
                    acc = v;
                },
                Err(er) => {
                    return Err(er);
                },
            }
            let mut j: usize = 1;
            while j < operands.len()
                invariant
                    1 <= j <= operands@.len(),
                    s == deep_view_seq(operands@),
                    s.len() == operands@.len(),
                    forall|i: int| 0 <= i < s.len() ==> s[i] == operands@[i].deep_view(),
                    spec_eval(e.deep_view()) == spec_eval_fold(*op, acc, s, j as int),
                decreases operands@.len() - j,
            {
                proof {
                    assert(decreases_to!(*e => operands@[j as int])) by {
                        assert(decreases_to!(*e => *operands));
                        assert(decreases_to!(*operands => operands@));
                        assert(decreases_to!(operands@ => operands@[j as int]));
                    }
                }
                match evaluate(&operands[j]) {
                    Ok(v) => {
                        match apply_op(*op, acc, v) {
                            Ok(acc2) => {
                                acc = acc2;
                            },
                            Err(er) => {
                                return Err(er);
                            },
                        }
                    },
                    Err(er) => {
                        return Err(er);
                    },
                }
                j = j + 1;
            }
            Ok(acc)
        },
    }
}

/// Law: evaluation is a pure function of the tree. Any two results that meet
/// the contract of `evaluate` on the same tree are the same value.
pub proof fn lemma_evaluate_deterministic(e: Expr, r1: Result<i32, EvalError>, r2: Result<
    i32,
    EvalError,
>)
    requires
        r1 == spec_eval(e.deep_view()),
        r2 == spec_eval(e.deep_view()),
    ensures
        r1 == r2,
{
}

/// Law: folding a single operand is the identity, whatever the operator:
/// the operation evaluates to its one operand's value.
pub proof fn lemma_single_operand_identity(op: Operator, e: SpecExpr)
    ensures
        spec_eval(SpecExpr::Operation(op, seq![e])) == spec_eval(e),
{
    let s = seq![e];
    assert(s[0] == e);
    assert(spec_eval_fold(op, spec_eval(e)->Ok_0, s, 1) == spec_eval(SpecExpr::Operation(op, s))
        || spec_eval(e) is Err);
}

/// Law: an operation with no operands fails with `EmptyOperandList`,
/// whatever the operator.
pub proof fn lemma_empty_operands(op: Operator)
    ensures
        spec_eval(SpecExpr::Operation(op, Seq::empty())) == Err::<i32, EvalError>(
            EvalError::EmptyOperandList,
        ),
{
}

/// Law: a zero divisor fails the fold step with `DivisionByZero`, whatever
/// the accumulator.
pub proof fn lemma_divide_by_zero(a: i32)
    ensures
        spec_apply(Operator::Divide, a, 0) == Err::<i32, EvalError>(EvalError::DivisionByZero),
{
}

} // verus!
