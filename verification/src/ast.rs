//! The expression tree that the parser builds and the evaluator consumes,
//! together with its mathematical model.

use vstd::prelude::*;

verus! {

/// The closed set of operators the grammar admits, each written as a single
/// character: `+`, `-`, `*`, `/`.
#[derive(Clone, Copy, Debug, PartialEq, Eq, Structural)]
pub enum Operator {
    Add,
    Subtract,
    Multiply,
    Divide,
}

impl Operator {
    /// The operator denoted by a byte, if any.
    pub open spec fn spec_from_byte(b: u8) -> Option<Operator> {
        if b == 43 {
            Some(Operator::Add)
        } else if b == 45 {
            Some(Operator::Subtract)
        } else if b == 42 {
            Some(Operator::Multiply)
        } else if b == 47 {
            Some(Operator::Divide)
        } else {
            None
        }
    }

    /// Reads an operator from its single-character token; any other byte is
    /// a construction failure.
    pub fn try_from_byte(b: u8) -> (r: Option<Operator>)
        ensures
            r == Operator::spec_from_byte(b),
    {
        if b == 43 {
            Some(Operator::Add)
        } else if b == 45 {
            Some(Operator::Subtract)
        } else if b == 42 {
            Some(Operator::Multiply)
        } else if b == 47 {
            Some(Operator::Divide)
        } else {
            None
        }
    }
}

/// An expression: a non-negative literal constant, or an operator applied to
/// an ordered list of operand expressions. An empty operand list is a valid
/// tree (the grammar permits it) but an evaluation-time failure.
#[derive(Debug, PartialEq, Eq)]
pub enum Expr {
    Constant(i32),
    Operation(Operator, Vec<Expr>),
}

/// The mathematical model of an expression tree, with operand lists as `Seq`.
/// Contracts throughout the crate speak of this model.
pub enum SpecExpr {
    Constant(i32),
    Operation(Operator, Seq<SpecExpr>),
}

impl Expr {
    /// The model of this tree: the same shape, with each operand `Vec`
    /// abstracted to a `Seq`.
    pub open spec fn deep_view(self) -> SpecExpr
        decreases self,
    {
        match self {
            Expr::Constant(v) => SpecExpr::Constant(v),
            Expr::Operation(op, operands) => SpecExpr::Operation(op, deep_view_seq(operands@)),
        }
    }
}

/// The elementwise model of a list of expressions.
pub open spec fn deep_view_seq(s: Seq<Expr>) -> Seq<SpecExpr>
    decreases s,
{
    if s.len() == 0 {
        Seq::empty()
    } else {
        deep_view_seq(s.drop_last()).push(s.last().deep_view())
    }
}

/// `deep_view_seq` maps a list pointwise: it keeps the length and models each
/// element by `deep_view`.
pub proof fn lemma_deep_view_seq(s: Seq<Expr>)
    ensures
        deep_view_seq(s).len() == s.len(),
        forall|i: int| 0 <= i < s.len() ==> deep_view_seq(s)[i] == s[i].deep_view(),
    decreases s.len(),
{
    if s.len() > 0 {
        lemma_deep_view_seq(s.drop_last());
    }
}

} // verus!
