//! The per-line driver logic: what one line of input amounts to.
//!
//! A line arrives with its terminating newline still in place. A line that
//! is nothing but the terminator is blank and asks for no output. Otherwise
//! the line is parsed; a structurally successful parse must leave exactly
//! the terminator unconsumed, or the line has trailing content; and only
//! then is the tree evaluated.

use vstd::prelude::*;

use crate::eval::{evaluate, spec_eval, EvalError};
use crate::parser::{parse, spec_parse_expr, ParseError, ParseStep};

verus! {

/// What one line of input amounts to.
#[derive(Clone, Copy, Debug, PartialEq, Eq, Structural)]
pub enum LineOutcome {
    /// The line holds nothing but the terminator; there is nothing to do.
    Blank,
    /// The line is one whole expression, and this is its value.
    Value(i32),
    /// A parse succeeded on a prefix, but more than the terminator remains.
    TrailingContent,
    /// The line does not parse.
    Parse(ParseError),
    /// The line parses but does not evaluate.
    Eval(EvalError),
}

/// Processes one line, terminator included: classifies it as blank, a value,
/// trailing content, or one of the failures, exactly as the grammar and the
/// evaluator prescribe.
pub fn process_line(line: &[u8]) -> (r: LineOutcome)
    ensures
        ({
            let s = line@;
            if s.len() == 1 && s[0] == 10 {
                r == LineOutcome::Blank
            } else {
                match spec_parse_expr(s, 0) {
                    ParseStep::Parsed { next, expr } => if next == s.len() - 1 && s[next] == 10 {
                        match spec_eval(expr) {
                            Ok(v) => r == LineOutcome::Value(v),
                            Err(e) => r == LineOutcome::Eval(e),
                        }
                    } else {
                        r == LineOutcome::TrailingContent
                    },
                    ParseStep::Syntax { at } => r matches LineOutcome::Parse(pe) && pe matches
                        ParseError::Syntax { at: a } && a as int == at,
                    ParseStep::UnknownOperator { at } => r matches LineOutcome::Parse(pe)
                        && pe matches ParseError::UnknownOperator { at: a } && a as int == at,
                }
            }
        }),
{
    if line.len() == 1 && line[0] == 10 {
        return LineOutcome::Blank;
    }
    match parse(line) {
        Err(e) => LineOutcome::Parse(e),
        Ok((next, expr)) => {
            if next < line.len() && next + 1 == line.len() && line[next] == 10 {
                match evaluate(&expr) {
                    Ok(v) => LineOutcome::Value(v),
                    Err(e) => LineOutcome::Eval(e),
                }
            } else {
                LineOutcome::TrailingContent
            }
        },
    }
}

} // verus!
