//! The parser: reads a prefix-notation expression from the front of a line
//! of bytes.
//!
//! Grammar (space-delimited, ASCII):
//!
//! ```text
//! constant     := one-or-more digits            (a base-10 value)
//! operator     := '+' | '-' | '*' | '/'
//! operand_list := zero-or-more expressions, separated by a single space
//! list         := '(' operator zero-or-more-spaces operand_list ')'
//! expression   := constant | list
//! ```
//!
//! The choice between `constant` and `list` is ordered: a leading digit
//! commits to `constant`, anything else is attempted as `list`. Inside an
//! operand list, an element that fails to parse ends the list without
//! consuming the separator in front of it; the closing parenthesis must then
//! follow, or the whole list fails. A digit run denoting a value beyond the
//! `i32` range is a syntax failure at the start of the run. Every failure
//! reports the position of the first unconsumed byte.

use vstd::prelude::*;

use crate::ast::{deep_view_seq, lemma_deep_view_seq, Expr, Operator, SpecExpr};

verus! {

/// How a parse attempt ends: a tree together with the position just past it,
/// or one of the two failure classes, each carrying the position of the
/// input it could not consume.
#[derive(Clone, Copy, Debug, PartialEq, Eq, Structural)]
pub enum ParseError {
    /// The input does not conform to the grammar at this position.
    Syntax { at: usize },
    /// The byte following an opening parenthesis is not one of the four
    /// operators.
    UnknownOperator { at: usize },
}

/// The outcome of a parse attempt, in the mathematical model: positions as
/// `int`, trees as `SpecExpr`.
pub enum ParseStep {
    Parsed { next: int, expr: SpecExpr },
    Syntax { at: int },
    UnknownOperator { at: int },
}

/// ASCII decimal digit.
pub open spec fn is_digit_byte(b: u8) -> bool {
    48 <= b <= 57
}

/// The number of bytes left at `pos`, clamped at zero; the termination
/// measure of the recursive grammar functions.
pub open spec fn rem_len(s: Seq<u8>, pos: int) -> int {
    if pos <= s.len() {
        s.len() - pos
    } else {
        0
    }
}

/// The length of the run of digits starting at `pos`.
pub open spec fn digit_run_len(s: Seq<u8>, pos: int) -> nat
    decreases rem_len(s, pos),
{
    if 0 <= pos < s.len() && is_digit_byte(s[pos]) {
        1 + digit_run_len(s, pos + 1)
    } else {
        0
    }
}

/// The base-10 value of the digits `s[lo..hi]`.
pub open spec fn digits_value(s: Seq<u8>, lo: int, hi: int) -> int
    decreases hi - lo,
{
    if lo >= hi {
        0
    } else {
        digits_value(s, lo, hi - 1) * 10 + (s[hi - 1] - 48)
    }
}

/// The length of the run of spaces starting at `pos`.
pub open spec fn space_run_len(s: Seq<u8>, pos: int) -> nat
    decreases rem_len(s, pos),
{
    if 0 <= pos < s.len() && s[pos] == 32 {
        1 + space_run_len(s, pos + 1)
    } else {
        0
    }
}

/// An expression beginning with a digit is a constant: the whole digit run,
/// read as a base-10 value. A run denoting a value beyond `i32::MAX` fails
/// at the start of the run; so does a position that holds no digit.
pub open spec fn spec_parse_constant(s: Seq<u8>, pos: int) -> ParseStep {
    if pos < s.len() && is_digit_byte(s[pos]) {
        let n = digit_run_len(s, pos);
        let v = digits_value(s, pos, pos + n);
        if v <= i32::MAX {
            ParseStep::Parsed { next: pos + n, expr: SpecExpr::Constant(v as i32) }
        } else {
            ParseStep::Syntax { at: pos }
        }
    } else {
        ParseStep::Syntax { at: pos }
    }
}

/// A parenthesized list: `(`, one operator byte, a run of spaces, the
/// operand list, `)`.
pub open spec fn spec_parse_list(s: Seq<u8>, pos: int) -> ParseStep
    decreases rem_len(s, pos), 0int,
{
    if !(pos < s.len() && s[pos] == 40) {
        ParseStep::Syntax { at: pos }
    } else if !(pos + 1 < s.len()) {
        ParseStep::Syntax { at: pos + 1 }
    } else {
        match Operator::spec_from_byte(s[pos + 1]) {
            Option::None => ParseStep::UnknownOperator { at: pos + 1 },
            Option::Some(op) => {
                let body = pos + 2 + space_run_len(s, pos + 2);
                let r = spec_parse_operands(s, body);
                if r.0 < s.len() && s[r.0] == 41 {
                    ParseStep::Parsed { next: r.0 + 1, expr: SpecExpr::Operation(op, r.1) }
                } else {
                    ParseStep::Syntax { at: r.0 }
                }
            },
        }
    }
}

/// Ordered choice: a leading digit commits to a constant, anything else is
/// attempted as a list.
pub open spec fn spec_parse_expr(s: Seq<u8>, pos: int) -> ParseStep
    decreases rem_len(s, pos), 1int,
{
    if pos < s.len() && is_digit_byte(s[pos]) {
        spec_parse_constant(s, pos)
    } else {
        spec_parse_list(s, pos)
    }
}

/// The operand list starting at `pos`: its end position and its elements.
/// If no expression starts here the list is empty and nothing is consumed;
/// otherwise the first element is followed by the separated rest.
pub open spec fn spec_parse_operands(s: Seq<u8>, pos: int) -> (int, Seq<SpecExpr>)
    decreases rem_len(s, pos), 2int,
{
    match spec_parse_expr(s, pos) {
        ParseStep::Parsed { next, expr } => {
            if pos < next <= s.len() {
                let r = spec_parse_operands_more(s, next);
                (r.0, seq![expr] + r.1)
            } else {
                (pos, Seq::empty())
            }
        },
        _ => (pos, Seq::empty()),
    }
}

/// The separated rest of an operand list, after an element that ended at
/// `pos`: each further element needs exactly one space and then an
/// expression. A separator whose element fails is not consumed.
pub open spec fn spec_parse_operands_more(s: Seq<u8>, pos: int) -> (int, Seq<SpecExpr>)
    decreases rem_len(s, pos), 3int,
{
    if pos < s.len() && s[pos] == 32 {
        match spec_parse_expr(s, pos + 1) {
            ParseStep::Parsed { next, expr } => {
                if pos + 1 < next <= s.len() {
                    let r = spec_parse_operands_more(s, next);
                    (r.0, seq![expr] + r.1)
                } else {
                    (pos, Seq::empty())
                }
            },
            _ => (pos, Seq::empty()),
        }
    } else {
        (pos, Seq::empty())
    }
}

/// What an executable parse result must be, given the outcome the model
/// prescribes: the same position on success, a tree with exactly that model,
/// and the same failure at the same position otherwise. A successful parse
/// always consumes at least one byte and stays inside the input.
pub open spec fn step_matches(
    s: Seq<u8>,
    pos: int,
    step: ParseStep,
    r: Result<(usize, Expr), ParseError>,
) -> bool {
    match step {
        ParseStep::Parsed { next, expr } => r matches Ok(p) && p.0 as int == next && pos < p.0
            as int && p.0 as int <= s.len() && p.1.deep_view() == expr,
        ParseStep::Syntax { at } => r matches Err(e) && e matches ParseError::Syntax { at: a }
            && a as int == at,
        ParseStep::UnknownOperator { at } => r matches Err(e) && e matches
            ParseError::UnknownOperator { at: a } && a as int == at,
    }
}

/// `r` is the result the model prescribes for an expression at `pos`.
pub open spec fn parse_result_matches(
    s: Seq<u8>,
    pos: int,
    r: Result<(usize, Expr), ParseError>,
) -> bool {
    step_matches(s, pos, spec_parse_expr(s, pos), r)
}

/// ASCII decimal digit.
fn is_digit(b: u8) -> (r: bool)
    ensures
        r == is_digit_byte(b),
{
    48 <= b && b <= 57
}

/// Reads the single operator byte at `pos`.
pub fn parse_operator(input: &[u8], pos: usize) -> (r: Result<(usize, Operator), ParseError>)
    requires
        pos <= input@.len(),
    ensures
        pos < input@.len() && Operator::spec_from_byte(input@[pos as int]) is Some ==> (r matches
            Ok(p) && p.0 == pos + 1 && Operator::spec_from_byte(input@[pos as int]) == Some(p.1)),
        pos < input@.len() && Operator::spec_from_byte(input@[pos as int]) is None ==> r == Err::<
            (usize, Operator),
            ParseError,
        >(ParseError::UnknownOperator { at: pos }),
        pos == input@.len() ==> r == Err::<(usize, Operator), ParseError>(
            ParseError::Syntax { at: pos },
        ),
{
    if pos < input.len() {
        match Operator::try_from_byte(input[pos]) {
            Some(op) => Ok((pos + 1, op)),
            None => Err(ParseError::UnknownOperator { at: pos }),
        }
    } else {
        Err(ParseError::Syntax { at: pos })
    }
}

/// The value of a digit run is never negative.
proof fn lemma_digits_value_nonneg(s: Seq<u8>, lo: int, hi: int)
    requires
        forall|i: int| lo <= i < hi ==> is_digit_byte(s[i]),
    ensures
        0 <= digits_value(s, lo, hi),
    decreases hi - lo,
{
    if lo < hi {
        lemma_digits_value_nonneg(s, lo, hi - 1);
    }
}

/// Appending digits never shrinks the value.
proof fn lemma_digits_value_monotone(s: Seq<u8>, lo: int, e1: int, e2: int)
    requires
        lo <= e1 <= e2,
        forall|i: int| lo <= i < e2 ==> is_digit_byte(s[i]),
    ensures
        digits_value(s, lo, e1) <= digits_value(s, lo, e2),
    decreases e2 - e1,
{
    if e1 < e2 {
        lemma_digits_value_monotone(s, lo, e1, e2 - 1);
        lemma_digits_value_nonneg(s, lo, e2 - 1);
    }
}

/// Reads a constant: the digit run at `pos`, as a base-10 `i32`.
#[verifier::loop_isolation(false)]
pub fn parse_constant(input: &[u8], pos: usize) -> (r: Result<(usize, Expr), ParseError>)
    requires
        pos <= input@.len(),
    ensures
        step_matches(input@, pos as int, spec_parse_constant(input@, pos as int), r),
{
    let ghost s = input@;
    if !(pos < input.len() && is_digit(input[pos])) {
        return Err(ParseError::Syntax { at: pos });
    }
    let mut end: usize = pos;
    while end < input.len() && is_digit(input[end])
        invariant
            pos <= end <= s.len(),
            forall|i: int| pos <= i < end ==> is_digit_byte(s[i]),
            pos + digit_run_len(s, pos as int) == end + digit_run_len(s, end as int),
        decreases s.len() - end,
    {
        end = end + 1;
    }
    proof {
        assert(digit_run_len(s, end as int) == 0);
    }
    let mut k: usize = pos;
    let mut acc: i32 = 0;
    while k < end
        invariant
            pos <= k <= end,
            0 <= acc,
            acc as int == digits_value(s, pos as int, k as int),
        decreases end - k,
    {
        let d: u8 = input[k] - 48;
        let step = match acc.checked_mul(10) {
            Some(m) => m.checked_add(d as i32),
            None => None,
        };
        match step {
            Some(v) => {
                acc = v;
            },
            None => {
                proof {
                    assert(digits_value(s, pos as int, k as int + 1) > i32::MAX);
                    lemma_digits_value_monotone(s, pos as int, k as int + 1, end as int);
                }
                return Err(ParseError::Syntax { at: pos });
            },
        }
        k = k + 1;
    }
    Ok((end, Expr::Constant(acc)))
}

/// Reads a parenthesized list at `pos`.
#[verifier::loop_isolation(false)]
pub fn parse_list(input: &[u8], pos: usize) -> (r: Result<(usize, Expr), ParseError>)
    requires
        pos <= input@.len(),
    ensures
        step_matches(input@, pos as int, spec_parse_list(input@, pos as int), r),
    decreases input@.len() - pos, 0int,
{
    let ghost s = input@;
    if !(pos < input.len() && input[pos] == 40) {
        return Err(ParseError::Syntax { at: pos });
    }
    match parse_operator(input, pos + 1) {
        Err(e) => Err(e),
        Ok((opos, op)) => {
            let mut body: usize = opos;
            while body < input.len() && input[body] == 32
                invariant
                    opos <= body <= s.len(),
                    opos + space_run_len(s, opos as int) == body + space_run_len(s, body as int),
                decreases s.len() - body,
            {
                body = body + 1;
            }
            proof {
                assert(space_run_len(s, body as int) == 0);
            }
            let (end, items) = parse_operands(input, body);
            if end < input.len() && input[end] == 41 {
                Ok((end + 1, Expr::Operation(op, items)))
            } else {
                Err(ParseError::Syntax { at: end })
            }
        },
    }
}

/// Reads an expression at `pos`: a constant if a digit leads, else a list.
pub fn parse_expr(input: &[u8], pos: usize) -> (r: Result<(usize, Expr), ParseError>)
    requires
        pos <= input@.len(),
    ensures
        parse_result_matches(input@, pos as int, r),
    decreases input@.len() - pos, 1int,
{
    if pos < input.len() && is_digit(input[pos]) {
        parse_constant(input, pos)
    } else {
        parse_list(input, pos)
    }
}

/// Reads the operand list starting at `pos`.
fn parse_operands(input: &[u8], pos: usize) -> (r: (usize, Vec<Expr>))
    requires
        pos <= input@.len(),
    ensures
        r.0 as int == spec_parse_operands(input@, pos as int).0,
        deep_view_seq(r.1@) == spec_parse_operands(input@, pos as int).1,
        pos <= r.0 <= input@.len(),
    decreases input@.len() - pos, 2int,
{
    match parse_expr(input, pos) {
        Err(_) => (pos, Vec::new()),
        Ok((n, e)) => {
            let mut items: Vec<Expr> = Vec::new();
            items.push(e);
            let (end, mut rest) = parse_operands_more(input, n);
            let ghost rest_view = rest@;
            items.append(&mut rest);
            proof {
                lemma_deep_view_seq(items@);
                lemma_deep_view_seq(rest_view);
                assert(deep_view_seq(items@) =~= seq![e.deep_view()] + deep_view_seq(rest_view));
            }
            (end, items)
        },
    }
}

/// Reads the separated rest of an operand list, after an element that ended
/// at `pos`.
fn parse_operands_more(input: &[u8], pos: usize) -> (r: (usize, Vec<Expr>))
    requires
        pos <= input@.len(),
    ensures
        r.0 as int == spec_parse_operands_more(input@, pos as int).0,
        deep_view_seq(r.1@) == spec_parse_operands_more(input@, pos as int).1,
        pos <= r.0 <= input@.len(),
    decreases input@.len() - pos, 3int,
{
    if pos < input.len() && input[pos] == 32 {
        match parse_expr(input, pos + 1) {
            Err(_) => (pos, Vec::new()),
            Ok((n, e)) => {
                let mut items: Vec<Expr> = Vec::new();
                items.push(e);
                let (end, mut rest) = parse_operands_more(input, n);
                let ghost rest_view = rest@;
                items.append(&mut rest);
                proof {
                    lemma_deep_view_seq(items@);
                    lemma_deep_view_seq(rest_view);
                    assert(deep_view_seq(items@) =~= seq![e.deep_view()] + deep_view_seq(
                        rest_view,
                    ));
                }
                (end, items)
            },
        }
    } else {
        (pos, Vec::new())
    }
}

/// Parses an expression from the front of `input`. On success the returned
/// position is the first byte past the expression; the caller decides what
/// the remainder means.
pub fn parse(input: &[u8]) -> (r: Result<(usize, Expr), ParseError>)
    ensures
        parse_result_matches(input@, 0, r),
{
    parse_expr(input, 0)
}

/// A run of digits all the way to `end`, with no digit at `end`, is the
/// digit run: it has exactly `end - pos` digits.
proof fn lemma_digit_run_exact(s: Seq<u8>, pos: int, end: int)
    requires
        0 <= pos <= end <= s.len(),
        forall|i: int| pos <= i < end ==> is_digit_byte(s[i]),
        end == s.len() || !is_digit_byte(s[end]),
    ensures
        digit_run_len(s, pos) == end - pos,
    decreases end - pos,
{
    if pos < end {
        lemma_digit_run_exact(s, pos + 1, end);
    }
}

/// Law: a line that is one run of digits denoting a value in `i32` range
/// parses to exactly that constant and consumes the whole input.
pub proof fn lemma_parse_digits(s: Seq<u8>)
    requires
        s.len() > 0,
        forall|i: int| 0 <= i < s.len() ==> is_digit_byte(s[i]),
        digits_value(s, 0, s.len() as int) <= i32::MAX,
    ensures
        spec_parse_expr(s, 0) == (ParseStep::Parsed {
            next: s.len() as int,
            expr: SpecExpr::Constant(digits_value(s, 0, s.len() as int) as i32),
        }),
{
    lemma_digit_run_exact(s, 0, s.len() as int);
    lemma_digits_value_nonneg(s, 0, s.len() as int);
}

/// The value of a digit run depends only on the bytes in its window.
proof fn lemma_digits_value_congruent(s1: Seq<u8>, s2: Seq<u8>, lo: int, hi: int)
    requires
        forall|i: int| lo <= i < hi ==> s1[i] == s2[i],
    ensures
        digits_value(s1, lo, hi) == digits_value(s2, lo, hi),
    decreases hi - lo,
{
    if lo < hi {
        lemma_digits_value_congruent(s1, s2, lo, hi - 1);
    }
}

/// Law: a line that is one run of digits denoting a value in `i32` range,
/// followed by the line terminator, parses to exactly that constant with
/// only the terminator left.
pub proof fn lemma_parse_digits_line(s: Seq<u8>)
    requires
        s.len() > 0,
        forall|i: int| 0 <= i < s.len() ==> is_digit_byte(s[i]),
        digits_value(s, 0, s.len() as int) <= i32::MAX,
    ensures
        spec_parse_expr(s.push(10), 0) == (ParseStep::Parsed {
            next: s.len() as int,
            expr: SpecExpr::Constant(digits_value(s, 0, s.len() as int) as i32),
        }),
{
    let t = s.push(10);
    assert(forall|i: int| 0 <= i < s.len() ==> t[i] == s[i]);
    assert(!is_digit_byte(t[s.len() as int]));
    lemma_digit_run_exact(t, 0, s.len() as int);
    lemma_digits_value_congruent(t, s, 0, s.len() as int);
    lemma_digits_value_nonneg(s, 0, s.len() as int);
}

} // verus!
