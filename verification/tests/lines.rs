use prefix_calc::driver::{process_line, LineOutcome};
use prefix_calc::eval::EvalError;
use prefix_calc::parser::ParseError;

#[test]
fn a_blank_line_asks_for_nothing() {
    assert_eq!(process_line(b"\n"), LineOutcome::Blank);
}

#[test]
fn a_whole_expression_line_evaluates() {
    assert_eq!(process_line(b"(+ 1 2)\n"), LineOutcome::Value(3));
}

#[test]
fn a_constant_line_evaluates_to_itself() {
    assert_eq!(process_line(b"41\n"), LineOutcome::Value(41));
}

#[test]
fn trailing_garbage_is_reported() {
    assert_eq!(process_line(b"(+ 1 2) extra\n"), LineOutcome::TrailingContent);
}

#[test]
fn a_missing_terminator_counts_as_trailing_content() {
    assert_eq!(process_line(b"(+ 1 2)"), LineOutcome::TrailingContent);
}

#[test]
fn a_parse_failure_is_reported_with_its_position() {
    assert_eq!(
        process_line(b"(% 1 2)\n"),
        LineOutcome::Parse(ParseError::UnknownOperator { at: 1 })
    );
    assert_eq!(
        process_line(b"(+ 1 2\n"),
        LineOutcome::Parse(ParseError::Syntax { at: 6 })
    );
}

#[test]
fn an_evaluation_failure_is_reported() {
    assert_eq!(
        process_line(b"(/ 1 0)\n"),
        LineOutcome::Eval(EvalError::DivisionByZero)
    );
    assert_eq!(
        process_line(b"(*)\n"),
        LineOutcome::Eval(EvalError::EmptyOperandList)
    );
}

#[test]
fn subtraction_expresses_negative_values() {
    assert_eq!(process_line(b"(/ (- 0 7) 2)\n"), LineOutcome::Value(-3));
}

#[test]
fn an_empty_read_is_a_syntax_failure_at_the_start() {
    assert_eq!(
        process_line(b""),
        LineOutcome::Parse(ParseError::Syntax { at: 0 })
    );
}

#[test]
fn deep_nesting_evaluates() {
    assert_eq!(process_line(b"(- (+ 1 2) (* 2 (+ 1 1)) (/ 9 (- 5 2)))\n"), LineOutcome::Value(-4));
}
