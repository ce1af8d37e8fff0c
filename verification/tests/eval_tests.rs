use sari::{Error, SourcePos, SourceSpan};

#[test]
fn evals_valid_expressions() {
    assert_eq!(sari::eval("(1 + 2) * 3"), Ok(9));
}

#[test]
fn reports_parser_errors() {
    let span = SourceSpan::new(SourcePos::new(6, 1, 7), SourcePos::new(6, 1, 7));
    let error = Error::new(span, "expected `)`");

    assert_eq!(sari::eval("(1 + 2"), Err(error));
}

#[test]
fn reports_evaluator_errors() {
    let span = SourceSpan::new(SourcePos::new(0, 1, 1), SourcePos::new(5, 1, 6));
    let error = Error::new(span, "division by zero");

    assert_eq!(sari::eval("1 / 0"), Err(error));
}

#[test]
fn wraparound_addition_and_subtraction() {
    assert_eq!(sari::eval("2147483647 + 1"), Ok(-2147483648));
    assert_eq!(sari::eval("0 - 2147483647 - 2"), Ok(2147483647));
    assert_eq!(sari::eval("65536 * 65536"), Ok(0));
}

#[test]
fn evaluation_is_deterministic() {
    let inputs = ["(1 + 2) * 3", "1 / 0", "(1 + 2", "1 + %", ""];
    for input in inputs {
        assert_eq!(sari::eval(input), sari::eval(input));
    }
}

#[test]
fn literal_round_trip() {
    assert_eq!(sari::eval("0"), Ok(0));
    assert_eq!(sari::eval("1"), Ok(1));
    assert_eq!(sari::eval("42"), Ok(42));
    assert_eq!(sari::eval("2147483647"), Ok(2147483647));
    let n: i32 = 1234567890;
    assert_eq!(sari::eval(&format!("{}", n)), Ok(n));
}

#[test]
fn minus_is_only_binary() {
    // The grammar has no unary minus: a leading `-` cannot start a factor.
    let span = SourceSpan::new(SourcePos::new(0, 1, 1), SourcePos::new(1, 1, 2));
    let error = Error::new(span, "expected integer literal or `(`");

    assert_eq!(sari::eval("-2147483648 - 1"), Err(error));
}

#[test]
fn error_positions_span_lines() {
    // The `)` is missing at line 2, column 1.
    let span = SourceSpan::new(SourcePos::new(7, 2, 1), SourcePos::new(7, 2, 1));
    let error = Error::new(span, "expected `)`");

    assert_eq!(sari::eval("(1 + 2\n"), Err(error));

    let result = sari::eval("1 +\n2 +\n@");
    let err = result.unwrap_err();
    assert_eq!(err.span().start(), SourcePos::new(8, 3, 1));
    assert_eq!(err.to_string(), "3:1-3:2: expected integer literal or `(`");
}

#[test]
fn precedence_and_grouping() {
    assert_eq!(sari::eval("1 + 2 * 3"), Ok(7));
    assert_eq!(sari::eval("6 / 2 + 1"), Ok(4));
    assert_eq!(sari::eval("1 - 2 - 3"), Ok(-4));
    assert_eq!(sari::eval("8 / 4 / 2"), Ok(1));
    assert_eq!(sari::eval("((((5))))"), Ok(5));
    assert_eq!(sari::eval(" \t 1\r\n+ 1 "), Ok(2));
}

#[test]
fn division_by_zero_span_covers_expression() {
    // The error's span covers both operands, not just the zero.
    let result = sari::eval("(3 + 4) / (2 - 2)");
    let err = result.unwrap_err();
    assert_eq!(err.message(), "division by zero");
    assert_eq!(err.span().start(), SourcePos::new(0, 1, 1));
    assert_eq!(err.span().end(), SourcePos::new(17, 1, 18));
}
