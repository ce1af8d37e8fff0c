use sari::{BinaryOp, Error, Expr, Parser, SourceMap, SourcePos, SourceSpan, Span};

fn parse(input: &str) -> Result<Box<Expr>, Error> {
    let mut source_map = SourceMap::new();
    let mut parser = Parser::new(input);
    parser.parse(&mut source_map)
}

// Canonical expr is `1 + 2`.
#[test]
fn parses_expr() {
    assert_eq!(
        parse("1 * 2"),
        Ok(Expr::binary(
            Span::new(0, 5),
            BinaryOp::Mul,
            Expr::int_lit(Span::new(0, 1), 1),
            Expr::int_lit(Span::new(4, 5), 2),
        )),
    );
    assert_eq!(
        parse("1 * 2 + 3 * 4"),
        Ok(Expr::binary(
            Span::new(0, 13),
            BinaryOp::Add,
            Expr::binary(
                Span::new(0, 5),
                BinaryOp::Mul,
                Expr::int_lit(Span::new(0, 1), 1),
                Expr::int_lit(Span::new(4, 5), 2),
            ),
            Expr::binary(
                Span::new(8, 13),
                BinaryOp::Mul,
                Expr::int_lit(Span::new(8, 9), 3),
                Expr::int_lit(Span::new(12, 13), 4),
            ),
        )),
    );
    assert_eq!(
        parse("1 * 2 - 3 * 4"),
        Ok(Expr::binary(
            Span::new(0, 13),
            BinaryOp::Sub,
            Expr::binary(
                Span::new(0, 5),
                BinaryOp::Mul,
                Expr::int_lit(Span::new(0, 1), 1),
                Expr::int_lit(Span::new(4, 5), 2),
            ),
            Expr::binary(
                Span::new(8, 13),
                BinaryOp::Mul,
                Expr::int_lit(Span::new(8, 9), 3),
                Expr::int_lit(Span::new(12, 13), 4),
            ),
        )),
    );
    assert_eq!(
        parse("1 * 2 + 3 * 4 + 5 * 6 + 7 * 8"),
        Ok(Expr::binary(
            Span::new(0, 29),
            BinaryOp::Add,
            Expr::binary(
                Span::new(0, 21),
                BinaryOp::Add,
                Expr::binary(
                    Span::new(0, 13),
                    BinaryOp::Add,
                    Expr::binary(
                        Span::new(0, 5),
                        BinaryOp::Mul,
                        Expr::int_lit(Span::new(0, 1), 1),
                        Expr::int_lit(Span::new(4, 5), 2),
                    ),
                    Expr::binary(
                        Span::new(8, 13),
                        BinaryOp::Mul,
                        Expr::int_lit(Span::new(8, 9), 3),
                        Expr::int_lit(Span::new(12, 13), 4),
                    ),
                ),
                Expr::binary(
                    Span::new(16, 21),
                    BinaryOp::Mul,
                    Expr::int_lit(Span::new(16, 17), 5),
                    Expr::int_lit(Span::new(20, 21), 6),
                ),
            ),
            Expr::binary(
                Span::new(24, 29),
                BinaryOp::Mul,
                Expr::int_lit(Span::new(24, 25), 7),
                Expr::int_lit(Span::new(28, 29), 8),
            ),
        )),
    );

    // errors
    assert_eq!(
        parse(""),
        Err(Error::new(
            SourceSpan::new(SourcePos::new(0, 1, 1), SourcePos::new(0, 1, 1)),
            "expected integer literal or `(`",
        )),
    );
    assert_eq!(
        parse("%"),
        Err(Error::new(
            SourceSpan::new(SourcePos::new(0, 1, 1), SourcePos::new(1, 1, 2)),
            "expected integer literal or `(`",
        )),
    );
    assert_eq!(
        parse("1 + "),
        Err(Error::new(
            SourceSpan::new(SourcePos::new(4, 1, 5), SourcePos::new(4, 1, 5)),
            "expected integer literal or `(`",
        )),
    );
    assert_eq!(
        parse("1 + %"),
        Err(Error::new(
            SourceSpan::new(SourcePos::new(4, 1, 5), SourcePos::new(5, 1, 6)),
            "expected integer literal or `(`",
        )),
    );
}

// Canonical term is `1 * 2`.
#[test]
fn parses_term() {
    assert_eq!(parse("1"), Ok(Expr::int_lit(Span::new(0, 1), 1)));
    assert_eq!(
        parse("1 * 2"),
        Ok(Expr::binary(
            Span::new(0, 5),
            BinaryOp::Mul,
            Expr::int_lit(Span::new(0, 1), 1),
            Expr::int_lit(Span::new(4, 5), 2),
        )),
    );
    assert_eq!(
        parse("1 / 2"),
        Ok(Expr::binary(
            Span::new(0, 5),
            BinaryOp::Div,
            Expr::int_lit(Span::new(0, 1), 1),
            Expr::int_lit(Span::new(4, 5), 2),
        )),
    );
    assert_eq!(
        parse("1 * 2 * 3 * 4"),
        Ok(Expr::binary(
            Span::new(0, 13),
            BinaryOp::Mul,
            Expr::binary(
                Span::new(0, 9),
                BinaryOp::Mul,
                Expr::binary(
                    Span::new(0, 5),
                    BinaryOp::Mul,
                    Expr::int_lit(Span::new(0, 1), 1),
                    Expr::int_lit(Span::new(4, 5), 2),
                ),
                Expr::int_lit(Span::new(8, 9), 3),
            ),
            Expr::int_lit(Span::new(12, 13), 4),
        )),
    );

    // errors
    assert_eq!(
        parse(""),
        Err(Error::new(
            SourceSpan::new(SourcePos::new(0, 1, 1), SourcePos::new(0, 1, 1)),
            "expected integer literal or `(`",
        )),
    );
    assert_eq!(
        parse("%"),
        Err(Error::new(
            SourceSpan::new(SourcePos::new(0, 1, 1), SourcePos::new(1, 1, 2)),
            "expected integer literal or `(`",
        )),
    );
    assert_eq!(
        parse("1 * "),
        Err(Error::new(
            SourceSpan::new(SourcePos::new(4, 1, 5), SourcePos::new(4, 1, 5)),
            "expected integer literal or `(`",
        )),
    );
    assert_eq!(
        parse("1 * %"),
        Err(Error::new(
            SourceSpan::new(SourcePos::new(4, 1, 5), SourcePos::new(5, 1, 6)),
            "expected integer literal or `(`",
        )),
    );
}

// Canonical factor is `1`.
#[test]
fn parses_factor() {
    assert_eq!(parse("1"), Ok(Expr::int_lit(Span::new(0, 1), 1)));
    assert_eq!(
        parse("(1 + 2)"),
        Ok(Expr::group(
            Span::new(0, 7),
            Expr::binary(
                Span::new(1, 6),
                BinaryOp::Add,
                Expr::int_lit(Span::new(1, 2), 1),
                Expr::int_lit(Span::new(5, 6), 2),
            ),
        )),
    );

    // errors
    assert_eq!(
        parse("("),
        Err(Error::new(
            SourceSpan::new(SourcePos::new(1, 1, 2), SourcePos::new(1, 1, 2)),
            "expected integer literal or `(`",
        )),
    );
    assert_eq!(
        parse("(%"),
        Err(Error::new(
            SourceSpan::new(SourcePos::new(1, 1, 2), SourcePos::new(2, 1, 3)),
            "expected integer literal or `(`",
        )),
    );
    assert_eq!(
        parse("(1 + 2"),
        Err(Error::new(
            SourceSpan::new(SourcePos::new(6, 1, 7), SourcePos::new(6, 1, 7)),
            "expected `)`",
        )),
    );
    assert_eq!(
        parse("(1 + 2%"),
        Err(Error::new(
            SourceSpan::new(SourcePos::new(6, 1, 7), SourcePos::new(7, 1, 8)),
            "expected `)`",
        )),
    );
}

#[test]
fn parses_complex_expressions() {
    assert_eq!(
        parse("(1 + 2) * (3 + 4)"),
        Ok(Expr::binary(
            Span::new(0, 17),
            BinaryOp::Mul,
            Expr::group(
                Span::new(0, 7),
                Expr::binary(
                    Span::new(1, 6),
                    BinaryOp::Add,
                    Expr::int_lit(Span::new(1, 2), 1),
                    Expr::int_lit(Span::new(5, 6), 2),
                ),
            ),
            Expr::group(
                Span::new(10, 17),
                Expr::binary(
                    Span::new(11, 16),
                    BinaryOp::Add,
                    Expr::int_lit(Span::new(11, 12), 3),
                    Expr::int_lit(Span::new(15, 16), 4),
                ),
            ),
        )),
    );
}

#[test]
fn does_not_parse_empty_input() {
    assert_eq!(
        parse(""),
        Err(Error::new(
            SourceSpan::new(SourcePos::new(0, 1, 1), SourcePos::new(0, 1, 1)),
            "expected integer literal or `(`",
        )),
    );
}

#[test]
fn does_not_parse_trailing_input() {
    assert_eq!(
        parse("1 + 2%"),
        Err(Error::new(
            SourceSpan::new(SourcePos::new(5, 1, 6), SourcePos::new(6, 1, 7)),
            "expected end of input",
        )),
    );
}
