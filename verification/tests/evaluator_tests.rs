use sari::{BinaryOp, Error, Evaluator, Expr, SourceMap, SourcePos, SourceSpan, Span};

fn eval_ast(ast: &Expr) -> Result<i32, Error> {
    let source_map = SourceMap::new();
    let evaluator = Evaluator::new(ast, &source_map);
    evaluator.eval()
}

#[test]
fn evals_int_expr() {
    assert_eq!(eval_ast(&Expr::int_lit(Span::new(0, 1), 1)), Ok(1));
}

#[test]
fn evals_group_expr() {
    assert_eq!(
        eval_ast(&Expr::group(
            Span::new(0, 3),
            Expr::int_lit(Span::new(1, 2), 1)
        )),
        Ok(1),
    );
}

#[test]
fn evals_binary_expr_add() {
    assert_eq!(
        eval_ast(&Expr::binary(
            Span::new(0, 5),
            BinaryOp::Add,
            Expr::int_lit(Span::new(0, 1), 1),
            Expr::int_lit(Span::new(4, 5), 2),
        )),
        Ok(3),
    );

    // overflow
    assert_eq!(
        eval_ast(&Expr::binary(
            Span::new(0, 14),
            BinaryOp::Add,
            Expr::int_lit(Span::new(0, 10), 2147483647),
            Expr::int_lit(Span::new(13, 14), 1),
        )),
        Ok(-2147483648),
    );
    assert_eq!(
        eval_ast(&Expr::binary(
            Span::new(0, 16),
            BinaryOp::Add,
            Expr::int_lit(Span::new(0, 11), -2147483648),
            Expr::int_lit(Span::new(14, 16), -1),
        )),
        Ok(2147483647),
    );
}

#[test]
fn evals_binary_expr_sub() {
    assert_eq!(
        eval_ast(&Expr::binary(
            Span::new(0, 5),
            BinaryOp::Sub,
            Expr::int_lit(Span::new(0, 1), 3),
            Expr::int_lit(Span::new(4, 5), 2),
        )),
        Ok(1),
    );

    // overflow
    assert_eq!(
        eval_ast(&Expr::binary(
            Span::new(0, 15),
            BinaryOp::Sub,
            Expr::int_lit(Span::new(0, 10), 2147483647),
            Expr::int_lit(Span::new(13, 15), -1),
        )),
        Ok(-2147483648),
    );
    assert_eq!(
        eval_ast(&Expr::binary(
            Span::new(0, 15),
            BinaryOp::Sub,
            Expr::int_lit(Span::new(0, 11), -2147483648),
            Expr::int_lit(Span::new(14, 15), 1),
        )),
        Ok(2147483647),
    );
}

#[test]
fn evals_binary_expr_mul() {
    assert_eq!(
        eval_ast(&Expr::binary(
            Span::new(0, 5),
            BinaryOp::Mul,
            Expr::int_lit(Span::new(0, 1), 2),
            Expr::int_lit(Span::new(4, 5), 3),
        )),
        Ok(6),
    );

    // overflow
    assert_eq!(
        eval_ast(&Expr::binary(
            Span::new(0, 16),
            BinaryOp::Mul,
            Expr::int_lit(Span::new(0, 11), -2147483648),
            Expr::int_lit(Span::new(14, 16), -1),
        )),
        Ok(-2147483648),
    );
}

#[test]
fn evals_binary_expr_div() {
    assert_eq!(
        eval_ast(&Expr::binary(
            Span::new(0, 5),
            BinaryOp::Div,
            Expr::int_lit(Span::new(0, 1), 6),
            Expr::int_lit(Span::new(4, 5), 3),
        )),
        Ok(2),
    );

    // overflow
    assert_eq!(
        eval_ast(&Expr::binary(
            Span::new(0, 16),
            BinaryOp::Div,
            Expr::int_lit(Span::new(0, 11), -2147483648),
            Expr::int_lit(Span::new(14, 16), -1),
        )),
        Ok(-2147483648),
    );

    // division by zero
    assert_eq!(
        eval_ast(&Expr::binary(
            Span::new(0, 5),
            BinaryOp::Div,
            Expr::int_lit(Span::new(0, 1), 1),
            Expr::int_lit(Span::new(4, 5), 0),
        )),
        Err(Error::new(
            SourceSpan::new(SourcePos::new(0, 1, 1), SourcePos::new(5, 1, 6)),
            "division by zero",
        )),
    );
}

#[test]
fn evals_complex_expressions() {
    assert_eq!(
        eval_ast(&Expr::binary(
            Span::new(0, 17),
            BinaryOp::Mul,
            Expr::group(
                Span::new(0, 7),
                Expr::binary(
                    Span::new(1, 6),
                    BinaryOp::Add,
                    Expr::int_lit(Span::new(1, 2), 1),
                    Expr::int_lit(Span::new(5, 6), 2),
                ),
            ),
            Expr::group(
                Span::new(10, 17),
                Expr::binary(
                    Span::new(11, 16),
                    BinaryOp::Add,
                    Expr::int_lit(Span::new(11, 12), 3),
                    Expr::int_lit(Span::new(15, 16), 4),
                ),
            ),
        )),
        Ok(21),
    );
}

#[test]
fn division_truncates_toward_zero() {
    assert_eq!(sari::eval("7 / 2"), Ok(3));
    assert_eq!(sari::eval("(0 - 7) / 2"), Ok(-3));
    assert_eq!(sari::eval("7 / (0 - 2)"), Ok(-3));
    assert_eq!(sari::eval("(0 - 7) / (0 - 2)"), Ok(3));
}

#[test]
fn division_overflow_wraps() {
    assert_eq!(
        sari::eval("(0 - 2147483647 - 1) / (0 - 1)"),
        Ok(-2147483648)
    );
}
