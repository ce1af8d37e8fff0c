//! A verified arithmetic expression evaluator.
//!
//! Expressions consist of 32-bit integer literals combined with the binary
//! operators `+`, `-`, `*` and `/` under the usual precedence and
//! left-associativity, grouped with parentheses, with whitespace allowed
//! between elements. Arithmetic wraps around in two's complement; division
//! by zero is an error. Every error carries a source span resolved to
//! line/column positions.
//!
//! The pipeline — scanner, recursive-descent parser, tree-walking
//! evaluator, and the source-position index behind the diagnostics — is
//! verified against the specification functions alongside it: [`eval`]
//! returns exactly what [`eval_text`] describes, for every input.

mod ast;
mod error;
mod evaluator;
mod parser;
mod scanner;
mod source;
mod token;

pub use ast::BinaryExpr;
pub use ast::BinaryOp;
pub use ast::Expr;
pub use ast::GroupExpr;
pub use ast::IntExpr;
pub use ast::expr_wf;
pub use error::Error;
pub use error::error_model;
pub use evaluator::Evaluator;
pub use evaluator::eval_model;
pub use parser::Parser;
pub use parser::ParseErrorKind;
pub use parser::SpecParsed;
pub use parser::msg_of;
pub use parser::sp_parse;
pub use scanner::Scanner;
pub use source::SourceMap;
pub use source::dec_text;
pub use source::pos_model;
pub use source::SourcePos;
pub use source::SourceSpan;
pub use source::Span;
pub use source::Spanned;
pub use token::Token;
pub use token::TokenKind;
pub use token::TokenValue;

use vstd::prelude::*;

verus! {

/// What evaluating a whole text yields: either the expression's 32-bit
/// wrapping value, or the raw span and message of the first error —
/// a parse error where the input is malformed, otherwise the first
/// division by zero met while evaluating.
pub open spec fn eval_text(s: Seq<char>) -> Result<i32, (Span, Seq<char>)> {
    match parser::sp_parse(s) {
        parser::SpecParsed::Fail { kind, span } => Err((span, parser::msg_of(kind))),
        parser::SpecParsed::Node { cursor, span, out, enc } => match out {
            Ok(v) => Ok(v),
            Err(sp) => Err((sp, "division by zero"@)),
        },
    }
}

/// How a result of [`eval`] relates to its input text: the value on
/// success, and on failure the message together with the span resolved to
/// line/column positions in that text.
pub open spec fn eval_result_matches(s: Seq<char>, r: Result<i32, Error>) -> bool {
    match r {
        Ok(v) => eval_text(s) == Ok::<i32, (Span, Seq<char>)>(v),
        Err(e) => eval_text(s) matches Err((sp, msg)) && error::error_model(e) == (
            source::pos_model(s, sp.start),
            source::pos_model(s, sp.end),
            msg,
        ),
    }
}

/// Evaluates an expression and returns the result.
///
/// Returns an [`Error`] when the input is malformed or divides by zero;
/// the error's span is already resolved to line/column positions, so the
/// caller needs no access to the position index.
pub fn eval(expr: &str) -> (r: Result<i32, Error>)
    requires
        expr@.len() < usize::MAX,
    ensures
        eval_result_matches(expr@, r),
{
    let ghost s = expr@;
    let mut source_map = SourceMap::new();
    let mut parser = Parser::new(expr);
    proof {
        assert(source::map_model(s, 0) =~= seq![0usize]);
    }
    let ast = match parser.parse(&mut source_map) {
        Ok(e) => e,
        Err(e) => {
            return Err(e);
        },
    };
    proof {
        source::lemma_map_model_wf(s, s.len() as int);
    }
    let evaluator = Evaluator::new(&ast, &source_map);
    match evaluator.eval() {
        Ok(value) => Ok(value),
        Err(e) => {
            proof {
                evaluator::lemma_eval_err_in_span(*ast);
                let sp = eval_model(*ast)->Err_0;
                source::lemma_resolve_model(s, s.len() as int, sp.start);
                source::lemma_resolve_model(s, s.len() as int, sp.end);
            }
            Err(e)
        },
    }
}

/// Evaluation is deterministic: two results that the contract of [`eval`]
/// admits for the same text agree — the same value on success, and on
/// failure the same message and the same resolved positions.
pub proof fn lemma_eval_deterministic(
    s: Seq<char>,
    r1: Result<i32, Error>,
    r2: Result<i32, Error>,
)
    requires
        eval_result_matches(s, r1),
        eval_result_matches(s, r2),
    ensures
        match (r1, r2) {
            (Ok(v1), Ok(v2)) => v1 == v2,
            (Err(e1), Err(e2)) => error::error_model(e1) == error::error_model(e2),
            _ => false,
        },
{
}

/// A decimal rendering consists of digit characters — at least one, and
/// no more than the number itself.
pub proof fn lemma_dec_text_shape(n: nat)
    ensures
        1 <= source::dec_text(n).len() <= n + 1,
        forall|i: int|
            0 <= i < source::dec_text(n).len() ==> scanner::is_digit_char(
                #[trigger] source::dec_text(n)[i],
            ),
    decreases n,
{
    if n < 10 {
        assert(scanner::is_digit_char(source::dec_digit(n)));
    } else {
        lemma_dec_text_shape(n / 10);
        vstd::arithmetic::div_mod::lemma_div_decreases(n as int, 10);
        assert(scanner::is_digit_char(source::dec_digit(n % 10)));
    }
}

/// Scanning the decimal rendering of an in-range number back through the
/// wrapping digit accumulator recovers the number: no wraparound occurs.
pub proof fn lemma_dec_text_val(n: nat)
    requires
        n <= i32::MAX,
    ensures
        scanner::digits_val(
            source::dec_text(n),
            1,
            source::dec_text(n).len() as int,
            scanner::digit_val(source::dec_text(n)[0]),
        ) == n as i32,
    decreases n,
{
    let s = source::dec_text(n);
    lemma_dec_text_shape(n);
    if n < 10 {
        assert(scanner::digit_val(source::dec_digit(n)) == n as i32);
    } else {
        let m = n / 10;
        let d = n % 10;
        vstd::arithmetic::div_mod::lemma_fundamental_div_mod(n as int, 10);
        lemma_dec_text_val(m);
        lemma_dec_text_shape(m);
        let s1 = source::dec_text(m);
        let len1 = s1.len() as int;
        assert(s == s1 + seq![source::dec_digit(d)]);
        assert(forall|k: int| 1 <= k < len1 ==> s1[k] == #[trigger] s[k]);
        scanner::lemma_digits_val_agree(s1, s, 1, len1, scanner::digit_val(s1[0]));
        scanner::lemma_digits_val_snoc(s, 1, len1, scanner::digit_val(s[0]));
        let v = scanner::digits_val(s, 1, len1, scanner::digit_val(s[0]));
        assert(v == m as i32);
        assert(s[len1] == source::dec_digit(d));
        assert(scanner::digit_val(source::dec_digit(d)) == d as i32);
        assert(0 <= v as int * 10 <= i32::MAX) by {
            assert(m as int * 10 + d == n);
        }
        assert((v as int * 10) % 0x1_0000_0000 == v as int * 10) by {
            vstd::arithmetic::div_mod::lemma_small_mod((v as int * 10) as nat, 0x1_0000_0000nat);
        }
        assert(vstd::wrapping::i32_specs::wrapping_mul(v, 10) == (v as int * 10) as i32);
        assert(scanner::wrap_step(v, d as i32) == n as i32);
    }
}

/// Powers of ten.
pub open spec fn pow10(k: nat) -> nat
    decreases k,
{
    if k == 0 {
        1
    } else {
        10 * pow10((k - 1) as nat)
    }
}

/// A number below the `k`-th power of ten has at most `k` decimal digits.
pub proof fn lemma_dec_text_len(n: nat, k: nat)
    requires
        k >= 1,
        n < pow10(k),
    ensures
        source::dec_text(n).len() <= k,
    decreases k,
{
    if n >= 10 {
        assert(pow10(k) == 10 * pow10((k - 1) as nat));
        lemma_dec_text_len(n / 10, (k - 1) as nat);
    }
}

/// An input consisting of just a non-negative integer literal evaluates
/// to that integer: `eval` of the decimal rendering of `n` yields `n`.
/// (The grammar has no unary minus, so a negative integer cannot be
/// written as a single literal.)
pub proof fn lemma_literal_eval(n: i32)
    requires
        0 <= n,
    ensures
        eval_text(source::dec_text(n as nat)) == Ok::<i32, (Span, Seq<char>)>(n),
{
    let s = source::dec_text(n as nat);
    lemma_dec_text_shape(n as nat);
    lemma_dec_text_val(n as nat);
    let len = s.len() as int;
    assert(s.len() <= n + 1 < usize::MAX);
    assert(!scanner::is_ws_char(s[0]));
    assert(scanner::ws_end(s, 0) == 0);
    assert(scanner::token_kind(s, 0) == TokenKind::Int);
    scanner::lemma_digits_end_all(s, 1);
    assert(scanner::token_end(s, 0) == len);
    assert(scanner::token_val(s, 0) == n);
    let t = scanner::token_model(s, 0);
    assert(t.span.end as int == len);
    let f = parser::sp_factor(s, 0);
    assert(f matches parser::SpecParsed::Node { cursor, span, out, enc } && cursor == len && out
        == Ok::<i32, Span>(n));
    assert(scanner::ws_end(s, len) == len);
    assert(scanner::token_kind(s, len) == TokenKind::Eof);
    assert(parser::sp_term(s, 0) == f);
    assert(parser::sp_expr(s, 0) == f);
    assert(parser::sp_parse(s) == f);
}

/// A binary node over two fully evaluated operands applies wraparound
/// semantics: the two's-complement combination of the operands' values,
/// for every operator, with division by zero as the one failure.
pub proof fn lemma_binary_wraparound(be: BinaryExpr, lv: i32, rv: i32)
    requires
        eval_model(*be.left) == Ok::<i32, Span>(lv),
        eval_model(*be.right) == Ok::<i32, Span>(rv),
    ensures
        eval_model(Expr::Binary(be)) == evaluator::apply_op(be.op, be.span, lv, rv),
        be.op == BinaryOp::Add ==> eval_model(Expr::Binary(be)) == Ok::<i32, Span>(
            vstd::wrapping::i32_specs::wrapping_add(lv, rv),
        ),
        be.op == BinaryOp::Sub ==> eval_model(Expr::Binary(be)) == Ok::<i32, Span>(
            vstd::wrapping::i32_specs::wrapping_sub(lv, rv),
        ),
        be.op == BinaryOp::Mul ==> eval_model(Expr::Binary(be)) == Ok::<i32, Span>(
            vstd::wrapping::i32_specs::wrapping_mul(lv, rv),
        ),
        be.op == BinaryOp::Div && rv != 0 ==> eval_model(Expr::Binary(be)) == Ok::<i32, Span>(
            evaluator::div_wrap(lv, rv),
        ),
        be.op == BinaryOp::Div && rv == 0 ==> eval_model(Expr::Binary(be)) == Err::<i32, Span>(
            be.span,
        ),
{
}

/// The character that denotes each operator.
pub open spec fn op_char(op: BinaryOp) -> char {
    match op {
        BinaryOp::Add => '+',
        BinaryOp::Sub => '-',
        BinaryOp::Mul => '*',
        BinaryOp::Div => '/',
    }
}

/// The token layout of `<m> <op> <n>`: an integer literal, the operator,
/// a second integer literal, and the end of input.
proof fn lemma_two_literal_tokens(m: i32, n: i32, op: BinaryOp)
    requires
        0 <= m,
        0 <= n,
    ensures
        ({
            let a = source::dec_text(m as nat);
            let b = source::dec_text(n as nat);
            let s = a + seq![' ', op_char(op), ' '] + b;
            let la = a.len() as int;
            let len = s.len() as int;
            &&& 1 <= la
            &&& la + 3 + b.len() == len <= 23
            &&& scanner::token_model(s, 0) == (Token {
                span: Span { start: 0, end: la as usize },
                kind: TokenKind::Int,
                value: TokenValue::Int(m),
            })
            &&& scanner::token_model(s, la) == (Token {
                span: Span { start: (la + 1) as usize, end: (la + 2) as usize },
                kind: scanner::kind_of_char(op_char(op)),
                value: TokenValue::Absent,
            })
            &&& scanner::token_model(s, la + 2) == (Token {
                span: Span { start: (la + 3) as usize, end: len as usize },
                kind: TokenKind::Int,
                value: TokenValue::Int(n),
            })
            &&& scanner::token_model(s, len) == (Token {
                span: Span { start: len as usize, end: len as usize },
                kind: TokenKind::Eof,
                value: TokenValue::Absent,
            })
        }),
{
    let a = source::dec_text(m as nat);
    let b = source::dec_text(n as nat);
    let s = a + seq![' ', op_char(op), ' '] + b;
    lemma_dec_text_shape(m as nat);
    lemma_dec_text_shape(n as nat);
    lemma_dec_text_val(m as nat);
    lemma_dec_text_val(n as nat);
    reveal_with_fuel(pow10, 11);
    lemma_dec_text_len(m as nat, 10);
    lemma_dec_text_len(n as nat, 10);
    let la = a.len() as int;
    let lb = b.len() as int;
    let len = s.len() as int;
    assert(len == la + 3 + lb);
    assert(forall|k: int| 0 <= k < la ==> s[k] == a[k]);
    assert(s[la] == ' ' && s[la + 1] == op_char(op) && s[la + 2] == ' ');
    assert(forall|k: int| 0 <= k < lb ==> s[la + 3 + k] == #[trigger] b[k]);

    // The operator character is not a digit and not whitespace.
    assert(!scanner::is_digit_char(op_char(op)) && !scanner::is_ws_char(op_char(op)));

    // First token: the literal `m` over `[0, la)`.
    scanner::lemma_ws_end_until(s, 0, 0);
    scanner::lemma_digits_end_until(s, 1, la);
    assert(scanner::token_end(s, 0) == la);
    scanner::lemma_digits_val_agree(a, s, 1, la, scanner::digit_val(a[0]));
    assert(scanner::token_val(s, 0) == m);

    // Second token: the operator over `[la + 1, la + 2)`.
    scanner::lemma_ws_end_until(s, la, la + 1);
    assert(scanner::token_end(s, la) == la + 2);

    // Third token: the literal `n` over `[la + 3, len)`.
    scanner::lemma_ws_end_until(s, la + 2, la + 3);
    scanner::lemma_digits_end_until(s, la + 4, len);
    assert(s[la + 3] == b[0]);
    assert(scanner::token_end(s, la + 2) == len);
    scanner::lemma_digits_val_shift(s, b, la + 3, 1, lb, scanner::digit_val(b[0]));
    assert(scanner::token_val(s, la + 2) == n);

    // After the third token: the end of input.
    scanner::lemma_ws_end_until(s, len, len);
    assert(scanner::token_kind(s, len) == TokenKind::Eof);
}

/// Combining two literal sub-expressions with an operator evaluates to
/// the direct two's-complement combination of their values: for any
/// non-negative `m` and `n` and any operator, the text
/// `<m> <op> <n>` evaluates to `m op n` with wraparound — or, for
/// division by zero, to an error spanning the whole expression.
#[verifier::rlimit(60)]
pub proof fn lemma_binary_literal_eval(m: i32, n: i32, op: BinaryOp)
    requires
        0 <= m,
        0 <= n,
    ensures
        ({
            let s = source::dec_text(m as nat) + seq![' ', op_char(op), ' '] + source::dec_text(
                n as nat,
            );
            let whole = Span { start: 0, end: s.len() as usize };
            eval_text(s) == (match evaluator::apply_op(op, whole, m, n) {
                Ok(v) => Ok::<i32, (Span, Seq<char>)>(v),
                Err(sp) => Err::<i32, (Span, Seq<char>)>((sp, "division by zero"@)),
            })
        }),
{
    let a = source::dec_text(m as nat);
    let b = source::dec_text(n as nat);
    let s = a + seq![' ', op_char(op), ' '] + b;
    let la = a.len() as int;
    let len = s.len() as int;
    lemma_two_literal_tokens(m, n, op);

    // The parse: literal, operator, literal, end of input.
    let lspan = Span { start: 0, end: la as usize };
    let rspan = Span { start: (la + 3) as usize, end: len as usize };
    let whole = Span { start: 0, end: len as usize };
    assert(parser::sp_factor(s, 0) matches parser::SpecParsed::Node {
        cursor,
        span,
        out,
        enc,
    } && cursor == la && span == lspan && out == Ok::<i32, Span>(m));
    assert(parser::sp_factor(s, la + 2) matches parser::SpecParsed::Node {
        cursor,
        span,
        out,
        enc,
    } && cursor == len && span == rspan && out == Ok::<i32, Span>(n));
    let rf = parser::sp_factor(s, la + 2);
    assert(parser::sp_term(s, la + 2) == rf);
    let out = evaluator::apply_op(op, whole, m, n);
    match op {
        BinaryOp::Add | BinaryOp::Sub => {
            assert(parser::sp_term(s, 0) matches parser::SpecParsed::Node {
                cursor,
                span,
                out: lout,
                enc,
            } && cursor == la && span == lspan && lout == Ok::<i32, Span>(m));
            assert(parser::sp_expr(s, 0) matches parser::SpecParsed::Node {
                cursor,
                span,
                out: eout,
                enc,
            } && cursor == len && span == whole && eout == out);
        },
        BinaryOp::Mul | BinaryOp::Div => {
            assert(parser::sp_term(s, 0) matches parser::SpecParsed::Node {
                cursor,
                span,
                out: tout,
                enc,
            } && cursor == len && span == whole && tout == out);
            assert(parser::sp_expr(s, 0) matches parser::SpecParsed::Node {
                cursor,
                span,
                out: eout,
                enc,
            } && cursor == len && span == whole && eout == out);
        },
    }
    assert(parser::sp_parse(s) matches parser::SpecParsed::Node { cursor, span, out: pout, enc }
        && pout == out);
}

} // verus!
