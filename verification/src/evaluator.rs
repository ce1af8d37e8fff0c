//! The evaluator: walks an expression tree computing a 32-bit wrapping
//! result, reporting division by zero with the span of the offending
//! binary expression.

use crate::ast::BinaryExpr;
use crate::ast::BinaryOp;
use crate::ast::Expr;
use crate::ast::GroupExpr;
use crate::ast::IntExpr;
use crate::ast::expr_wf;
use crate::error::Error;
use crate::error::error_model;
use crate::source::SourceMap;
use crate::source::SourceSpan;
use crate::source::Span;
use crate::source::Spanned;
use crate::source::resolve_model;
use crate::source::starts_wf;
use vstd::prelude::*;
use vstd::wrapping::i32_specs;

verus! {

/// Truncating integer division, rounding toward zero, as machine division
/// does.
pub open spec fn trunc_div(x: int, d: int) -> int {
    if x == 0 {
        0
    } else if x > 0 && d > 0 {
        x / d
    } else if x < 0 && d < 0 {
        (x * -1) / (d * -1)
    } else if x < 0 {
        ((x * -1) / d) * -1
    } else {
        (x / (d * -1)) * -1
    }
}

/// 32-bit division with wraparound: the one overflowing case,
/// `i32::MIN / -1`, wraps back to `i32::MIN`.
pub open spec fn div_wrap(l: i32, r: i32) -> i32
    recommends
        r != 0,
{
    if l == i32::MIN && r == -1 {
        i32::MIN
    } else {
        trunc_div(l as int, r as int) as i32
    }
}

/// The result of applying `op` at a node with span `span` to fully
/// evaluated operands: wrapping arithmetic for `+`, `-` and `*`; division
/// reports the node's own span when the divisor is zero.
pub open spec fn apply_op(op: BinaryOp, span: Span, l: i32, r: i32) -> Result<i32, Span> {
    match op {
        BinaryOp::Add => Ok(i32_specs::wrapping_add(l, r)),
        BinaryOp::Sub => Ok(i32_specs::wrapping_sub(l, r)),
        BinaryOp::Mul => Ok(i32_specs::wrapping_mul(l, r)),
        BinaryOp::Div => if r == 0 {
            Err(span)
        } else {
            Ok(div_wrap(l, r))
        },
    }
}

/// Sequences the outcomes of a binary node's operands, left before right,
/// and applies the operator: the first error wins.
pub open spec fn combine_out(
    op: BinaryOp,
    span: Span,
    l: Result<i32, Span>,
    r: Result<i32, Span>,
) -> Result<i32, Span> {
    match l {
        Err(sp) => Err(sp),
        Ok(lv) => match r {
            Err(sp) => Err(sp),
            Ok(rv) => apply_op(op, span, lv, rv),
        },
    }
}

/// What evaluating an expression tree yields: either its 32-bit wrapping
/// value, or the span of the first (leftmost-innermost) division by zero.
pub open spec fn eval_model(e: Expr) -> Result<i32, Span>
    decreases e,
{
    match e {
        Expr::Int(ie) => Ok(ie.value),
        Expr::Group(ge) => eval_model(*ge.expr),
        Expr::Binary(be) => combine_out(be.op, be.span, eval_model(*be.left), eval_model(*be.right)),
    }
}

/// An evaluation error's span lies within the span of the tree it came
/// from.
pub proof fn lemma_eval_err_in_span(e: Expr)
    requires
        expr_wf(e),
        eval_model(e) is Err,
    ensures
        e.spec_span().start <= eval_model(e)->Err_0.start,
        eval_model(e)->Err_0.end <= e.spec_span().end,
        eval_model(e)->Err_0.wf(),
    decreases e,
{
    match e {
        Expr::Int(ie) => {},
        Expr::Group(ge) => {
            lemma_eval_err_in_span(*ge.expr);
        },
        Expr::Binary(be) => {
            if eval_model(*be.left) is Err {
                lemma_eval_err_in_span(*be.left);
            } else if eval_model(*be.right) is Err {
                lemma_eval_err_in_span(*be.right);
            }
        },
    }
}

/// 32-bit truncating division of `l` by `r`, wrapping on overflow.
fn div_wrapping(l: i32, r: i32) -> (v: i32)
    requires
        r != 0,
    ensures
        v == div_wrap(l, r),
{
    if l == i32::MIN && r == -1 {
        i32::MIN
    } else {
        proof {
            lemma_trunc_div_in_range(l, r);
        }
        match l.checked_div(r) {
            Some(v) => v,
            None => vstd::pervasive::unreached(),
        }
    }
}

/// Except for `i32::MIN / -1`, truncating division of 32-bit values stays
/// within 32 bits.
proof fn lemma_trunc_div_in_range(l: i32, r: i32)
    requires
        r != 0,
        !(l == i32::MIN && r == -1),
    ensures
        i32::MIN <= trunc_div(l as int, r as int) <= i32::MAX,
{
    let x = l as int;
    let d = r as int;
    if x == 0 {
    } else if x > 0 && d > 0 {
        vstd::arithmetic::div_mod::lemma_div_pos_is_pos(x, d);
        vstd::arithmetic::div_mod::lemma_div_nonincreasing(x, d);
    } else if x < 0 && d < 0 {
        vstd::arithmetic::div_mod::lemma_div_pos_is_pos(-x, -d);
        if -d == 1 {
            assert(x > i32::MIN);
            assert((x * -1) / (d * -1) == -x);
        } else {
            vstd::arithmetic::div_mod::lemma_div_is_ordered_by_denominator(-x, 1, -d);
            assert((-x) / 1 == -x);
            vstd::arithmetic::div_mod::lemma_div_nonincreasing(-x, -d);
            assert((x * -1) / (d * -1) <= -x);
            vstd::arithmetic::div_mod::lemma_div_decreases(-x, -d);
        }
    } else if x < 0 {
        vstd::arithmetic::div_mod::lemma_div_pos_is_pos(-x, d);
        vstd::arithmetic::div_mod::lemma_div_nonincreasing(-x, d);
    } else {
        vstd::arithmetic::div_mod::lemma_div_pos_is_pos(x, -d);
        vstd::arithmetic::div_mod::lemma_div_nonincreasing(x, -d);
    }
}

/// Walks an expression tree, resolving the span of a division-by-zero
/// error through the source map at the moment the error is built.
pub struct Evaluator<'a> {
    ast: &'a Expr,
    source_map: &'a SourceMap,
}

impl<'a> Evaluator<'a> {
    /// The tree under evaluation.
    pub closed spec fn spec_ast(&self) -> Expr {
        *self.ast
    }

    /// The map used to resolve error spans.
    pub closed spec fn spec_map(&self) -> Seq<usize> {
        self.source_map.starts()
    }

    pub fn new(ast: &'a Expr, source_map: &'a SourceMap) -> (ev: Evaluator<'a>)
        ensures
            ev.spec_ast() == *ast,
            ev.spec_map() == source_map.starts(),
    {
        Evaluator { ast, source_map }
    }

    /// Evaluates the tree: its wrapping 32-bit value, or a located
    /// division-by-zero error.
    pub fn eval(&self) -> (r: Result<i32, Error>)
        requires
            starts_wf(self.spec_map()),
            expr_wf(self.spec_ast()),
            self.spec_ast().spec_span().end < usize::MAX,
        ensures
            match r {
                Ok(v) => eval_model(self.spec_ast()) == Ok::<i32, Span>(v),
                Err(e) => {
                    &&& eval_model(self.spec_ast()) matches Err(sp) && error_model(e)
                        == (resolve_model(self.spec_map(), sp.start), resolve_model(
                        self.spec_map(),
                        sp.end,
                    ), "division by zero"@)
                },
            },
    {
        self.eval_expr(self.ast)
    }

    fn eval_expr(&self, expr: &Expr) -> (r: Result<i32, Error>)
        requires
            starts_wf(self.spec_map()),
            expr_wf(*expr),
            expr.spec_span().end < usize::MAX,
        ensures
            match r {
                Ok(v) => eval_model(*expr) == Ok::<i32, Span>(v),
                Err(e) => {
                    &&& eval_model(*expr) matches Err(sp) && error_model(e) == (resolve_model(
                        self.spec_map(),
                        sp.start,
                    ), resolve_model(self.spec_map(), sp.end), "division by zero"@)
                },
            },
        decreases *expr, 1int,
    {
        match expr {
            Expr::Int(e) => self.eval_int_expr(e),
            Expr::Group(e) => self.eval_group_expr(e),
            Expr::Binary(e) => self.eval_binary_expr(e),
        }
    }

    fn eval_int_expr(&self, expr: &IntExpr) -> (r: Result<i32, Error>)
        ensures
            r == Ok::<i32, Error>(expr.value),
    {
        Ok(expr.value)
    }

    fn eval_group_expr(&self, expr: &GroupExpr) -> (r: Result<i32, Error>)
        requires
            starts_wf(self.spec_map()),
            expr_wf(Expr::Group(*expr)),
            expr.span.end < usize::MAX,
        ensures
            match r {
                Ok(v) => eval_model(Expr::Group(*expr)) == Ok::<i32, Span>(v),
                Err(e) => {
                    &&& eval_model(Expr::Group(*expr)) matches Err(sp) && error_model(e) == (
                    resolve_model(self.spec_map(), sp.start),
                    resolve_model(self.spec_map(), sp.end),
                    "division by zero"@,
                    )
                },
            },
        decreases Expr::Group(*expr), 0int,
    {
        self.eval_expr(&expr.expr)
    }

    fn eval_binary_expr(&self, expr: &BinaryExpr) -> (r: Result<i32, Error>)
        requires
            starts_wf(self.spec_map()),
            expr_wf(Expr::Binary(*expr)),
            expr.span.end < usize::MAX,
        ensures
            match r {
                Ok(v) => eval_model(Expr::Binary(*expr)) == Ok::<i32, Span>(v),
                Err(e) => {
                    &&& eval_model(Expr::Binary(*expr)) matches Err(sp) && error_model(e) == (
                    resolve_model(self.spec_map(), sp.start),
                    resolve_model(self.spec_map(), sp.end),
                    "division by zero"@,
                    )
                },
            },
        decreases Expr::Binary(*expr), 0int,
    {
        let left = self.eval_expr(&expr.left)?;
        let right = self.eval_expr(&expr.right)?;

        match expr.op {
            BinaryOp::Add => Ok(left.wrapping_add(right)),
            BinaryOp::Sub => Ok(left.wrapping_sub(right)),
            BinaryOp::Mul => Ok(left.wrapping_mul(right)),
            BinaryOp::Div => {
                if right == 0 {
                    return Err(self.error(expr.span, "division by zero"));
                }
                Ok(div_wrapping(left, right))
            },
        }
    }

    /// Builds a division-by-zero error, resolving the offending span
    /// through the source map at the moment of failure.
    fn error(&self, span: Span, message: &str) -> (e: Error)
        requires
            starts_wf(self.spec_map()),
            span.wf(),
            span.end < usize::MAX,
        ensures
            error_model(e) == (
                resolve_model(self.spec_map(), span.start),
                resolve_model(self.spec_map(), span.end),
                message@,
            ),
    {
        Error::new(self.map_span(span), message)
    }

    fn map_span(&self, span: Span) -> (s: SourceSpan)
        requires
            starts_wf(self.spec_map()),
            span.wf(),
            span.end < usize::MAX,
        ensures
            s.start == resolve_model(self.spec_map(), span.start),
            s.end == resolve_model(self.spec_map(), span.end),
    {
        self.source_map.map_span(span)
    }
}

} // verus!
