//! The abstract syntax tree: integer, grouping and binary-operator
//! expression nodes, each carrying the span of source text it covers.

use crate::source::Span;
use crate::source::Spanned;
use crate::token::Token;
use crate::token::TokenKind;
use vstd::prelude::*;

verus! {

/// A binary arithmetic operator.
#[derive(Copy, Clone, PartialEq, Eq, Structural, Debug)]
pub enum BinaryOp {
    Add,
    Sub,
    Mul,
    Div,
}

/// Whether a token kind denotes a binary operator.
pub open spec fn is_op_kind(kind: TokenKind) -> bool {
    ||| kind == TokenKind::Plus
    ||| kind == TokenKind::Minus
    ||| kind == TokenKind::Star
    ||| kind == TokenKind::Slash
}

/// The operator denoted by an operator token kind.
pub open spec fn op_of_kind(kind: TokenKind) -> BinaryOp {
    match kind {
        TokenKind::Plus => BinaryOp::Add,
        TokenKind::Minus => BinaryOp::Sub,
        TokenKind::Star => BinaryOp::Mul,
        TokenKind::Slash => BinaryOp::Div,
        _ => arbitrary(),
    }
}

impl BinaryOp {
    /// The operator denoted by an operator token.
    pub fn from_token(token: Token) -> (op: BinaryOp)
        requires
            is_op_kind(token.kind),
        ensures
            op == op_of_kind(token.kind),
    {
        match token.kind {
            TokenKind::Plus => BinaryOp::Add,
            TokenKind::Minus => BinaryOp::Sub,
            TokenKind::Star => BinaryOp::Mul,
            TokenKind::Slash => BinaryOp::Div,
            _ => vstd::pervasive::unreached(),
        }
    }
}

/// An integer literal.
#[derive(PartialEq, Debug)]
pub struct IntExpr {
    pub span: Span,
    pub value: i32,
}

impl Spanned for IntExpr {
    open spec fn spec_span(&self) -> Span {
        self.span
    }

    fn span(&self) -> (s: Span) {
        self.span
    }
}

/// A parenthesized expression; the span covers the parentheses.
#[derive(PartialEq, Debug)]
pub struct GroupExpr {
    pub span: Span,
    pub expr: Box<Expr>,
}

impl Spanned for GroupExpr {
    open spec fn spec_span(&self) -> Span {
        self.span
    }

    fn span(&self) -> (s: Span) {
        self.span
    }
}

/// A binary operation; the span covers both operands and the operator.
#[derive(PartialEq, Debug)]
pub struct BinaryExpr {
    pub span: Span,
    pub op: BinaryOp,
    pub left: Box<Expr>,
    pub right: Box<Expr>,
}

impl Spanned for BinaryExpr {
    open spec fn spec_span(&self) -> Span {
        self.span
    }

    fn span(&self) -> (s: Span) {
        self.span
    }
}

/// An expression node. Each variant owns its children exclusively, so a
/// value of this type is a tree, built bottom-up by the parser.
#[derive(PartialEq, Debug)]
pub enum Expr {
    Int(IntExpr),
    Group(GroupExpr),
    Binary(BinaryExpr),
}

impl Expr {
    /// Builds an integer literal node.
    pub fn int_lit(span: Span, value: i32) -> (e: Box<Expr>)
        ensures
            *e == Expr::Int(IntExpr { span, value }),
    {
        Box::new(Expr::Int(IntExpr { span, value }))
    }

    /// Builds a grouping node.
    pub fn group(span: Span, expr: Box<Expr>) -> (e: Box<Expr>)
        ensures
            *e == Expr::Group(GroupExpr { span, expr }),
    {
        Box::new(Expr::Group(GroupExpr { span, expr }))
    }

    /// Builds a binary-operation node.
    pub fn binary(span: Span, op: BinaryOp, left: Box<Expr>, right: Box<Expr>) -> (e: Box<Expr>)
        ensures
            *e == Expr::Binary(BinaryExpr { span, op, left, right }),
    {
        Box::new(Expr::Binary(BinaryExpr { span, op, left, right }))
    }
}

impl Spanned for Expr {
    open spec fn spec_span(&self) -> Span {
        match self {
            Expr::Int(expr) => expr.span,
            Expr::Group(expr) => expr.span,
            Expr::Binary(expr) => expr.span,
        }
    }

    fn span(&self) -> (s: Span) {
        match self {
            Expr::Int(expr) => expr.span,
            Expr::Group(expr) => expr.span,
            Expr::Binary(expr) => expr.span,
        }
    }
}

/// Structural well-formedness of an expression tree: every node's span is
/// well-formed and contains the spans of its children.
pub open spec fn expr_wf(e: Expr) -> bool
    decreases e,
{
    match e {
        Expr::Int(ie) => ie.span.wf(),
        Expr::Group(ge) => {
            &&& ge.span.wf()
            &&& expr_wf(*ge.expr)
            &&& ge.span.start <= ge.expr.spec_span().start
            &&& ge.expr.spec_span().end <= ge.span.end
        },
        Expr::Binary(be) => {
            &&& be.span.wf()
            &&& expr_wf(*be.left)
            &&& expr_wf(*be.right)
            &&& be.span.start <= be.left.spec_span().start
            &&& be.left.spec_span().end <= be.span.end
            &&& be.span.start <= be.right.spec_span().start
            &&& be.right.spec_span().end <= be.span.end
        },
    }
}

/// A flat, injective encoding of an expression tree: a preorder walk
/// writing, for each node, a tag, its span, and its own data. Two trees
/// with the same encoding are the same tree, so pinning the encoding of a
/// result pins its whole structure.
pub open spec fn enc_expr(e: Expr) -> Seq<int>
    decreases e,
{
    match e {
        Expr::Int(ie) => seq![0int, ie.span.start as int, ie.span.end as int, ie.value as int],
        Expr::Group(ge) => seq![1int, ge.span.start as int, ge.span.end as int] + enc_expr(
            *ge.expr,
        ),
        Expr::Binary(be) => seq![
            2int,
            be.span.start as int,
            be.span.end as int,
            op_tag(be.op),
        ] + enc_expr(*be.left) + enc_expr(*be.right),
    }
}

/// A numeric tag for each operator, used by the tree encoding.
pub open spec fn op_tag(op: BinaryOp) -> int {
    match op {
        BinaryOp::Add => 0,
        BinaryOp::Sub => 1,
        BinaryOp::Mul => 2,
        BinaryOp::Div => 3,
    }
}

} // verus!
