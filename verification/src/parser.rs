//! The parser: recursive descent with one token of lookahead over the
//! grammar
//!
//! ```text
//! Expr   := Term (("+"|"-") Term)*
//! Term   := Factor (("*"|"/") Factor)*
//! Factor := Int | "(" Expr ")"
//! ```
//!
//! The specification-level parser below mirrors this grammar over cursor
//! positions in the input text; the executable parser is proved to return
//! exactly the tree, or exactly the error, that it describes.

use crate::ast::BinaryOp;
use crate::ast::Expr;
use crate::ast::enc_expr;
use crate::ast::expr_wf;
use crate::ast::op_of_kind;
use crate::ast::op_tag;
use crate::error::Error;
use crate::error::error_model;
use crate::evaluator::combine_out;
use crate::evaluator::eval_model;
use crate::scanner::Scanner;
use crate::scanner::lemma_token_bounds;
use crate::scanner::token_end;
use crate::scanner::token_model;
use crate::scanner::tok_start;
use crate::source::SourceMap;
use crate::source::Span;
use crate::source::Spanned;
use crate::source::lemma_resolve_model;
use crate::source::map_model;
use crate::source::pos_model;
use crate::source::resolve_model;
use crate::token::Token;
use crate::token::TokenKind;
use crate::token::kind_text;
use vstd::prelude::*;
use vstd::string::StringExecFns;

verus! {

/// The ways a parse can fail.
#[derive(Copy, Clone, PartialEq, Eq, Structural, Debug)]
pub enum ParseErrorKind {
    /// A token that cannot start a factor was found.
    UnexpectedToken,
    /// A `)` was required and something else (possibly end of input) was
    /// found.
    MissingCloseParen,
    /// A full expression was parsed but input remains.
    TrailingInput,
}

/// The diagnostic message for each kind of parse failure.
pub open spec fn msg_of(kind: ParseErrorKind) -> Seq<char> {
    match kind {
        ParseErrorKind::UnexpectedToken => "expected "@ + kind_text(TokenKind::Int) + " or "@
            + kind_text(TokenKind::LParen),
        ParseErrorKind::MissingCloseParen => "expected "@ + kind_text(TokenKind::RParen),
        ParseErrorKind::TrailingInput => "expected "@ + kind_text(TokenKind::Eof),
    }
}

/// What parsing one production from a cursor position yields.
///
/// On success: the cursor just past the node's last token, the node's
/// span, the node's evaluation outcome, and the encoding (`enc_expr`) of
/// the node itself. On failure: which error, and the span of the
/// offending token.
pub enum SpecParsed {
    Node { cursor: int, span: Span, out: Result<i32, Span>, enc: Seq<int> },
    Fail { kind: ParseErrorKind, span: Span },
}

/// Parses `Factor := Int | "(" Expr ")"` at cursor `p`.
///
/// The arithmetic guards around the recursive calls always hold when the
/// cursor is in range (`lemma_sp_factor_bounds`); they make termination
/// of the mutual recursion evident.
pub open spec fn sp_factor(s: Seq<char>, p: int) -> SpecParsed
    decreases s.len() - p, 1int,
{
    let t = token_model(s, p);
    if t.kind == TokenKind::Int {
        SpecParsed::Node {
            cursor: t.span.end as int,
            span: t.span,
            out: Ok(crate::scanner::token_val(s, p)),
            enc: seq![
                0int,
                t.span.start as int,
                t.span.end as int,
                crate::scanner::token_val(s, p) as int,
            ],
        }
    } else if t.kind == TokenKind::LParen {
        let q = t.span.end as int;
        if p < q <= s.len() {
            match sp_expr(s, q) {
                SpecParsed::Node { cursor, span, out, enc } => {
                    let t2 = token_model(s, cursor);
                    if t2.kind == TokenKind::RParen {
                        let gspan = Span { start: t.span.start, end: t2.span.end };
                        SpecParsed::Node {
                            cursor: t2.span.end as int,
                            span: gspan,
                            out,
                            enc: seq![1int, gspan.start as int, gspan.end as int] + enc,
                        }
                    } else {
                        SpecParsed::Fail { kind: ParseErrorKind::MissingCloseParen, span: t2.span }
                    }
                },
                f => f,
            }
        } else {
            SpecParsed::Fail { kind: ParseErrorKind::UnexpectedToken, span: t.span }
        }
    } else {
        SpecParsed::Fail { kind: ParseErrorKind::UnexpectedToken, span: t.span }
    }
}

/// Parses `Term := Factor (("*"|"/") Factor)*` at cursor `p`.
pub open spec fn sp_term(s: Seq<char>, p: int) -> SpecParsed
    decreases s.len() - p, 2int,
{
    match sp_factor(s, p) {
        SpecParsed::Node { cursor, span, out, enc } => {
            if p < cursor <= s.len() {
                sp_term_more(s, cursor, span, out, enc)
            } else {
                SpecParsed::Node { cursor, span, out, enc }
            }
        },
        f => f,
    }
}

/// Parses the left-folded `(("*"|"/") Factor)*` continuation of a term
/// whose parsed left part ends at cursor `p`.
pub open spec fn sp_term_more(
    s: Seq<char>,
    p: int,
    span: Span,
    out: Result<i32, Span>,
    enc: Seq<int>,
) -> SpecParsed
    decreases s.len() - p, 0int,
{
    let t = token_model(s, p);
    if t.kind == TokenKind::Star || t.kind == TokenKind::Slash {
        let q = t.span.end as int;
        if p < q <= s.len() {
            match sp_factor(s, q) {
                SpecParsed::Node { cursor, span: rspan, out: rout, enc: renc } => {
                    let nspan = Span { start: span.start, end: rspan.end };
                    let op = op_of_kind(t.kind);
                    let nout = combine_out(op, nspan, out, rout);
                    let nenc = seq![2int, nspan.start as int, nspan.end as int, op_tag(op)] + enc
                        + renc;
                    if q <= cursor <= s.len() {
                        sp_term_more(s, cursor, nspan, nout, nenc)
                    } else {
                        SpecParsed::Node { cursor, span: nspan, out: nout, enc: nenc }
                    }
                },
                f => f,
            }
        } else {
            SpecParsed::Node { cursor: p, span, out, enc }
        }
    } else {
        SpecParsed::Node { cursor: p, span, out, enc }
    }
}

/// Parses `Expr := Term (("+"|"-") Term)*` at cursor `p`.
pub open spec fn sp_expr(s: Seq<char>, p: int) -> SpecParsed
    decreases s.len() - p, 3int,
{
    match sp_term(s, p) {
        SpecParsed::Node { cursor, span, out, enc } => {
            if p < cursor <= s.len() {
                sp_expr_more(s, cursor, span, out, enc)
            } else {
                SpecParsed::Node { cursor, span, out, enc }
            }
        },
        f => f,
    }
}

/// Parses the left-folded `(("+"|"-") Term)*` continuation of an
/// expression whose parsed left part ends at cursor `p`.
pub open spec fn sp_expr_more(
    s: Seq<char>,
    p: int,
    span: Span,
    out: Result<i32, Span>,
    enc: Seq<int>,
) -> SpecParsed
    decreases s.len() - p, 0int,
{
    let t = token_model(s, p);
    if t.kind == TokenKind::Plus || t.kind == TokenKind::Minus {
        let q = t.span.end as int;
        if p < q <= s.len() {
            match sp_term(s, q) {
                SpecParsed::Node { cursor, span: rspan, out: rout, enc: renc } => {
                    let nspan = Span { start: span.start, end: rspan.end };
                    let op = op_of_kind(t.kind);
                    let nout = combine_out(op, nspan, out, rout);
                    let nenc = seq![2int, nspan.start as int, nspan.end as int, op_tag(op)] + enc
                        + renc;
                    if q <= cursor <= s.len() {
                        sp_expr_more(s, cursor, nspan, nout, nenc)
                    } else {
                        SpecParsed::Node { cursor, span: nspan, out: nout, enc: nenc }
                    }
                },
                f => f,
            }
        } else {
            SpecParsed::Node { cursor: p, span, out, enc }
        }
    } else {
        SpecParsed::Node { cursor: p, span, out, enc }
    }
}

/// Parses a whole input: an expression followed by the end of input.
pub open spec fn sp_parse(s: Seq<char>) -> SpecParsed {
    match sp_expr(s, 0) {
        SpecParsed::Node { cursor, span, out, enc } => {
            let t = token_model(s, cursor);
            if t.kind == TokenKind::Eof {
                SpecParsed::Node { cursor, span, out, enc }
            } else {
                SpecParsed::Fail { kind: ParseErrorKind::TrailingInput, span: t.span }
            }
        },
        f => f,
    }
}

/// Positional facts about a parsed factor: it consumes at least one
/// token, its span starts at its first token and ends at its final
/// cursor, and a failure's span is a well-formed token span within the
/// input.
pub proof fn lemma_sp_factor_bounds(s: Seq<char>, p: int)
    requires
        0 <= p <= s.len(),
        s.len() <= usize::MAX,
    ensures
        sp_factor(s, p) matches SpecParsed::Node { cursor, span, .. } ==> {
            &&& p < cursor <= s.len()
            &&& span.start as int == tok_start(s, p)
            &&& span.end as int == cursor
        },
        sp_factor(s, p) matches SpecParsed::Fail { span, .. } ==> span.start <= span.end
            <= s.len(),
    decreases s.len() - p, 1int,
{
    lemma_token_bounds(s, p);
    let t = token_model(s, p);
    if t.kind == TokenKind::LParen {
        let q = t.span.end as int;
        lemma_sp_expr_bounds(s, q);
        match sp_expr(s, q) {
            SpecParsed::Node { cursor, span, .. } => {
                lemma_token_bounds(s, cursor);
            },
            SpecParsed::Fail { .. } => {},
        }
    }
}

/// Positional facts about a parsed term, as for factors.
pub proof fn lemma_sp_term_bounds(s: Seq<char>, p: int)
    requires
        0 <= p <= s.len(),
        s.len() <= usize::MAX,
    ensures
        sp_term(s, p) matches SpecParsed::Node { cursor, span, .. } ==> {
            &&& p < cursor <= s.len()
            &&& span.start as int == tok_start(s, p)
            &&& span.end as int == cursor
        },
        sp_term(s, p) matches SpecParsed::Fail { span, .. } ==> span.start <= span.end <= s.len(),
    decreases s.len() - p, 2int,
{
    lemma_sp_factor_bounds(s, p);
    match sp_factor(s, p) {
        SpecParsed::Node { cursor, span, out, enc } => {
            lemma_sp_term_more_bounds(s, cursor, span, out, enc);
        },
        SpecParsed::Fail { .. } => {},
    }
}

/// Positional facts about a term continuation: the result keeps the left
/// part's start, ends at the final cursor, and never moves backwards.
pub proof fn lemma_sp_term_more_bounds(
    s: Seq<char>,
    p: int,
    span: Span,
    out: Result<i32, Span>,
    enc: Seq<int>,
)
    requires
        0 <= p <= s.len(),
        s.len() <= usize::MAX,
        span.end as int == p,
    ensures
        sp_term_more(s, p, span, out, enc) matches SpecParsed::Node {
            cursor,
            span: nspan,
            ..
        } ==> {
            &&& p <= cursor <= s.len()
            &&& nspan.start == span.start
            &&& nspan.end as int == cursor
        },
        sp_term_more(s, p, span, out, enc) matches SpecParsed::Fail { span: fspan, .. }
            ==> fspan.start <= fspan.end <= s.len(),
    decreases s.len() - p, 0int,
{
    lemma_token_bounds(s, p);
    let t = token_model(s, p);
    if t.kind == TokenKind::Star || t.kind == TokenKind::Slash {
        let q = t.span.end as int;
        lemma_sp_factor_bounds(s, q);
        match sp_factor(s, q) {
            SpecParsed::Node { cursor, span: rspan, out: rout, enc: renc } => {
                let nspan = Span { start: span.start, end: rspan.end };
                let op = op_of_kind(t.kind);
                let nout = combine_out(op, nspan, out, rout);
                let nenc = seq![2int, nspan.start as int, nspan.end as int, op_tag(op)] + enc
                    + renc;
                lemma_sp_term_more_bounds(s, cursor, nspan, nout, nenc);
            },
            SpecParsed::Fail { .. } => {},
        }
    }
}

/// Positional facts about a parsed expression, as for factors.
pub proof fn lemma_sp_expr_bounds(s: Seq<char>, p: int)
    requires
        0 <= p <= s.len(),
        s.len() <= usize::MAX,
    ensures
        sp_expr(s, p) matches SpecParsed::Node { cursor, span, .. } ==> {
            &&& p < cursor <= s.len()
            &&& span.start as int == tok_start(s, p)
            &&& span.end as int == cursor
        },
        sp_expr(s, p) matches SpecParsed::Fail { span, .. } ==> span.start <= span.end <= s.len(),
    decreases s.len() - p, 3int,
{
    lemma_sp_term_bounds(s, p);
    match sp_term(s, p) {
        SpecParsed::Node { cursor, span, out, enc } => {
            lemma_sp_expr_more_bounds(s, cursor, span, out, enc);
        },
        SpecParsed::Fail { .. } => {},
    }
}

/// Positional facts about an expression continuation, as for term
/// continuations.
pub proof fn lemma_sp_expr_more_bounds(
    s: Seq<char>,
    p: int,
    span: Span,
    out: Result<i32, Span>,
    enc: Seq<int>,
)
    requires
        0 <= p <= s.len(),
        s.len() <= usize::MAX,
        span.end as int == p,
    ensures
        sp_expr_more(s, p, span, out, enc) matches SpecParsed::Node {
            cursor,
            span: nspan,
            ..
        } ==> {
            &&& p <= cursor <= s.len()
            &&& nspan.start == span.start
            &&& nspan.end as int == cursor
        },
        sp_expr_more(s, p, span, out, enc) matches SpecParsed::Fail { span: fspan, .. }
            ==> fspan.start <= fspan.end <= s.len(),
    decreases s.len() - p, 0int,
{
    lemma_token_bounds(s, p);
    let t = token_model(s, p);
    if t.kind == TokenKind::Plus || t.kind == TokenKind::Minus {
        let q = t.span.end as int;
        lemma_sp_term_bounds(s, q);
        match sp_term(s, q) {
            SpecParsed::Node { cursor, span: rspan, out: rout, enc: renc } => {
                let nspan = Span { start: span.start, end: rspan.end };
                let op = op_of_kind(t.kind);
                let nout = combine_out(op, nspan, out, rout);
                let nenc = seq![2int, nspan.start as int, nspan.end as int, op_tag(op)] + enc
                    + renc;
                lemma_sp_expr_more_bounds(s, cursor, nspan, nout, nenc);
            },
            SpecParsed::Fail { .. } => {},
        }
    }
}

/// Recursive-descent parser with a single buffered lookahead token.
pub struct Parser {
    scanner: Scanner,
    current: Token,
    cur_at: Ghost<int>,
}

impl Parser {
    /// The input text being parsed.
    pub closed spec fn input(&self) -> Seq<char> {
        self.scanner.input()
    }

    /// The cursor position at which the buffered lookahead token was
    /// scanned.
    pub closed spec fn pos(&self) -> int {
        self.cur_at@
    }

    /// How far the scanner has consumed the input.
    pub closed spec fn scanned(&self) -> int {
        self.scanner.cursor()
    }

    /// The buffered lookahead token.
    pub closed spec fn current_tok(&self) -> Token {
        self.current
    }

    /// The scanner is in a fit state to scan.
    pub closed spec fn scan_ok(&self) -> bool {
        self.scanner.wf()
    }

    /// A freshly created parser: nothing consumed, lookahead not yet
    /// primed.
    pub closed spec fn fresh(&self) -> bool {
        &&& self.scanner.wf()
        &&& self.scanner.cursor() == 0
    }

    /// A parser in its steady state: the lookahead holds the token at
    /// cursor `pos()`, and the scanner stands just past that token.
    pub closed spec fn primed(&self) -> bool {
        &&& self.scanner.wf()
        &&& 0 <= self.pos() <= self.input().len()
        &&& self.current_tok() == token_model(self.input(), self.pos())
        &&& self.scanned() == token_end(self.input(), self.pos())
    }

    /// Creates a parser over `input`.
    pub fn new(input: &str) -> (p: Parser)
        requires
            input@.len() < usize::MAX,
        ensures
            p.fresh(),
            p.input() == input@,
    {
        Parser {
            scanner: Scanner::new(input),
            current: Token::eof(Span::new(0, 0)),
            cur_at: Ghost(0),
        }
    }

    /// Parses the whole input as one expression: primes the lookahead,
    /// parses an expression, and requires the end of input to follow.
    pub fn parse(&mut self, source_map: &mut SourceMap) -> (r: Result<Box<Expr>, Error>)
        requires
            old(self).fresh(),
            old(source_map).starts() == map_model(old(self).input(), 0),
        ensures
            final(self).input() == old(self).input(),
            match r {
                Ok(e) => {
                    &&& sp_parse(old(self).input()) == (SpecParsed::Node {
                        cursor: (*e).spec_span().end as int,
                        span: (*e).spec_span(),
                        out: eval_model(*e),
                        enc: enc_expr(*e),
                    })
                    &&& expr_wf(*e)
                    &&& (*e).spec_span().end <= old(self).input().len()
                    &&& final(source_map).starts() == map_model(
                        old(self).input(),
                        old(self).input().len() as int,
                    )
                },
                Err(er) => {
                    &&& sp_parse(old(self).input()) matches SpecParsed::Fail { kind, span }
                        && error_model(er) == (
                        pos_model(old(self).input(), span.start),
                        pos_model(old(self).input(), span.end),
                        msg_of(kind),
                    )
                },
            },
    {
        let ghost s = self.input();
        self.advance(source_map);
        let expr = match self.parse_expr(source_map) {
            Ok(e) => e,
            Err(er) => {
                return Err(er);
            },
        };
        proof {
            lemma_sp_expr_bounds(s, 0);
            lemma_token_bounds(s, self.pos());
        }
        match self.expect(source_map, TokenKind::Eof) {
            Ok(_) => Ok(expr),
            Err(er) => Err(er),
        }
    }

    /// Parses `Expr := Term (("+"|"-") Term)*` by a left fold.
    fn parse_expr(&mut self, source_map: &mut SourceMap) -> (r: Result<Box<Expr>, Error>)
        requires
            old(self).primed(),
            old(source_map).starts() == map_model(old(self).input(), old(self).scanned()),
        ensures
            final(self).input() == old(self).input(),
            final(self).primed(),
            final(source_map).starts() == map_model(final(self).input(), final(self).scanned()),
            match r {
                Ok(e) => {
                    &&& sp_expr(old(self).input(), old(self).pos()) == (SpecParsed::Node {
                        cursor: final(self).pos(),
                        span: (*e).spec_span(),
                        out: eval_model(*e),
                        enc: enc_expr(*e),
                    })
                    &&& expr_wf(*e)
                },
                Err(er) => {
                    &&& sp_expr(old(self).input(), old(self).pos()) matches SpecParsed::Fail {
                        kind,
                        span,
                    } && error_model(er) == (
                        pos_model(old(self).input(), span.start),
                        pos_model(old(self).input(), span.end),
                        msg_of(kind),
                    )
                },
            },
        decreases self.input().len() - self.pos(), 3int,
    {
        let ghost s = self.input();
        let ghost p0 = self.pos();
        let mut left = match self.parse_term(source_map) {
            Ok(e) => e,
            Err(er) => {
                return Err(er);
            },
        };
        proof {
            lemma_sp_term_bounds(s, p0);
        }
        loop
            invariant
                self.primed(),
                self.input() == s,
                s == old(self).input(),
                p0 == old(self).pos(),
                p0 <= self.pos(),
                source_map.starts() == map_model(s, self.scanned()),
                expr_wf(*left),
                (*left).spec_span().end as int == self.pos(),
                sp_expr_more(s, self.pos(), (*left).spec_span(), eval_model(*left), enc_expr(*left))
                    == sp_expr(s, p0),
            ensures
                self.primed(),
                self.input() == s,
                source_map.starts() == map_model(s, self.scanned()),
                expr_wf(*left),
                sp_expr(s, p0) == (SpecParsed::Node {
                    cursor: self.pos(),
                    span: (*left).spec_span(),
                    out: eval_model(*left),
                    enc: enc_expr(*left),
                }),
            decreases s.len() - self.pos(),
        {
            let ghost c = self.pos();
            let got = self.accept_any(source_map, TokenKind::Plus, TokenKind::Minus);
            let op_token = match got {
                Some(t) => t,
                None => {
                    break ;
                },
            };
            proof {
                lemma_token_bounds(s, c);
                lemma_sp_term_bounds(s, self.pos());
            }
            let ghost lspan = (*left).spec_span();
            let ghost lout = eval_model(*left);
            let ghost lenc = enc_expr(*left);
            let right = match self.parse_term(source_map) {
                Ok(e) => e,
                Err(er) => {
                    return Err(er);
                },
            };
            let span = Span::cover(left.span(), right.span());
            let op = BinaryOp::from_token(op_token);
            let ghost rspan = (*right).spec_span();
            let ghost rout = eval_model(*right);
            let ghost renc = enc_expr(*right);
            let new_left = Expr::binary(span, op, left, right);
            proof {
                let t = token_model(s, c);
                let q = t.span.end as int;
                lemma_token_bounds(s, c);
                lemma_token_bounds(s, q);
                assert(span.start == lspan.start && span.end == rspan.end);
                assert(eval_model(*new_left) == combine_out(op, span, lout, rout));
                assert(enc_expr(*new_left) =~= seq![
                    2int,
                    span.start as int,
                    span.end as int,
                    op_tag(op),
                ] + lenc + renc);
                assert(sp_expr_more(s, c, lspan, lout, lenc) == sp_expr_more(
                    s,
                    self.pos(),
                    span,
                    eval_model(*new_left),
                    enc_expr(*new_left),
                ));
            }
            left = new_left;
        }
        Ok(left)
    }

    /// Parses `Term := Factor (("*"|"/") Factor)*` by a left fold.
    fn parse_term(&mut self, source_map: &mut SourceMap) -> (r: Result<Box<Expr>, Error>)
        requires
            old(self).primed(),
            old(source_map).starts() == map_model(old(self).input(), old(self).scanned()),
        ensures
            final(self).input() == old(self).input(),
            final(self).primed(),
            final(source_map).starts() == map_model(final(self).input(), final(self).scanned()),
            match r {
                Ok(e) => {
                    &&& sp_term(old(self).input(), old(self).pos()) == (SpecParsed::Node {
                        cursor: final(self).pos(),
                        span: (*e).spec_span(),
                        out: eval_model(*e),
                        enc: enc_expr(*e),
                    })
                    &&& expr_wf(*e)
                },
                Err(er) => {
                    &&& sp_term(old(self).input(), old(self).pos()) matches SpecParsed::Fail {
                        kind,
                        span,
                    } && error_model(er) == (
                        pos_model(old(self).input(), span.start),
                        pos_model(old(self).input(), span.end),
                        msg_of(kind),
                    )
                },
            },
        decreases self.input().len() - self.pos(), 2int,
    {
        let ghost s = self.input();
        let ghost p0 = self.pos();
        let mut left = match self.parse_factor(source_map) {
            Ok(e) => e,
            Err(er) => {
                return Err(er);
            },
        };
        proof {
            lemma_sp_factor_bounds(s, p0);
        }
        loop
            invariant
                self.primed(),
                self.input() == s,
                s == old(self).input(),
                p0 == old(self).pos(),
                p0 <= self.pos(),
                source_map.starts() == map_model(s, self.scanned()),
                expr_wf(*left),
                (*left).spec_span().end as int == self.pos(),
                sp_term_more(s, self.pos(), (*left).spec_span(), eval_model(*left), enc_expr(*left))
                    == sp_term(s, p0),
            ensures
                self.primed(),
                self.input() == s,
                source_map.starts() == map_model(s, self.scanned()),
                expr_wf(*left),
                sp_term(s, p0) == (SpecParsed::Node {
                    cursor: self.pos(),
                    span: (*left).spec_span(),
                    out: eval_model(*left),
                    enc: enc_expr(*left),
                }),
            decreases s.len() - self.pos(),
        {
            let ghost c = self.pos();
            let got = self.accept_any(source_map, TokenKind::Star, TokenKind::Slash);
            let op_token = match got {
                Some(t) => t,
                None => {
                    break ;
                },
            };
            proof {
                lemma_token_bounds(s, c);
                lemma_sp_factor_bounds(s, self.pos());
            }
            let ghost lspan = (*left).spec_span();
            let ghost lout = eval_model(*left);
            let ghost lenc = enc_expr(*left);
            let right = match self.parse_factor(source_map) {
                Ok(e) => e,
                Err(er) => {
                    return Err(er);
                },
            };
            let span = Span::cover(left.span(), right.span());
            let op = BinaryOp::from_token(op_token);
            let ghost rspan = (*right).spec_span();
            let ghost rout = eval_model(*right);
            let ghost renc = enc_expr(*right);
            let new_left = Expr::binary(span, op, left, right);
            proof {
                let t = token_model(s, c);
                let q = t.span.end as int;
                lemma_token_bounds(s, c);
                lemma_token_bounds(s, q);
                assert(span.start == lspan.start && span.end == rspan.end);
                assert(eval_model(*new_left) == combine_out(op, span, lout, rout));
                assert(enc_expr(*new_left) =~= seq![
                    2int,
                    span.start as int,
                    span.end as int,
                    op_tag(op),
                ] + lenc + renc);
                assert(sp_term_more(s, c, lspan, lout, lenc) == sp_term_more(
                    s,
                    self.pos(),
                    span,
                    eval_model(*new_left),
                    enc_expr(*new_left),
                ));
            }
            left = new_left;
        }
        Ok(left)
    }

    /// Parses `Factor := Int | "(" Expr ")"`.
    fn parse_factor(&mut self, source_map: &mut SourceMap) -> (r: Result<Box<Expr>, Error>)
        requires
            old(self).primed(),
            old(source_map).starts() == map_model(old(self).input(), old(self).scanned()),
        ensures
            final(self).input() == old(self).input(),
            final(self).primed(),
            final(source_map).starts() == map_model(final(self).input(), final(self).scanned()),
            match r {
                Ok(e) => {
                    &&& sp_factor(old(self).input(), old(self).pos()) == (SpecParsed::Node {
                        cursor: final(self).pos(),
                        span: (*e).spec_span(),
                        out: eval_model(*e),
                        enc: enc_expr(*e),
                    })
                    &&& expr_wf(*e)
                },
                Err(er) => {
                    &&& sp_factor(old(self).input(), old(self).pos()) matches SpecParsed::Fail {
                        kind,
                        span,
                    } && error_model(er) == (
                        pos_model(old(self).input(), span.start),
                        pos_model(old(self).input(), span.end),
                        msg_of(kind),
                    )
                },
            },
        decreases self.input().len() - self.pos(), 1int,
    {
        let ghost s = self.input();
        let ghost p0 = self.pos();
        proof {
            lemma_token_bounds(s, p0);
        }
        let kind = self.current().kind();
        if kind == TokenKind::Int {
            let tok = self.advance(source_map);
            let e = Expr::int_lit(tok.span(), tok.int_value());
            proof {
                assert(enc_expr(*e) =~= seq![
                    0int,
                    tok.span.start as int,
                    tok.span.end as int,
                    crate::scanner::token_val(s, p0) as int,
                ]);
            }
            Ok(e)
        } else if kind == TokenKind::LParen {
            let l_paren = self.advance(source_map);
            let ghost q = self.pos();
            proof {
                lemma_token_bounds(s, q);
                lemma_sp_expr_bounds(s, q);
            }
            let expr = match self.parse_expr(source_map) {
                Ok(e) => e,
                Err(er) => {
                    return Err(er);
                },
            };
            proof {
                lemma_token_bounds(s, self.pos());
            }
            let r_paren = match self.expect(source_map, TokenKind::RParen) {
                Ok(t) => t,
                Err(er) => {
                    return Err(er);
                },
            };
            let span = Span::cover(l_paren.span(), r_paren.span());
            let e = Expr::group(span, expr);
            proof {
                assert(enc_expr(*e) =~= seq![1int, span.start as int, span.end as int] + enc_expr(
                    *e->Group_0.expr,
                ));
            }
            Ok(e)
        } else {
            let mut m = String::from_str("expected ");
            m.append(TokenKind::Int.as_str());
            m.append(" or ");
            m.append(TokenKind::LParen.as_str());
            let span = self.current().span();
            proof {
                crate::source::lemma_map_model_wf(s, self.scanned());
                lemma_resolve_model(s, self.scanned(), span.start);
                lemma_resolve_model(s, self.scanned(), span.end);
                assert(m@ =~= msg_of(ParseErrorKind::UnexpectedToken));
            }
            Err(self.error(source_map, span, m.as_str()))
        }
    }

    /// Consumes the current token when it has one of two kinds.
    fn accept_any(&mut self, source_map: &mut SourceMap, k1: TokenKind, k2: TokenKind) -> (r:
        Option<Token>)
        requires
            old(self).primed(),
            old(source_map).starts() == map_model(old(self).input(), old(self).scanned()),
        ensures
            final(self).input() == old(self).input(),
            final(self).primed(),
            final(source_map).starts() == map_model(final(self).input(), final(self).scanned()),
            match r {
                Some(t) => {
                    &&& t == old(self).current_tok()
                    &&& (t.kind == k1 || t.kind == k2)
                    &&& final(self).pos() == old(self).scanned()
                },
                None => {
                    &&& old(self).current_tok().kind != k1
                    &&& old(self).current_tok().kind != k2
                    &&& *final(self) == *old(self)
                    &&& final(source_map).starts() == old(source_map).starts()
                },
            },
    {
        if self.current.kind == k1 || self.current.kind == k2 {
            Some(self.advance(source_map))
        } else {
            None
        }
    }

    /// Consumes the current token when it has the given kind; otherwise
    /// reports `expected <kind>` at the current token's span.
    fn expect(&mut self, source_map: &mut SourceMap, kind: TokenKind) -> (r: Result<Token, Error>)
        requires
            old(self).primed(),
            old(source_map).starts() == map_model(old(self).input(), old(self).scanned()),
        ensures
            final(self).input() == old(self).input(),
            final(self).primed(),
            final(source_map).starts() == map_model(final(self).input(), final(self).scanned()),
            match r {
                Ok(t) => {
                    &&& t == old(self).current_tok()
                    &&& t.kind == kind
                    &&& final(self).pos() == old(self).scanned()
                },
                Err(er) => {
                    &&& old(self).current_tok().kind != kind
                    &&& *final(self) == *old(self)
                    &&& error_model(er) == (
                        pos_model(old(self).input(), old(self).current_tok().span.start),
                        pos_model(old(self).input(), old(self).current_tok().span.end),
                        "expected "@ + kind_text(kind),
                    )
                },
            },
    {
        if self.current.kind == kind {
            Ok(self.advance(source_map))
        } else {
            let mut m = String::from_str("expected ");
            m.append(kind.as_str());
            let span = self.current.span;
            proof {
                lemma_token_bounds(self.input(), self.pos());
                crate::source::lemma_map_model_wf(self.input(), self.scanned());
                lemma_resolve_model(self.input(), self.scanned(), span.start);
                lemma_resolve_model(self.input(), self.scanned(), span.end);
            }
            Err(self.error(source_map, span, m.as_str()))
        }
    }

    /// Replaces the lookahead with the next scanned token and returns the
    /// token it held before.
    fn advance(&mut self, source_map: &mut SourceMap) -> (t: Token)
        requires
            old(self).scan_ok(),
            old(source_map).starts() == map_model(old(self).input(), old(self).scanned()),
        ensures
            t == old(self).current_tok(),
            final(self).input() == old(self).input(),
            final(self).primed(),
            final(self).pos() == old(self).scanned(),
            final(self).current_tok() == token_model(old(self).input(), old(self).scanned()),
            final(self).scanned() == token_end(old(self).input(), old(self).scanned()),
            final(source_map).starts() == map_model(final(self).input(), final(self).scanned()),
    {
        let t = self.current;
        let ghost c = self.scanner.cursor();
        proof {
            assert(0 <= c <= self.input().len());
        }
        let nt = self.scanner.scan(source_map);
        self.current = nt;
        self.cur_at = Ghost(c);
        proof {
            lemma_token_bounds(self.input(), c);
        }
        t
    }

    /// The buffered lookahead token.
    fn current(&self) -> (t: &Token)
        ensures
            *t == self.current_tok(),
    {
        &self.current
    }

    /// Builds an error whose span is resolved through the source map at
    /// the moment of failure.
    fn error(&self, source_map: &SourceMap, span: Span, message: &str) -> (e: Error)
        requires
            source_map.wf(),
            span.wf(),
            span.end < usize::MAX,
        ensures
            error_model(e) == (
                resolve_model(source_map.starts(), span.start),
                resolve_model(source_map.starts(), span.end),
                message@,
            ),
    {
        Error::new(source_map.map_span(span), message)
    }
}

} // verus!
