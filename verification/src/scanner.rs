//! The scanner: produces one token per call, consuming exactly the
//! characters that belong to it, and records every newline it consumes
//! with the source map as it goes.

use crate::source::SourceMap;
use crate::source::Span;
use crate::source::map_model;
use crate::source::lemma_map_model_wf;
use crate::token::Token;
use crate::token::TokenKind;
use crate::token::TokenValue;
use vstd::prelude::*;
use vstd::std_specs::iter::IteratorSpec;
use vstd::wrapping::i32_specs;

verus! {

/// The whitespace characters the scanner skips between tokens.
pub open spec fn is_ws_char(c: char) -> bool {
    c == ' ' || c == '\t' || c == '\r' || c == '\n'
}

/// ASCII decimal digits.
pub open spec fn is_digit_char(c: char) -> bool {
    48 <= c as u32 && c as u32 <= 57
}

/// The numeric value of an ASCII digit.
pub open spec fn digit_val(c: char) -> i32 {
    (c as u32 - 48) as i32
}

/// Whether `ch` is whitespace for the scanner's purposes.
pub fn is_whitespace(ch: char) -> (r: bool)
    ensures
        r == is_ws_char(ch),
{
    ch == ' ' || ch == '\t' || ch == '\r' || ch == '\n'
}

/// Whether `ch` is an ASCII decimal digit.
pub fn is_digit(ch: char) -> (r: bool)
    ensures
        r == is_digit_char(ch),
{
    let u = ch as u32;
    48 <= u && u <= 57
}

/// The numeric value of the digit `ch`.
pub fn to_digit(ch: char) -> (r: i32)
    requires
        is_digit_char(ch),
    ensures
        r == digit_val(ch),
        0 <= r <= 9,
{
    ((ch as u32) - 48) as i32
}

/// The first offset at or after `i` holding a non-whitespace character, or
/// the end of the text.
pub open spec fn ws_end(s: Seq<char>, i: int) -> int
    decreases s.len() - i,
{
    if 0 <= i < s.len() && is_ws_char(s[i]) {
        ws_end(s, i + 1)
    } else {
        i
    }
}

/// The first offset at or after `i` holding a non-digit character, or the
/// end of the text.
pub open spec fn digits_end(s: Seq<char>, i: int) -> int
    decreases s.len() - i,
{
    if 0 <= i < s.len() && is_digit_char(s[i]) {
        digits_end(s, i + 1)
    } else {
        i
    }
}

pub proof fn lemma_ws_end(s: Seq<char>, i: int)
    requires
        0 <= i <= s.len(),
    ensures
        i <= ws_end(s, i) <= s.len(),
        forall|j: int| i <= j < ws_end(s, i) ==> is_ws_char(#[trigger] s[j]),
        ws_end(s, i) < s.len() ==> !is_ws_char(s[ws_end(s, i)]),
    decreases s.len() - i,
{
    if i < s.len() && is_ws_char(s[i]) {
        lemma_ws_end(s, i + 1);
    }
}

pub proof fn lemma_digits_end(s: Seq<char>, i: int)
    requires
        0 <= i <= s.len(),
    ensures
        i <= digits_end(s, i) <= s.len(),
        forall|j: int| i <= j < digits_end(s, i) ==> is_digit_char(#[trigger] s[j]),
        digits_end(s, i) < s.len() ==> !is_digit_char(s[digits_end(s, i)]),
    decreases s.len() - i,
{
    if i < s.len() && is_digit_char(s[i]) {
        lemma_digits_end(s, i + 1);
    }
}

/// One step of decimal accumulation with 32-bit wraparound.
pub open spec fn wrap_step(acc: i32, d: i32) -> i32 {
    i32_specs::wrapping_add(i32_specs::wrapping_mul(acc, 10), d)
}

/// The value accumulated from the digits `s[i..j]`, starting from `acc`,
/// with 32-bit wraparound at each step.
pub open spec fn digits_val(s: Seq<char>, i: int, j: int, acc: i32) -> i32
    decreases j - i,
{
    if i < j {
        digits_val(s, i + 1, j, wrap_step(acc, digit_val(s[i])))
    } else {
        acc
    }
}

/// Accumulating one further digit folds onto the value so far.
pub proof fn lemma_digits_val_snoc(s: Seq<char>, i: int, j: int, acc: i32)
    requires
        i <= j,
    ensures
        digits_val(s, i, j + 1, acc) == wrap_step(digits_val(s, i, j, acc), digit_val(s[j])),
    decreases j - i,
{
    if i < j {
        lemma_digits_val_snoc(s, i + 1, j, wrap_step(acc, digit_val(s[i])));
    } else {
        assert(digits_val(s, i, j + 1, acc) == digits_val(
            s,
            i + 1,
            j + 1,
            wrap_step(acc, digit_val(s[i])),
        ));
    }
}

/// The accumulated value depends only on the characters between the two
/// indices.
pub proof fn lemma_digits_val_agree(s1: Seq<char>, s2: Seq<char>, i: int, j: int, acc: i32)
    requires
        forall|k: int| i <= k < j ==> s1[k] == #[trigger] s2[k],
    ensures
        digits_val(s1, i, j, acc) == digits_val(s2, i, j, acc),
    decreases j - i,
{
    if i < j {
        lemma_digits_val_agree(s1, s2, i + 1, j, wrap_step(acc, digit_val(s1[i])));
    }
}

/// A run of digits reaching the end of the text ends the digit scan at
/// the end of the text.
pub proof fn lemma_digits_end_all(s: Seq<char>, i: int)
    requires
        0 <= i <= s.len(),
        forall|k: int| i <= k < s.len() ==> is_digit_char(#[trigger] s[k]),
    ensures
        digits_end(s, i) == s.len(),
    decreases s.len() - i,
{
    if i < s.len() {
        lemma_digits_end_all(s, i + 1);
    }
}

/// A digit run from `i` up to a non-digit (or the end) at `j` ends the
/// digit scan exactly at `j`.
pub proof fn lemma_digits_end_until(s: Seq<char>, i: int, j: int)
    requires
        0 <= i <= j <= s.len(),
        forall|k: int| i <= k < j ==> is_digit_char(#[trigger] s[k]),
        j < s.len() ==> !is_digit_char(s[j]),
    ensures
        digits_end(s, i) == j,
    decreases j - i,
{
    if i < j {
        lemma_digits_end_until(s, i + 1, j);
    }
}

/// A whitespace run from `i` up to a non-whitespace character (or the
/// end) at `j` ends the whitespace skip exactly at `j`.
pub proof fn lemma_ws_end_until(s: Seq<char>, i: int, j: int)
    requires
        0 <= i <= j <= s.len(),
        forall|k: int| i <= k < j ==> is_ws_char(#[trigger] s[k]),
        j < s.len() ==> !is_ws_char(s[j]),
    ensures
        ws_end(s, i) == j,
    decreases j - i,
{
    if i < j {
        lemma_ws_end_until(s, i + 1, j);
    }
}

/// The accumulated value is invariant under shifting the window, as long
/// as the characters match.
pub proof fn lemma_digits_val_shift(s: Seq<char>, t: Seq<char>, d: int, i: int, j: int, acc: i32)
    requires
        forall|k: int| i <= k < j ==> #[trigger] t[k] == s[k + d],
    ensures
        digits_val(s, i + d, j + d, acc) == digits_val(t, i, j, acc),
    decreases j - i,
{
    if i < j {
        lemma_digits_val_shift(s, t, d, i + 1, j, wrap_step(acc, digit_val(t[i])));
    }
}

/// Where the token scanned from cursor position `p` begins: after any
/// whitespace.
pub open spec fn tok_start(s: Seq<char>, p: int) -> int {
    ws_end(s, p)
}

/// The kind of token a character begins.
pub open spec fn kind_of_char(c: char) -> TokenKind {
    if c == '+' {
        TokenKind::Plus
    } else if c == '-' {
        TokenKind::Minus
    } else if c == '*' {
        TokenKind::Star
    } else if c == '/' {
        TokenKind::Slash
    } else if c == '(' {
        TokenKind::LParen
    } else if c == ')' {
        TokenKind::RParen
    } else if is_digit_char(c) {
        TokenKind::Int
    } else {
        TokenKind::Error
    }
}

/// The kind of the token scanned from cursor position `p`.
pub open spec fn token_kind(s: Seq<char>, p: int) -> TokenKind {
    if tok_start(s, p) >= s.len() {
        TokenKind::Eof
    } else {
        kind_of_char(s[tok_start(s, p)])
    }
}

/// The offset just past the token scanned from cursor position `p`; an
/// integer token extends over the maximal digit run.
pub open spec fn token_end(s: Seq<char>, p: int) -> int {
    let st = tok_start(s, p);
    if st >= s.len() {
        st
    } else if is_digit_char(s[st]) {
        digits_end(s, st + 1)
    } else {
        st + 1
    }
}

/// The value of the integer token scanned from cursor position `p`.
pub open spec fn token_val(s: Seq<char>, p: int) -> i32 {
    let st = tok_start(s, p);
    digits_val(s, st + 1, token_end(s, p), digit_val(s[st]))
}

/// The token scanned from cursor position `p`.
pub open spec fn token_model(s: Seq<char>, p: int) -> Token {
    Token {
        span: Span { start: tok_start(s, p) as usize, end: token_end(s, p) as usize },
        kind: token_kind(s, p),
        value: if token_kind(s, p) is Int {
            TokenValue::Int(token_val(s, p))
        } else {
            TokenValue::Absent
        },
    }
}

/// Basic facts about a scanned token: it lies after its cursor position,
/// only whitespace separates the two, a non-terminal token is nonempty,
/// and the token is unchanged when scanning starts at its own start. One
/// call of the scanner therefore covers exactly `[p, token_end(s, p))`:
/// skipped whitespace, then the token's own span, with no gap and no
/// overlap; chaining calls covers the whole input.
pub proof fn lemma_token_bounds(s: Seq<char>, p: int)
    requires
        0 <= p <= s.len(),
    ensures
        p <= tok_start(s, p) <= token_end(s, p) <= s.len(),
        forall|j: int| p <= j < tok_start(s, p) ==> is_ws_char(#[trigger] s[j]),
        token_kind(s, p) == TokenKind::Eof <==> tok_start(s, p) == s.len(),
        token_kind(s, p) != TokenKind::Eof ==> tok_start(s, p) < token_end(s, p),
        token_model(s, tok_start(s, p)) == token_model(s, p),
{
    lemma_ws_end(s, p);
    let st = tok_start(s, p);
    if st < s.len() {
        if is_digit_char(s[st]) {
            lemma_digits_end(s, st + 1);
        }
        assert(!is_ws_char(s[st]));
    }
    assert(ws_end(s, st) == st);
}

/// The characters of `s`, in order.
pub fn chars_of(s: &str) -> (v: Vec<char>)
    ensures
        v@ == s@,
{
    broadcast use vstd::string::axiom_spec_iter;
    broadcast use vstd::string::next_postcondition;

    let mut it = s.chars();
    let mut v: Vec<char> = Vec::new();
    loop
        invariant
            it.obeys_prophetic_iter_laws(),
            it.decrease() is Some,
            v@ + vstd::std_specs::iter::IteratorSpec::remaining(&it) == s@,
        ensures
            v@ == s@,
        decreases it.decrease()->0,
    {
        match it.next() {
            Some(c) => {
                v.push(c);
                proof {
                    assert(v@ + vstd::std_specs::iter::IteratorSpec::remaining(&it) =~= s@);
                }
            },
            None => {
                proof {
                    assert(v@ =~= s@);
                }
                break ;
            },
        }
    }
    v
}

/// Turns the input text into tokens, one call at a time.
pub struct Scanner {
    chars: Vec<char>,
    pos: usize,
    start_pos: usize,
}

impl Scanner {
    /// The input text being scanned.
    pub closed spec fn input(&self) -> Seq<char> {
        self.chars@
    }

    /// The offset of the next character to consume.
    pub closed spec fn cursor(&self) -> int {
        self.pos as int
    }

    /// The offset at which the token being scanned began.
    pub closed spec fn mark(&self) -> int {
        self.start_pos as int
    }

    pub open spec fn wf(&self) -> bool {
        &&& 0 <= self.mark() <= self.cursor() <= self.input().len()
        &&& self.input().len() < usize::MAX
    }

    /// Creates a scanner over `input`, positioned at its start.
    pub fn new(input: &str) -> (sc: Scanner)
        requires
            input@.len() < usize::MAX,
        ensures
            sc.wf(),
            sc.input() == input@,
            sc.cursor() == 0,
    {
        let chars = chars_of(input);
        Scanner { chars, pos: 0, start_pos: 0 }
    }

    /// Scans one token: skips whitespace, then consumes exactly the
    /// characters of the token, registering every newline passed over.
    /// At the end of input it returns an `Eof` token with an empty span.
    pub fn scan(&mut self, source_map: &mut SourceMap) -> (t: Token)
        requires
            old(self).wf(),
            old(source_map).starts() == map_model(old(self).input(), old(self).cursor()),
        ensures
            final(self).wf(),
            final(self).input() == old(self).input(),
            t == token_model(old(self).input(), old(self).cursor()),
            final(self).cursor() == token_end(old(self).input(), old(self).cursor()),
            final(self).mark() == tok_start(old(self).input(), old(self).cursor()),
            final(source_map).starts() == map_model(final(self).input(), final(self).cursor()),
    {
        proof {
            lemma_token_bounds(self.input(), self.cursor());
        }
        self.skip_whitespace(source_map);
        self.start();
        let c = self.next(source_map);
        match c {
            None => Token::eof(self.span()),
            Some(ch) => {
                if ch == '+' {
                    Token::plus(self.span())
                } else if ch == '-' {
                    Token::minus(self.span())
                } else if ch == '*' {
                    Token::star(self.span())
                } else if ch == '/' {
                    Token::slash(self.span())
                } else if ch == '(' {
                    Token::l_paren(self.span())
                } else if ch == ')' {
                    Token::r_paren(self.span())
                } else if is_digit(ch) {
                    self.scan_int_rest(ch, source_map)
                } else {
                    Token::error(self.span())
                }
            },
        }
    }

    /// Consumes whitespace up to the next token or the end of input.
    fn skip_whitespace(&mut self, source_map: &mut SourceMap)
        requires
            old(self).wf(),
            old(source_map).starts() == map_model(old(self).input(), old(self).cursor()),
        ensures
            final(self).wf(),
            final(self).input() == old(self).input(),
            final(self).mark() == old(self).mark(),
            final(self).cursor() == ws_end(old(self).input(), old(self).cursor()),
            final(source_map).starts() == map_model(final(self).input(), final(self).cursor()),
    {
        loop
            invariant
                self.wf(),
                self.input() == old(self).input(),
                self.mark() == old(self).mark(),
                ws_end(self.input(), self.cursor()) == ws_end(old(self).input(), old(self).cursor()),
                source_map.starts() == map_model(self.input(), self.cursor()),
            ensures
                self.cursor() == ws_end(old(self).input(), old(self).cursor()),
            decreases self.input().len() - self.cursor(),
        {
            match self.peek() {
                Some(ch) => {
                    if is_whitespace(ch) {
                        self.next(source_map);
                    } else {
                        break ;
                    }
                },
                None => {
                    break ;
                },
            }
        }
    }

    /// Consumes the remaining digits of an integer literal whose first
    /// digit `first_ch` has just been consumed, accumulating the value
    /// with 32-bit wraparound, and returns the finished token.
    fn scan_int_rest(&mut self, first_ch: char, source_map: &mut SourceMap) -> (t: Token)
        requires
            old(self).wf(),
            old(self).mark() == old(self).cursor() - 1,
            old(self).input()[old(self).mark()] == first_ch,
            is_digit_char(first_ch),
            old(source_map).starts() == map_model(old(self).input(), old(self).cursor()),
        ensures
            final(self).wf(),
            final(self).input() == old(self).input(),
            final(self).mark() == old(self).mark(),
            final(self).cursor() == digits_end(old(self).input(), old(self).cursor()),
            final(source_map).starts() == map_model(final(self).input(), final(self).cursor()),
            t == (Token {
                span: Span {
                    start: old(self).mark() as usize,
                    end: final(self).cursor() as usize,
                },
                kind: TokenKind::Int,
                value: TokenValue::Int(
                    digits_val(
                        old(self).input(),
                        old(self).cursor(),
                        final(self).cursor(),
                        digit_val(first_ch),
                    ),
                ),
            }),
    {
        let mut value = to_digit(first_ch);
        let ghost p0 = self.cursor();
        loop
            invariant
                self.wf(),
                self.input() == old(self).input(),
                self.mark() == old(self).mark(),
                p0 == old(self).cursor(),
                p0 <= self.cursor(),
                value == digits_val(self.input(), p0, self.cursor(), digit_val(first_ch)),
                digits_end(self.input(), self.cursor()) == digits_end(self.input(), p0),
                source_map.starts() == map_model(self.input(), self.cursor()),
                forall|j: int| p0 <= j < self.cursor() ==> is_digit_char(#[trigger] self.input()[j]),
            ensures
                self.cursor() == digits_end(self.input(), p0),
                value == digits_val(self.input(), p0, self.cursor(), digit_val(first_ch)),
                self.wf(),
                self.input() == old(self).input(),
                self.mark() == old(self).mark(),
                source_map.starts() == map_model(self.input(), self.cursor()),
            decreases self.input().len() - self.cursor(),
        {
            match self.peek() {
                Some(ch) => {
                    if is_digit(ch) {
                        self.next(source_map);
                        proof {
                            lemma_digits_val_snoc(
                                self.input(),
                                p0,
                                self.cursor() - 1,
                                digit_val(first_ch),
                            );
                        }
                        value = value.wrapping_mul(10).wrapping_add(to_digit(ch));
                    } else {
                        break ;
                    }
                },
                None => {
                    break ;
                },
            }
        }
        Token::int_lit(self.span(), value)
    }

    /// The next character to consume, without consuming it.
    fn peek(&self) -> (c: Option<char>)
        requires
            self.wf(),
        ensures
            c == if self.cursor() < self.input().len() {
                Some(self.input()[self.cursor()])
            } else {
                None::<char>
            },
    {
        if self.pos < self.chars.len() {
            Some(self.chars[self.pos])
        } else {
            None
        }
    }

    /// Marks the current offset as the start of the next token.
    fn start(&mut self)
        requires
            old(self).wf(),
        ensures
            final(self).wf(),
            final(self).input() == old(self).input(),
            final(self).cursor() == old(self).cursor(),
            final(self).mark() == old(self).cursor(),
    {
        self.start_pos = self.pos;
    }

    /// Consumes one character, recording a line start when it is a
    /// newline, and returns it; at the end of input, returns nothing.
    fn next(&mut self, source_map: &mut SourceMap) -> (c: Option<char>)
        requires
            old(self).wf(),
            old(source_map).starts() == map_model(old(self).input(), old(self).cursor()),
        ensures
            final(self).wf(),
            final(self).input() == old(self).input(),
            final(self).mark() == old(self).mark(),
            old(self).cursor() < old(self).input().len() ==> {
                &&& c == Some(old(self).input()[old(self).cursor()])
                &&& final(self).cursor() == old(self).cursor() + 1
            },
            old(self).cursor() == old(self).input().len() ==> {
                &&& c is None
                &&& final(self).cursor() == old(self).cursor()
            },
            final(source_map).starts() == map_model(final(self).input(), final(self).cursor()),
    {
        if self.pos < self.chars.len() {
            let ch = self.chars[self.pos];
            self.pos = self.pos + 1;
            if ch == '\n' {
                proof {
                    lemma_map_model_wf(self.input(), self.cursor() - 1);
                    assert(map_model(self.input(), self.cursor()) =~= map_model(
                        self.input(),
                        self.cursor() - 1,
                    ).push(self.pos));
                }
                source_map.add_line_start(self.pos);
            } else {
                proof {
                    assert(map_model(self.input(), self.cursor()) =~= map_model(
                        self.input(),
                        self.cursor() - 1,
                    ));
                }
            }
            Some(ch)
        } else {
            None
        }
    }

    /// The span from the current token's start mark to the cursor.
    fn span(&self) -> (s: Span)
        requires
            self.wf(),
        ensures
            s == (Span { start: self.mark() as usize, end: self.cursor() as usize }),
    {
        Span::new(self.start_pos, self.pos)
    }
}

} // verus!
