//! Source positions: byte-offset spans, line/column positions, and the
//! line-start index that maps one to the other.

use vstd::prelude::*;

verus! {

/// A half-open range `[start, end)` of character offsets in the input text.
#[derive(Copy, Clone, PartialEq, Eq, Structural, Debug)]
pub struct Span {
    pub start: usize,
    pub end: usize,
}

impl Span {
    /// A span is well-formed when its start does not lie past its end.
    pub open spec fn wf(self) -> bool {
        self.start <= self.end
    }

    pub fn new(start: usize, end: usize) -> (s: Span)
        requires
            start <= end,
        ensures
            s == (Span { start, end }),
    {
        Span { start, end }
    }

    /// The smallest span containing both `a` and `b`.
    pub fn cover(a: Span, b: Span) -> (s: Span)
        requires
            a.wf(),
            b.wf(),
        ensures
            s.start == if a.start <= b.start {
                a.start
            } else {
                b.start
            },
            s.end == if a.end >= b.end {
                a.end
            } else {
                b.end
            },
            s.wf(),
    {
        let start = if a.start <= b.start {
            a.start
        } else {
            b.start
        };
        let end = if a.end >= b.end {
            a.end
        } else {
            b.end
        };
        Span::new(start, end)
    }

    pub fn start(&self) -> (r: usize)
        ensures
            r == self.start,
    {
        self.start
    }

    pub fn end(&self) -> (r: usize)
        ensures
            r == self.end,
    {
        self.end
    }
}

/// Anything that carries a source span.
pub trait Spanned {
    /// The span, as seen by specifications.
    spec fn spec_span(&self) -> Span;

    /// Returns the span.
    fn span(&self) -> (s: Span)
        ensures
            s == self.spec_span(),
    ;
}

/// The character of a single decimal digit.
pub open spec fn dec_digit(d: nat) -> char {
    if d == 0 {
        '0'
    } else if d == 1 {
        '1'
    } else if d == 2 {
        '2'
    } else if d == 3 {
        '3'
    } else if d == 4 {
        '4'
    } else if d == 5 {
        '5'
    } else if d == 6 {
        '6'
    } else if d == 7 {
        '7'
    } else if d == 8 {
        '8'
    } else {
        '9'
    }
}

/// The decimal digits of `n`, most significant first, with no sign or padding.
pub open spec fn dec_text(n: nat) -> Seq<char>
    decreases n,
{
    if n < 10 {
        seq![dec_digit(n)]
    } else {
        dec_text(n / 10) + seq![dec_digit(n % 10)]
    }
}

/// Relies on the std `Display` implementation for `usize`: formatting an
/// unsigned integer yields its decimal digits, most significant first,
/// with no sign, separators or padding.
#[verifier::external_body]
fn usize_to_decimal(x: usize) -> (s: String)
    ensures
        s@ == dec_text(x as nat),
{
    format!("{}", x)
}

/// A position in the input text: a character offset together with the
/// 1-based line and column it falls on. The line and column are derived
/// data; equality and ordering go by the offset alone.
#[derive(Copy, Clone, Debug)]
pub struct SourcePos {
    pub offset: usize,
    pub line: usize,
    pub column: usize,
}

/// The rendering of a position, as `line:column`.
pub open spec fn pos_text(p: SourcePos) -> Seq<char> {
    dec_text(p.line as nat) + seq![':'] + dec_text(p.column as nat)
}

impl SourcePos {
    pub fn new(offset: usize, line: usize, column: usize) -> (p: SourcePos)
        ensures
            p == (SourcePos { offset, line, column }),
    {
        SourcePos { offset, line, column }
    }

    /// Returns the character offset.
    pub fn offset(&self) -> (r: usize)
        ensures
            r == self.offset,
    {
        self.offset
    }

    /// Returns the line.
    pub fn line(&self) -> (r: usize)
        ensures
            r == self.line,
    {
        self.line
    }

    /// Returns the column.
    pub fn column(&self) -> (r: usize)
        ensures
            r == self.column,
    {
        self.column
    }

    /// Total order by offset; line and column do not take part.
    pub fn cmp(&self, other: &SourcePos) -> (r: core::cmp::Ordering)
        ensures
            r == core::cmp::Ordering::Less <==> self.offset < other.offset,
            r == core::cmp::Ordering::Equal <==> self.offset == other.offset,
            r == core::cmp::Ordering::Greater <==> self.offset > other.offset,
    {
        if self.offset < other.offset {
            core::cmp::Ordering::Less
        } else if self.offset == other.offset {
            core::cmp::Ordering::Equal
        } else {
            core::cmp::Ordering::Greater
        }
    }

    /// Renders the position as `line:column`.
    pub fn to_string(&self) -> (s: String)
        ensures
            s@ == pos_text(*self),
    {
        let mut s = usize_to_decimal(self.line);
        s.append(":");
        let col = usize_to_decimal(self.column);
        s.append(col.as_str());
        proof {
            reveal_strlit(":");
            assert(s@ =~= pos_text(*self));
        }
        s
    }
}

impl PartialEq for SourcePos {
    fn eq(&self, other: &SourcePos) -> (r: bool) {
        self.offset == other.offset
    }
}

impl Eq for SourcePos {

}

impl vstd::std_specs::cmp::PartialEqSpecImpl for SourcePos {
    open spec fn obeys_eq_spec() -> bool {
        true
    }

    open spec fn eq_spec(&self, other: &SourcePos) -> bool {
        self.offset == other.offset
    }
}

impl PartialOrd for SourcePos {
    fn partial_cmp(&self, other: &SourcePos) -> (r: Option<core::cmp::Ordering>) {
        if self.offset < other.offset {
            Some(core::cmp::Ordering::Less)
        } else if self.offset == other.offset {
            Some(core::cmp::Ordering::Equal)
        } else {
            Some(core::cmp::Ordering::Greater)
        }
    }
}

impl vstd::std_specs::cmp::PartialOrdSpecImpl for SourcePos {
    open spec fn obeys_partial_cmp_spec() -> bool {
        true
    }

    open spec fn partial_cmp_spec(&self, other: &SourcePos) -> Option<core::cmp::Ordering> {
        if self.offset < other.offset {
            Some(core::cmp::Ordering::Less)
        } else if self.offset == other.offset {
            Some(core::cmp::Ordering::Equal)
        } else {
            Some(core::cmp::Ordering::Greater)
        }
    }
}

/// A range in the input text between two resolved positions, the start
/// inclusive and the end exclusive. The end never lies before the start.
#[derive(Copy, Clone, PartialEq, Eq, Debug)]
pub struct SourceSpan {
    pub start: SourcePos,
    pub end: SourcePos,
}

/// The rendering of a source span, as `start-end`.
pub open spec fn source_span_text(s: SourceSpan) -> Seq<char> {
    pos_text(s.start) + seq!['-'] + pos_text(s.end)
}

impl SourceSpan {
    pub fn new(start: SourcePos, end: SourcePos) -> (s: SourceSpan)
        requires
            start.offset <= end.offset,
        ensures
            s == (SourceSpan { start, end }),
    {
        SourceSpan { start, end }
    }

    /// Returns the start position.
    pub fn start(&self) -> (r: SourcePos)
        ensures
            r == self.start,
    {
        self.start
    }

    /// Returns the end position.
    pub fn end(&self) -> (r: SourcePos)
        ensures
            r == self.end,
    {
        self.end
    }

    /// Renders the span as `start-end`.
    pub fn to_string(&self) -> (s: String)
        ensures
            s@ == source_span_text(*self),
    {
        let mut s = self.start.to_string();
        s.append("-");
        let end = self.end.to_string();
        s.append(end.as_str());
        proof {
            reveal_strlit("-");
            assert(s@ =~= source_span_text(*self));
        }
        s
    }
}

/// The offsets at which lines 2, 3, ... begin within `s[..upto]`: for each
/// newline at offset `j < upto`, the offset `j + 1` just past it.
pub open spec fn newline_starts(s: Seq<char>, upto: int) -> Seq<usize>
    decreases upto,
{
    if upto <= 0 {
        Seq::empty()
    } else if s[upto - 1] == '\n' {
        newline_starts(s, upto - 1).push(upto as usize)
    } else {
        newline_starts(s, upto - 1)
    }
}

/// The line starts a map holds after the first `upto` characters of `s`
/// have been consumed: offset `0`, then one entry per newline.
pub open spec fn map_model(s: Seq<char>, upto: int) -> Seq<usize> {
    seq![0usize] + newline_starts(s, upto)
}

/// The 1-based line on which offset `off` falls: one more than the number
/// of newlines before it.
pub open spec fn line_of(s: Seq<char>, off: int) -> int {
    1 + newline_starts(s, off).len() as int
}

/// The offset at which the line containing `off` begins.
pub open spec fn last_line_start(s: Seq<char>, off: int) -> int
    decreases off,
{
    if off <= 0 {
        0
    } else if s[off - 1] == '\n' {
        off
    } else {
        last_line_start(s, off - 1)
    }
}

/// The 1-based column of offset `off` within its line.
pub open spec fn col_of(s: Seq<char>, off: int) -> int {
    off - last_line_start(s, off) + 1
}

/// The full line/column position of offset `off` in text `s`.
pub open spec fn pos_model(s: Seq<char>, off: usize) -> SourcePos {
    SourcePos {
        offset: off,
        line: line_of(s, off as int) as usize,
        column: col_of(s, off as int) as usize,
    }
}

/// A well-formed line-start sequence: nonempty, starting at offset `0`,
/// strictly increasing.
pub open spec fn starts_wf(starts: Seq<usize>) -> bool {
    &&& starts.len() > 0
    &&& starts[0] == 0
    &&& forall|i: int, j: int| 0 <= i < j < starts.len() ==> starts[i] < starts[j]
}

/// The index of the line containing `off`: the greatest `i` such that
/// `starts[i] <= off`.
pub open spec fn line_index_of(starts: Seq<usize>, off: int) -> int
    decreases starts.len(),
{
    if starts.len() <= 1 {
        0
    } else if starts.last() <= off {
        starts.len() - 1
    } else {
        line_index_of(starts.drop_last(), off)
    }
}

/// For a well-formed sequence and a non-negative offset, the line index is
/// in bounds, its line start does not exceed the offset, and the next line
/// (if any) starts past the offset.
pub proof fn lemma_line_index_of(starts: Seq<usize>, off: int)
    requires
        starts_wf(starts),
        off >= 0,
    ensures
        0 <= line_index_of(starts, off) < starts.len(),
        starts[line_index_of(starts, off)] <= off,
        line_index_of(starts, off) + 1 < starts.len() ==> off < starts[line_index_of(starts, off)
            + 1],
        forall|k: int| 0 <= k < starts.len() && starts[k] <= off ==> k <= line_index_of(
            starts,
            off,
        ),
    decreases starts.len(),
{
    if starts.len() <= 1 {
    } else if starts.last() <= off {
    } else {
        assert(starts_wf(starts.drop_last()));
        lemma_line_index_of(starts.drop_last(), off);
    }
}

/// Appending line starts beyond `off` does not change where `off` resolves.
pub proof fn lemma_line_index_push(starts: Seq<usize>, off: int, extra: usize)
    requires
        off < extra,
    ensures
        line_index_of(starts.push(extra), off) == line_index_of(starts, off),
    decreases starts.len(),
{
    let pushed = starts.push(extra);
    if starts.len() == 0 {
        assert(pushed.len() == 1);
    } else {
        assert(pushed.last() == extra);
        assert(pushed.drop_last() =~= starts);
    }
}

/// When every recorded line start lies at or before `off`, the offset
/// resolves to the last recorded line.
pub proof fn lemma_line_index_last(starts: Seq<usize>, off: int)
    requires
        starts.len() > 0,
        forall|i: int| 0 <= i < starts.len() ==> #[trigger] starts[i] <= off,
    ensures
        line_index_of(starts, off) == starts.len() - 1,
{
    assert(starts.last() <= off);
}

/// The map a scanner has built after consuming `upto` characters is
/// well-formed, its entries do not lie past `upto`, and its last entry is
/// the start of the line containing `upto`.
pub proof fn lemma_map_model_wf(s: Seq<char>, upto: int)
    requires
        0 <= upto <= usize::MAX,
    ensures
        starts_wf(map_model(s, upto)),
        forall|i: int| 0 <= i < map_model(s, upto).len() ==> #[trigger] map_model(s, upto)[i]
            <= upto,
        map_model(s, upto).last() == last_line_start(s, upto),
        map_model(s, upto).len() == line_of(s, upto),
    decreases upto,
{
    if upto == 0 {
        assert(map_model(s, 0) =~= seq![0usize]);
    } else {
        lemma_map_model_wf(s, upto - 1);
        if s[upto - 1] == '\n' {
            assert(map_model(s, upto) =~= map_model(s, upto - 1).push(upto as usize));
        } else {
            assert(map_model(s, upto) =~= map_model(s, upto - 1));
        }
    }
}

/// Resolving an offset through the line-start map gives the same line and
/// column as counting newlines in the text directly, as long as the map
/// has been built at least up to that offset.
pub proof fn lemma_resolve_model(s: Seq<char>, upto: int, off: usize)
    requires
        off <= upto <= usize::MAX,
    ensures
        resolve_model(map_model(s, upto), off) == pos_model(s, off),
    decreases upto - off,
{
    lemma_map_model_wf(s, upto);
    if upto == off {
        lemma_line_index_last(map_model(s, upto), off as int);
    } else {
        lemma_resolve_model(s, upto - 1, off);
        lemma_map_model_wf(s, upto - 1);
        lemma_line_index_of(map_model(s, upto - 1), off as int);
        if s[upto - 1] == '\n' {
            assert(map_model(s, upto) =~= map_model(s, upto - 1).push(upto as usize));
            lemma_line_index_push(map_model(s, upto - 1), off as int, upto as usize);
        } else {
            assert(map_model(s, upto) =~= map_model(s, upto - 1));
        }
    }
}

/// The position `off` resolves to under the line-start sequence `starts`.
pub open spec fn resolve_model(starts: Seq<usize>, off: usize) -> SourcePos {
    SourcePos {
        offset: off,
        line: (line_index_of(starts, off as int) + 1) as usize,
        column: (off - starts[line_index_of(starts, off as int)] + 1) as usize,
    }
}

/// Maps character offsets to line/column positions, from an ordered record
/// of the offsets on which lines begin.
pub struct SourceMap {
    line_starts: Vec<usize>,
}

impl SourceMap {
    /// The recorded line starts.
    pub closed spec fn starts(&self) -> Seq<usize> {
        self.line_starts@
    }

    pub open spec fn wf(&self) -> bool {
        starts_wf(self.starts())
    }

    /// A fresh map has a single line starting at offset `0`; this holds
    /// even for empty input.
    pub fn new() -> (m: SourceMap)
        ensures
            m.starts() =~= seq![0usize],
    {
        let mut line_starts: Vec<usize> = Vec::new();
        line_starts.push(0);
        SourceMap { line_starts }
    }

    /// Records that a new line begins at `pos`. Line starts must be
    /// recorded left to right, so `pos` must lie past the last one.
    pub fn add_line_start(&mut self, pos: usize)
        requires
            old(self).wf(),
            pos > old(self).starts().last(),
        ensures
            final(self).starts() =~= old(self).starts().push(pos),
            final(self).wf(),
    {
        proof {
            assert(forall|i: int| #![auto] 0 <= i < self.starts().len() ==> self.starts()[i]
                <= self.starts().last());
        }
        self.line_starts.push(pos);
    }

    /// Resolves both ends of a span.
    pub fn map_span(&self, span: Span) -> (s: SourceSpan)
        requires
            self.wf(),
            span.wf(),
            span.end < usize::MAX,
        ensures
            s.start == resolve_model(self.starts(), span.start),
            s.end == resolve_model(self.starts(), span.end),
    {
        let start = self.map_pos(span.start());
        let end = self.map_pos(span.end());
        proof {
            lemma_line_index_of(self.starts(), span.start as int);
            lemma_line_index_of(self.starts(), span.end as int);
            let i = line_index_of(self.starts(), span.start as int);
            let j = line_index_of(self.starts(), span.end as int);
            if j < i {
                assert(self.starts()[i] <= span.start as int);
            }
            assert(i <= j);
        }
        SourceSpan::new(start, end)
    }

    /// Resolves a single offset by binary search for the greatest recorded
    /// line start that does not exceed it. The search tracks the base and
    /// size of the remaining window rather than two bounds, which avoids
    /// underflow with unsigned indices.
    fn map_pos(&self, pos: usize) -> (p: SourcePos)
        requires
            self.wf(),
            pos < usize::MAX,
        ensures
            p == resolve_model(self.starts(), pos),
    {
        proof {
            lemma_line_index_of(self.starts(), pos as int);
        }
        let ghost target = line_index_of(self.starts(), pos as int);
        let mut base: usize = 0;
        let mut size: usize = self.line_starts.len();
        let mut index: usize = 0;
        while size > 0
            invariant
                self.wf(),
                target == line_index_of(self.starts(), pos as int),
                base + size <= self.line_starts.len(),
                index < self.line_starts.len(),
                self.starts()[index as int] <= pos,
                index <= target,
                target < base + size || target <= index,
                base > 0 ==> index == base - 1,
                base == 0 ==> index == 0,
            decreases size,
        {
            proof {
                lemma_line_index_of(self.starts(), pos as int);
            }
            let half = size / 2;
            let mid = base + half;
            if self.line_starts[mid] <= pos {
                proof {
                    assert(self.starts()[mid as int] <= pos);
                    assert(mid as int <= target);
                    assert((mid as int + 1) + (size as int - half as int - 1) == base as int
                        + size as int);
                }
                index = mid;
                base = mid + 1;
                size = size - half - 1;
            } else {
                proof {
                    assert(target < mid as int) by {
                        if target >= mid as int {
                            assert(self.starts()[mid as int] <= self.starts()[target]);
                        }
                    }
                }
                size = half;
            }
        }
        proof {
            lemma_line_index_of(self.starts(), pos as int);
            assert(index == target);
        }
        SourcePos::new(pos, index + 1, pos - self.line_starts[index] + 1)
    }
}

} // verus!
