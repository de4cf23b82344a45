//! The paragraph handle: a laid-out block of shaped text and its read-only
//! geometric queries.
//!
//! The shaping collaborator hands the paragraph its glyphs, each with an
//! advance width in integer layout units, a kind, and whether a font was
//! resolved for it; the paragraph owns the line-filling rule and the
//! geometry over it. Lines are filled greedily: a line takes glyphs while
//! their advances fit the layout width (always at least one), and a hard
//! break ends its line. Line heights are uniform: the paragraph's ascent
//! plus descent. Geometric queries are meaningful only after a layout pass;
//! `mark_dirty` invalidates the pass without touching the text.

use vstd::arithmetic::mul::lemma_mul_inequality;
use vstd::prelude::*;

use crate::canvas::Canvas;
use crate::geometry::IPoint;

verus! {

/// What a shaped glyph is, as far as layout cares.
#[derive(Clone, Copy, Debug, PartialEq, Eq, Structural)]
pub enum GlyphKind {
    /// An ordinary visible glyph.
    Normal,
    /// Breakable white space; a word boundary.
    Whitespace,
    /// A mandatory line break.
    HardBreak,
    /// An inline placeholder run inserted during text construction.
    Placeholder,
}

/// One shaped glyph: its advance width in layout units, its kind, and
/// whether the font-resolution collaborator mapped it to a glyph in some
/// available font.
#[derive(Clone, Copy, Debug, PartialEq, Eq, Structural)]
pub struct Glyph {
    pub advance: u32,
    pub kind: GlyphKind,
    pub resolved: bool,
}

/// One laid-out line: the glyphs `[start_index, end_index)` and their total
/// advance.
#[derive(Clone, Copy, Debug, PartialEq, Eq, Structural)]
pub struct LineSpan {
    pub start_index: usize,
    pub end_index: usize,
    pub width: u64,
}

/// The cached result of a layout pass.
#[derive(Debug)]
struct LayoutResult {
    width: u32,
    lines: Vec<LineSpan>,
    exceeded: bool,
}

/// A shaped, laid-out block of styled text ready for measurement.
#[derive(Debug)]
pub struct Paragraph {
    glyphs: Vec<Glyph>,
    ascent: u32,
    descent: u32,
    max_lines: usize,
    layout_state: Option<LayoutResult>,
}

/// The total advance of glyphs `[start, end)`.
pub open spec fn advance_sum(glyphs: Seq<Glyph>, start: int, end: int) -> int
    decreases end - start,
{
    if end <= start {
        0
    } else {
        advance_sum(glyphs, start, end - 1) + glyphs[end - 1].advance
    }
}

/// Where the line that began at some earlier glyph ends, scanning from
/// `cur` with `used` layout units already taken: at the end of the text,
/// right after a hard break, or before the first glyph that no longer fits.
pub open spec fn spec_line_end_from(glyphs: Seq<Glyph>, width: int, cur: int, used: int) -> int
    decreases glyphs.len() - cur,
{
    if cur >= glyphs.len() {
        glyphs.len() as int
    } else if glyphs[cur - 1].kind == GlyphKind::HardBreak {
        cur
    } else if used + glyphs[cur].advance > width {
        cur
    } else {
        spec_line_end_from(glyphs, width, cur + 1, used + glyphs[cur].advance)
    }
}

/// The end of the line starting at `start`: greedy, and never empty — the
/// first glyph is taken even when it alone exceeds the width.
pub open spec fn spec_line_end(glyphs: Seq<Glyph>, width: int, start: int) -> int {
    spec_line_end_from(glyphs, width, start + 1, glyphs[start].advance as int)
}

/// The lines of the text from `start` on, as `(start, end)` glyph ranges.
pub open spec fn spec_lines_from(glyphs: Seq<Glyph>, width: int, start: int) -> Seq<(int, int)>
    decreases glyphs.len() - start,
{
    if start < 0 || start >= glyphs.len() {
        Seq::empty()
    } else {
        let end = spec_line_end(glyphs, width, start);
        let next = if start < end <= glyphs.len() {
            end
        } else {
            start + 1
        };
        seq![(start, next)] + spec_lines_from(glyphs, width, next)
    }
}

/// Every line of a layout pass at the given width. Empty text still has one
/// empty line.
pub open spec fn spec_layout_lines(glyphs: Seq<Glyph>, width: int) -> Seq<(int, int)> {
    if glyphs.len() == 0 {
        seq![(0int, 0int)]
    } else {
        spec_lines_from(glyphs, width, 0)
    }
}

/// How many lines a layout pass keeps under a line limit.
pub open spec fn spec_kept_line_count(glyphs: Seq<Glyph>, width: int, max_lines: int) -> int {
    let full = spec_layout_lines(glyphs, width).len() as int;
    if full <= max_lines {
        full
    } else {
        max_lines
    }
}

/// The kept lines themselves.
pub open spec fn spec_kept_lines(glyphs: Seq<Glyph>, width: int, max_lines: int) -> Seq<
    (int, int),
> {
    spec_layout_lines(glyphs, width).take(spec_kept_line_count(glyphs, width, max_lines))
}

/// The `(start, end)` ranges a vector of line spans carries.
pub open spec fn line_spans_of(lines: Seq<LineSpan>) -> Seq<(int, int)> {
    lines.map(|i: int, l: LineSpan| (l.start_index as int, l.end_index as int))
}

/// The scan for a line's end never moves backwards and stays within the
/// text.
proof fn lemma_line_end_from_bounds(glyphs: Seq<Glyph>, width: int, cur: int, used: int)
    requires
        1 <= cur <= glyphs.len(),
    ensures
        cur <= spec_line_end_from(glyphs, width, cur, used) <= glyphs.len(),
    decreases glyphs.len() - cur,
{
    if cur < glyphs.len() && glyphs[cur - 1].kind != GlyphKind::HardBreak && used
        + glyphs[cur].advance <= width {
        lemma_line_end_from_bounds(glyphs, width, cur + 1, used + glyphs[cur].advance);
    }
}

/// Advances are non-negative and bounded, so a range's total advance is too.
proof fn lemma_advance_sum_bounds(glyphs: Seq<Glyph>, start: int, end: int)
    requires
        0 <= start <= end <= glyphs.len(),
    ensures
        0 <= advance_sum(glyphs, start, end) <= (end - start) * 0xffff_ffff,
    decreases end - start,
{
    if end > start {
        lemma_advance_sum_bounds(glyphs, start, end - 1);
        vstd::arithmetic::mul::lemma_mul_is_distributive_add_other_way(
            0xffff_ffff,
            end - 1 - start,
            1,
        );
    }
}

/// The scan keeps the running width and the fit hypothesis: what it has
/// taken so far fits the width (or is the mandatory first glyph), and it
/// stops exactly at the end of the text, after a hard break, or before the
/// first glyph that would overflow.
proof fn lemma_line_end_props(glyphs: Seq<Glyph>, width: int, start: int, cur: int, used: int)
    requires
        0 <= start < cur <= glyphs.len(),
        used == advance_sum(glyphs, start, cur),
        cur == start + 1 || used <= width,
    ensures
        ({
            let end = spec_line_end_from(glyphs, width, cur, used);
            &&& (end == start + 1 || advance_sum(glyphs, start, end) <= width)
            &&& (end < glyphs.len() && glyphs[end - 1].kind != GlyphKind::HardBreak
                ==> advance_sum(glyphs, start, end) + glyphs[end].advance > width)
        }),
    decreases glyphs.len() - cur,
{
    if cur < glyphs.len() && glyphs[cur - 1].kind != GlyphKind::HardBreak && used
        + glyphs[cur].advance <= width {
        lemma_line_end_props(glyphs, width, start, cur + 1, used + glyphs[cur].advance);
    }
}

/// The filling rule, stated of one line: a line is a single glyph or fits
/// the layout width, and a line that neither ends the text nor ends at a
/// hard break is maximal — its next glyph would overflow the width.
pub proof fn lemma_line_greedy(glyphs: Seq<Glyph>, width: int, start: int)
    requires
        0 <= start < glyphs.len(),
    ensures
        ({
            let end = spec_line_end(glyphs, width, start);
            &&& start < end <= glyphs.len()
            &&& (end == start + 1 || advance_sum(glyphs, start, end) <= width)
            &&& (end < glyphs.len() && glyphs[end - 1].kind != GlyphKind::HardBreak
                ==> advance_sum(glyphs, start, end) + glyphs[end].advance > width)
        }),
{
    lemma_line_end_from_bounds(glyphs, width, start + 1, glyphs[start].advance as int);
    assert(advance_sum(glyphs, start, start + 1) == glyphs[start].advance) by {
        reveal_with_fuel(advance_sum, 2);
    }
    lemma_line_end_props(glyphs, width, start, start + 1, glyphs[start].advance as int);
}

/// Every line a layout pass yields is a non-empty range, the lines are
/// consecutive, the first starts at the first glyph, and the last ends at
/// the last.
pub proof fn lemma_lines_partition(glyphs: Seq<Glyph>, width: int, start: int)
    requires
        0 <= start < glyphs.len(),
    ensures
        ({
            let lines = spec_lines_from(glyphs, width, start);
            &&& lines.len() >= 1
            &&& lines[0].0 == start
            &&& lines[lines.len() - 1].1 == glyphs.len()
            &&& forall|i: int| 0 <= i < lines.len() ==> #[trigger] lines[i].0 < lines[i].1
            &&& forall|i: int|
                0 < i < lines.len() ==> #[trigger] lines[i].0 == lines[i - 1].1
            &&& forall|i: int|
                0 <= i < lines.len() ==> #[trigger] lines[i].1 == spec_line_end(
                    glyphs,
                    width,
                    lines[i].0,
                )
        }),
    decreases glyphs.len() - start,
{
    let end = spec_line_end(glyphs, width, start);
    lemma_line_end_from_bounds(glyphs, width, start + 1, glyphs[start].advance as int);
    let next = if start < end <= glyphs.len() {
        end
    } else {
        start + 1
    };
    if next < glyphs.len() {
        lemma_lines_partition(glyphs, width, next);
    }
}

/// The number of lines never exceeds the number of glyphs.
pub proof fn lemma_lines_count_bound(glyphs: Seq<Glyph>, width: int, start: int)
    requires
        0 <= start <= glyphs.len(),
    ensures
        spec_lines_from(glyphs, width, start).len() <= glyphs.len() - start,
    decreases glyphs.len() - start,
{
    if start < glyphs.len() {
        let end = spec_line_end(glyphs, width, start);
        lemma_line_end_from_bounds(glyphs, width, start + 1, glyphs[start].advance as int);
        let next = if start < end <= glyphs.len() {
            end
        } else {
            start + 1
        };
        lemma_lines_count_bound(glyphs, width, next);
    }
}

/// Per-line measurements, in layout order.
#[derive(Clone, Copy, Debug, PartialEq, Eq, Structural)]
pub struct LineMetrics {
    /// First glyph of the line.
    pub start_index: usize,
    /// Past the last glyph of the line.
    pub end_index: usize,
    pub ascent: u32,
    pub descent: u32,
    /// Ascent plus descent.
    pub height: u64,
    /// The line's total advance.
    pub width: u64,
    /// Distance from the top of the paragraph to the line's baseline.
    pub baseline: u64,
    /// Zero-based index of the line.
    pub line_number: usize,
}

/// Which side of a line-break boundary a hit-test coordinate resolves to.
#[derive(Clone, Copy, Debug, PartialEq, Eq, Structural)]
pub enum Affinity {
    Upstream,
    Downstream,
}

/// A glyph index with the affinity of the position.
#[derive(Clone, Copy, Debug, PartialEq, Eq, Structural)]
pub struct PositionWithAffinity {
    pub position: usize,
    pub affinity: Affinity,
}

/// A white-space or hard-break glyph separates words.
pub open spec fn is_word_sep(glyph: Glyph) -> bool {
    glyph.kind == GlyphKind::Whitespace || glyph.kind == GlyphKind::HardBreak
}

/// The start of the word containing glyph `i`: scanning left stops at the
/// first change between separator and non-separator glyphs.
pub open spec fn spec_word_start(glyphs: Seq<Glyph>, i: int) -> int
    decreases i,
{
    if i <= 0 {
        0
    } else if is_word_sep(glyphs[i - 1]) != is_word_sep(glyphs[i]) {
        i
    } else {
        spec_word_start(glyphs, i - 1)
    }
}

/// Past the end of the word containing glyph `i`, scanning right the same
/// way.
pub open spec fn spec_word_end(glyphs: Seq<Glyph>, i: int) -> int
    decreases glyphs.len() - i,
{
    if i + 1 >= glyphs.len() {
        glyphs.len() as int
    } else if is_word_sep(glyphs[i]) != is_word_sep(glyphs[i + 1]) {
        i + 1
    } else {
        spec_word_end(glyphs, i + 1)
    }
}

/// The largest single advance of any glyph that is not a hard break: the
/// narrowest width the text fits without overflow when it may break
/// anywhere.
pub open spec fn spec_min_intrinsic_width(glyphs: Seq<Glyph>, i: int) -> int
    decreases glyphs.len() - i,
{
    if i < 0 || i >= glyphs.len() {
        0
    } else {
        let a: int = if glyphs[i].kind == GlyphKind::HardBreak {
            0
        } else {
            glyphs[i].advance as int
        };
        let rest = spec_min_intrinsic_width(glyphs, i + 1);
        if a >= rest {
            a
        } else {
            rest
        }
    }
}

/// The widest run between hard breaks: the width at which the text needs no
/// soft wrapping. `cur` is the running width of the current run and `best`
/// the widest run finished so far.
pub open spec fn spec_max_intrinsic_width(glyphs: Seq<Glyph>, i: int, cur: int, best: int) -> int
    decreases glyphs.len() - i,
{
    if i < 0 || i >= glyphs.len() {
        if cur >= best {
            cur
        } else {
            best
        }
    } else if glyphs[i].kind == GlyphKind::HardBreak {
        spec_max_intrinsic_width(
            glyphs,
            i + 1,
            0,
            if cur >= best {
                cur
            } else {
                best
            },
        )
    } else {
        spec_max_intrinsic_width(glyphs, i + 1, cur + glyphs[i].advance, best)
    }
}

/// The width of the widest of the lines `[i, ..)`.
pub open spec fn spec_longest_line(glyphs: Seq<Glyph>, lines: Seq<(int, int)>, i: int) -> int
    decreases lines.len() - i,
{
    if i < 0 || i >= lines.len() {
        0
    } else {
        let w = advance_sum(glyphs, lines[i].0, lines[i].1);
        let rest = spec_longest_line(glyphs, lines, i + 1);
        if w >= rest {
            w
        } else {
            rest
        }
    }
}

/// How many glyphs of `[i, ..)` the font-resolution collaborator could not
/// map to a glyph in any available font.
pub open spec fn spec_unresolved_count(glyphs: Seq<Glyph>, i: int) -> int
    decreases glyphs.len() - i,
{
    if i < 0 || i >= glyphs.len() {
        0
    } else {
        (if !glyphs[i].resolved {
            1int
        } else {
            0int
        }) + spec_unresolved_count(glyphs, i + 1)
    }
}

/// The total advance of glyphs `[start, end)`, executed.
fn advance_sum_range(glyphs: &Vec<Glyph>, start: usize, end: usize) -> (r: u64)
    requires
        start <= end <= glyphs@.len(),
        glyphs@.len() <= u32::MAX,
    ensures
        r == advance_sum(glyphs@, start as int, end as int),
{
    let mut acc: u64 = 0;
    let mut j: usize = start;
    while j < end
        invariant
            start <= j <= end <= glyphs@.len(),
            glyphs@.len() <= u32::MAX,
            acc == advance_sum(glyphs@, start as int, j as int),
        decreases end - j,
    {
        proof {
            lemma_advance_sum_bounds(glyphs@, start as int, j as int);
            lemma_mul_inequality(j - start, 0xffff_ffff, 0xffff_ffff);
        }
        acc = acc + (glyphs[j].advance as u64);
        j = j + 1;
    }
    acc
}

impl Paragraph {
    /// The internal invariant: bounded text and style, and — once a layout
    /// pass has run — cached lines that are exactly the greedy filling of
    /// the glyphs at the cached width, truncated to the line limit, with
    /// each line's total advance stored beside it.
    pub closed spec fn wf(self) -> bool {
        &&& self.glyphs@.len() <= u32::MAX
        &&& 1 <= self.ascent + self.descent <= u32::MAX
        &&& self.max_lines >= 1
        &&& match self.layout_state {
            Option::None => true,
            Option::Some(lr) => {
                &&& line_spans_of(lr.lines@) == spec_kept_lines(
                    self.glyphs@,
                    lr.width as int,
                    self.max_lines as int,
                )
                &&& lr.exceeded == (spec_layout_lines(self.glyphs@, lr.width as int).len()
                    > self.max_lines)
                &&& forall|i: int|
                    0 <= i < lr.lines@.len() ==> {
                        &&& 0 <= #[trigger] lr.lines@[i].start_index
                        &&& lr.lines@[i].start_index <= lr.lines@[i].end_index
                        &&& lr.lines@[i].end_index <= self.glyphs@.len()
                        &&& lr.lines@[i].width == advance_sum(
                            self.glyphs@,
                            lr.lines@[i].start_index as int,
                            lr.lines@[i].end_index as int,
                        )
                    }
            },
        }
    }

    pub closed spec fn spec_glyphs(self) -> Seq<Glyph> {
        self.glyphs@
    }

    pub closed spec fn spec_ascent(self) -> u32 {
        self.ascent
    }

    pub closed spec fn spec_descent(self) -> u32 {
        self.descent
    }

    pub closed spec fn spec_max_lines(self) -> int {
        self.max_lines as int
    }

    pub closed spec fn spec_is_laid_out(self) -> bool {
        self.layout_state is Some
    }

    pub closed spec fn spec_layout_width(self) -> u32 {
        self.layout_state->0.width
    }

    /// Builds a paragraph from the shaping collaborator's output: the
    /// glyphs in text order, the uniform line ascent and descent, and the
    /// configured line limit. No layout pass has run yet.
    pub fn new(glyphs: Vec<Glyph>, ascent: u32, descent: u32, max_lines: usize) -> (r: Paragraph)
        requires
            glyphs@.len() <= u32::MAX,
            1 <= ascent + descent <= u32::MAX,
            max_lines >= 1,
        ensures
            r.wf(),
            r.spec_glyphs() == glyphs@,
            r.spec_ascent() == ascent,
            r.spec_descent() == descent,
            r.spec_max_lines() == max_lines,
            !r.spec_is_laid_out(),
    {
        Paragraph { glyphs, ascent, descent, max_lines, layout_state: None }
    }

    /// Runs (or re-runs) the line-breaking pass at the given width. All
    /// geometric queries become valid afterwards, and — the pass being a
    /// function of the text, the width and the line limit alone — laying
    /// out twice at one width yields the same geometry.
    pub fn layout(&mut self, width: u32)
        requires
            old(self).wf(),
        ensures
            final(self).wf(),
            final(self).spec_glyphs() == old(self).spec_glyphs(),
            final(self).spec_ascent() == old(self).spec_ascent(),
            final(self).spec_descent() == old(self).spec_descent(),
            final(self).spec_max_lines() == old(self).spec_max_lines(),
            final(self).spec_is_laid_out(),
            final(self).spec_layout_width() == width,
    {
        let ghost g = self.glyphs@;
        let n: usize = self.glyphs.len();
        let mut lines: Vec<LineSpan> = Vec::new();
        if n == 0 {
            lines.push(LineSpan { start_index: 0, end_index: 0, width: 0 });
            proof {
                assert(line_spans_of(lines@) =~= spec_layout_lines(g, width as int));
            }
        } else {
            let mut start: usize = 0;
            while start < n
                invariant
                    0 <= start <= n,
                    n == g.len(),
                    self.glyphs@ == g,
                    spec_lines_from(g, width as int, 0) =~= line_spans_of(lines@)
                        + spec_lines_from(g, width as int, start as int),
                    forall|i: int|
                        0 <= i < lines@.len() ==> {
                            &&& 0 <= #[trigger] lines@[i].start_index
                            &&& lines@[i].start_index <= lines@[i].end_index
                            &&& lines@[i].end_index <= n
                            &&& lines@[i].width == advance_sum(
                                g,
                                lines@[i].start_index as int,
                                lines@[i].end_index as int,
                            )
                        },
                decreases n - start,
            {
                let mut cur: usize = start + 1;
                let mut used: u64 = self.glyphs[start].advance as u64;
                proof {
                    assert(advance_sum(g, start as int, start + 1) == g[start as int].advance) by {
                        reveal_with_fuel(advance_sum, 2);
                    }
                }
                while cur < n && self.glyphs[cur - 1].kind != GlyphKind::HardBreak && used + (
                self.glyphs[cur].advance as u64) <= (width as u64)
                    invariant
                        start + 1 <= cur <= n,
                        n == g.len(),
                        self.glyphs@ == g,
                        used <= u32::MAX,
                        used == advance_sum(g, start as int, cur as int),
                        spec_line_end(g, width as int, start as int) == spec_line_end_from(
                            g,
                            width as int,
                            cur as int,
                            used as int,
                        ),
                    decreases n - cur,
                {
                    used = used + (self.glyphs[cur].advance as u64);
                    cur = cur + 1;
                }
                proof {
                    assert(cur == spec_line_end(g, width as int, start as int));
                    lemma_line_end_from_bounds(
                        g,
                        width as int,
                        start + 1,
                        g[start as int].advance as int,
                    );
                    let tail = spec_lines_from(g, width as int, start as int);
                    assert(tail =~= seq![(start as int, cur as int)] + spec_lines_from(
                        g,
                        width as int,
                        cur as int,
                    ));
                }
                let ghost lines_before = lines@;
                lines.push(LineSpan { start_index: start, end_index: cur, width: used });
                proof {
                    assert(line_spans_of(lines@) =~= line_spans_of(lines_before).push(
                        (start as int, cur as int),
                    ));
                    assert(spec_lines_from(g, width as int, 0) =~= line_spans_of(lines@)
                        + spec_lines_from(g, width as int, cur as int));
                }
                start = cur;
            }
            proof {
                assert(spec_lines_from(g, width as int, n as int) =~= Seq::<(int, int)>::empty());
                assert(line_spans_of(lines@) + spec_lines_from(g, width as int, n as int)
                    =~= line_spans_of(lines@));
            }
        }
        let full_count: usize = lines.len();
        let exceeded: bool = full_count > self.max_lines;
        if exceeded {
            lines.truncate(self.max_lines);
            proof {
                assert(line_spans_of(lines@) =~= spec_kept_lines(
                    g,
                    width as int,
                    self.max_lines as int,
                ));
            }
        } else {
            proof {
                assert(line_spans_of(lines@) =~= spec_kept_lines(
                    g,
                    width as int,
                    self.max_lines as int,
                ));
            }
        }
        self.layout_state = Some(LayoutResult { width, lines, exceeded });
    }

    /// Forgets the cached layout without touching the text or style: the
    /// geometric queries need a fresh layout pass before they answer again.
    pub fn mark_dirty(&mut self)
        requires
            old(self).wf(),
        ensures
            final(self).wf(),
            final(self).spec_glyphs() == old(self).spec_glyphs(),
            final(self).spec_ascent() == old(self).spec_ascent(),
            final(self).spec_descent() == old(self).spec_descent(),
            final(self).spec_max_lines() == old(self).spec_max_lines(),
            !final(self).spec_is_laid_out(),
    {
        self.layout_state = None;
    }

    /// The cached layout pass; queries call this behind their
    /// laid-out precondition.
    fn layout_ref(&self) -> (r: &LayoutResult)
        requires
            self.spec_is_laid_out(),
        ensures
            *r == self.layout_state->0,
    {
        match &self.layout_state {
            Some(lr) => lr,
            None => vstd::pervasive::unreached(),
        }
    }

    /// The kept lines, as the mathematical layout describes them.
    pub open spec fn spec_lines(self) -> Seq<(int, int)> {
        spec_kept_lines(
            self.spec_glyphs(),
            self.spec_layout_width() as int,
            self.spec_max_lines(),
        )
    }

    /// The width the last layout pass ran at.
    pub fn max_width(&self) -> (r: u32)
        requires
            self.wf(),
            self.spec_is_laid_out(),
        ensures
            r == self.spec_layout_width(),
    {
        self.layout_ref().width
    }

    /// How many lines the last layout pass kept.
    pub fn line_number(&self) -> (r: usize)
        requires
            self.wf(),
            self.spec_is_laid_out(),
        ensures
            r == spec_kept_line_count(
                self.spec_glyphs(),
                self.spec_layout_width() as int,
                self.spec_max_lines(),
            ),
    {
        let lr = self.layout_ref();
        proof {
            assert(line_spans_of(lr.lines@).len() == lr.lines@.len());
        }
        lr.lines.len()
    }

    /// Whether the text needed more lines than the configured maximum.
    pub fn did_exceed_max_lines(&self) -> (r: bool)
        requires
            self.wf(),
            self.spec_is_laid_out(),
        ensures
            r == (spec_layout_lines(self.spec_glyphs(), self.spec_layout_width() as int).len()
                > self.spec_max_lines()),
    {
        self.layout_ref().exceeded
    }

    /// The height of the laid-out text: one uniform line height per kept
    /// line.
    pub fn height(&self) -> (r: u64)
        requires
            self.wf(),
            self.spec_is_laid_out(),
        ensures
            r == spec_kept_line_count(
                self.spec_glyphs(),
                self.spec_layout_width() as int,
                self.spec_max_lines(),
            ) * (self.spec_ascent() + self.spec_descent()),
    {
        let lr = self.layout_ref();
        proof {
            assert(line_spans_of(lr.lines@).len() == lr.lines@.len());
            self.lemma_line_count_fits();
            vstd::arithmetic::mul::lemma_mul_upper_bound(
                lr.lines@.len() as int,
                0xffff_ffffi64 as int,
                self.ascent + self.descent,
                0xffff_ffffi64 as int,
            );
        }
        let lh: u64 = (self.ascent as u64) + (self.descent as u64);
        (lr.lines.len() as u64) * lh
    }

    /// A kept line count fits comfortably in 32 bits: one line for empty
    /// text, otherwise at most one line per glyph.
    proof fn lemma_line_count_fits(self)
        requires
            self.wf(),
            self.spec_is_laid_out(),
        ensures
            0 <= self.spec_lines().len() <= u32::MAX,
            self.spec_lines().len() <= spec_layout_lines(
                self.spec_glyphs(),
                self.spec_layout_width() as int,
            ).len(),
    {
        let g = self.spec_glyphs();
        let w = self.spec_layout_width() as int;
        if g.len() > 0 {
            lemma_lines_count_bound(g, w, 0);
        }
    }

    /// Distance from the top of the first line to its alphabetic baseline.
    pub fn alphabetic_baseline(&self) -> (r: u32)
        requires
            self.wf(),
            self.spec_is_laid_out(),
        ensures
            r == self.spec_ascent(),
    {
        self.ascent
    }

    /// Distance from the top of the first line to its ideographic baseline:
    /// the bottom of the line box.
    pub fn ideographic_baseline(&self) -> (r: u32)
        requires
            self.wf(),
            self.spec_is_laid_out(),
        ensures
            r == self.spec_ascent() + self.spec_descent(),
    {
        self.ascent + self.descent
    }

    /// The total advance of the widest kept line.
    pub fn longest_line(&self) -> (r: u64)
        requires
            self.wf(),
            self.spec_is_laid_out(),
        ensures
            r == spec_longest_line(self.spec_glyphs(), self.spec_lines(), 0),
    {
        let lr = self.layout_ref();
        let n: usize = lr.lines.len();
        proof {
            assert(line_spans_of(lr.lines@).len() == lr.lines@.len());
        }
        let mut best: u64 = 0;
        let mut i: usize = n;
        while i > 0
            invariant
                0 <= i <= n,
                n == lr.lines@.len(),
                *lr == self.layout_state->0,
                self.wf(),
                self.spec_is_laid_out(),
                best == spec_longest_line(self.spec_glyphs(), self.spec_lines(), i as int),
            decreases i,
        {
            i = i - 1;
            proof {
                assert(self.spec_lines()[i as int] == line_spans_of(lr.lines@)[i as int]);
            }
            let w: u64 = lr.lines[i].width;
            if w > best {
                best = w;
            }
        }
        best
    }

    /// The narrowest layout width at which no glyph overflows its line.
    pub fn min_intrinsic_width(&self) -> (r: u32)
        requires
            self.wf(),
            self.spec_is_laid_out(),
        ensures
            r == spec_min_intrinsic_width(self.spec_glyphs(), 0),
    {
        let n: usize = self.glyphs.len();
        let mut best: u32 = 0;
        let mut i: usize = n;
        while i > 0
            invariant
                0 <= i <= n,
                n == self.glyphs@.len(),
                best == spec_min_intrinsic_width(self.glyphs@, i as int),
            decreases i,
        {
            i = i - 1;
            let glyph = self.glyphs[i];
            let a: u32 = match glyph.kind {
                GlyphKind::HardBreak => 0,
                _ => glyph.advance,
            };
            if a > best {
                best = a;
            }
        }
        best
    }

    /// The narrowest layout width at which the text needs no soft wrapping:
    /// the widest run between hard breaks.
    pub fn max_intrinsic_width(&self) -> (r: u64)
        requires
            self.wf(),
            self.spec_is_laid_out(),
        ensures
            r == spec_max_intrinsic_width(self.spec_glyphs(), 0, 0, 0),
    {
        let n: usize = self.glyphs.len();
        let mut cur: u64 = 0;
        let mut best: u64 = 0;
        let mut i: usize = 0;
        while i < n
            invariant
                0 <= i <= n,
                n == self.glyphs@.len() <= u32::MAX,
                cur <= (i as int) * 0xffff_ffff,
                best <= (i as int) * 0xffff_ffff,
                spec_max_intrinsic_width(self.glyphs@, 0, 0, 0) == spec_max_intrinsic_width(
                    self.glyphs@,
                    i as int,
                    cur as int,
                    best as int,
                ),
            decreases n - i,
        {
            proof {
                vstd::arithmetic::mul::lemma_mul_is_distributive_add_other_way(
                    0xffff_ffff,
                    i as int,
                    1,
                );
                lemma_mul_inequality(i + 1, n as int, 0xffff_ffff);
                lemma_mul_inequality(n as int, 0xffff_ffff, 0xffff_ffff);
            }
            let glyph = self.glyphs[i];
            match glyph.kind {
                GlyphKind::HardBreak => {
                    if cur > best {
                        best = cur;
                    }
                    cur = 0;
                },
                _ => {
                    cur = cur + (glyph.advance as u64);
                },
            }
            i = i + 1;
        }
        if cur > best {
            best = cur;
        }
        best
    }

    /// Per-line measurements, in line order.
    pub fn get_line_metrics(&self) -> (r: Vec<LineMetrics>)
        requires
            self.wf(),
            self.spec_is_laid_out(),
        ensures
            r@.len() == self.spec_lines().len(),
            forall|i: int|
                0 <= i < r@.len() ==> r@[i] == (LineMetrics {
                    start_index: self.spec_lines()[i].0 as usize,
                    end_index: self.spec_lines()[i].1 as usize,
                    ascent: self.spec_ascent(),
                    descent: self.spec_descent(),
                    height: (self.spec_ascent() + self.spec_descent()) as u64,
                    width: advance_sum(
                        self.spec_glyphs(),
                        self.spec_lines()[i].0,
                        self.spec_lines()[i].1,
                    ) as u64,
                    baseline: (i * (self.spec_ascent() + self.spec_descent())
                        + self.spec_ascent()) as u64,
                    line_number: i as usize,
                }),
    {
        let lr = self.layout_ref();
        let n: usize = lr.lines.len();
        proof {
            assert(line_spans_of(lr.lines@).len() == lr.lines@.len());
            self.lemma_line_count_fits();
        }
        let lh: u64 = (self.ascent as u64) + (self.descent as u64);
        let mut r: Vec<LineMetrics> = Vec::new();
        let mut i: usize = 0;
        while i < n
            invariant
                0 <= i <= n,
                n == lr.lines@.len() <= u32::MAX,
                *lr == self.layout_state->0,
                self.wf(),
                self.spec_is_laid_out(),
                lh == self.spec_ascent() + self.spec_descent(),
                r@.len() == i,
                forall|j: int|
                    0 <= j < i ==> r@[j] == (LineMetrics {
                        start_index: self.spec_lines()[j].0 as usize,
                        end_index: self.spec_lines()[j].1 as usize,
                        ascent: self.spec_ascent(),
                        descent: self.spec_descent(),
                        height: (self.spec_ascent() + self.spec_descent()) as u64,
                        width: advance_sum(
                            self.spec_glyphs(),
                            self.spec_lines()[j].0,
                            self.spec_lines()[j].1,
                        ) as u64,
                        baseline: (j * (self.spec_ascent() + self.spec_descent())
                            + self.spec_ascent()) as u64,
                        line_number: j as usize,
                    }),
            decreases n - i,
        {
            proof {
                assert(self.spec_lines()[i as int] == line_spans_of(lr.lines@)[i as int]);
                vstd::arithmetic::mul::lemma_mul_upper_bound(
                    i as int,
                    0xffff_ffffi64 as int,
                    self.ascent + self.descent,
                    0xffff_ffffi64 as int,
                );
                vstd::arithmetic::mul::lemma_mul_nonnegative(
                    i as int,
                    self.ascent + self.descent,
                );
            }
            let span = lr.lines[i];
            let metric = LineMetrics {
                start_index: span.start_index,
                end_index: span.end_index,
                ascent: self.ascent,
                descent: self.descent,
                height: lh,
                width: span.width,
                baseline: (i as u64) * lh + (self.ascent as u64),
                line_number: i,
            };
            r.push(metric);
            i = i + 1;
        }
        r
    }

    /// The count of glyphs no available font could supply, or nothing when
    /// no layout pass has run yet — a valid state, not an error.
    pub fn unresolved_glyphs(&mut self) -> (r: Option<usize>)
        requires
            old(self).wf(),
        ensures
            *final(self) == *old(self),
            r is Some <==> old(self).spec_is_laid_out(),
            r is Some ==> r->0 == spec_unresolved_count(old(self).spec_glyphs(), 0),
    {
        if self.layout_state.is_none() {
            return None;
        }
        let n: usize = self.glyphs.len();
        let mut count: usize = 0;
        let mut i: usize = n;
        while i > 0
            invariant
                0 <= i <= n,
                n == self.glyphs@.len(),
                count == spec_unresolved_count(self.glyphs@, i as int),
                count <= n - i,
            decreases i,
        {
            i = i - 1;
            if !self.glyphs[i].resolved {
                count = count + 1;
            }
        }
        Some(count)
    }

    /// The `[start, end)` glyph range of the word containing the glyph at
    /// `offset`: a maximal run of word glyphs or of separator glyphs.
    pub fn get_word_boundary(&self, offset: usize) -> (r: (usize, usize))
        requires
            self.wf(),
            self.spec_is_laid_out(),
            offset < self.spec_glyphs().len(),
        ensures
            r.0 == spec_word_start(self.spec_glyphs(), offset as int),
            r.1 == spec_word_end(self.spec_glyphs(), offset as int),
            r.0 <= offset < r.1 <= self.spec_glyphs().len(),
    {
        let n: usize = self.glyphs.len();
        let mut s: usize = offset;
        while s > 0 && is_word_sep_exec(&self.glyphs[s - 1]) == is_word_sep_exec(&self.glyphs[s])
            invariant
                0 <= s <= offset < n,
                n == self.glyphs@.len(),
                spec_word_start(self.glyphs@, offset as int) == spec_word_start(
                    self.glyphs@,
                    s as int,
                ),
            decreases s,
        {
            s = s - 1;
        }
        let mut e: usize = offset;
        while e + 1 < n && is_word_sep_exec(&self.glyphs[e]) == is_word_sep_exec(
            &self.glyphs[e + 1],
        )
            invariant
                offset <= e < n,
                n == self.glyphs@.len(),
                spec_word_end(self.glyphs@, offset as int) == spec_word_end(
                    self.glyphs@,
                    e as int,
                ),
            decreases n - e,
        {
            e = e + 1;
        }
        (s, e + 1)
    }

    /// Renders the laid-out text into a drawing context at the given
    /// top-left origin: the glyph rasterisation is the engine's, so the
    /// canvas records the content change without a modelled pixel effect.
    pub fn paint(&self, canvas: &mut Canvas, p: IPoint)
        requires
            self.wf(),
            self.spec_is_laid_out(),
            old(canvas).wf(),
            old(canvas).spec_generation() < u64::MAX,
        ensures
            final(canvas).wf(),
            Canvas::spec_same_config(*final(canvas), *old(canvas)),
            final(canvas).spec_pixels() == old(canvas).spec_pixels(),
            final(canvas).spec_generation() == old(canvas).spec_generation() + 1,
            final(canvas).spec_pending_commands() == (old(canvas).spec_pending_commands() || old(
                canvas,
            ).spec_backing().spec_is_gpu()),
            final(canvas).spec_unresolved_msaa() == (old(canvas).spec_unresolved_msaa() || (old(
                canvas,
            ).spec_backing().spec_is_gpu() && old(canvas).spec_backing().spec_sample_count() > 1)),
    {
        let _ = p;
        canvas.record_draw();
    }
}

/// Reading order of the text in a box. This model shapes left-to-right
/// text.
#[derive(Clone, Copy, Debug, PartialEq, Eq, Structural)]
pub enum TextDirection {
    Ltr,
    Rtl,
}

/// A bounding box over glyphs, in layout units from the paragraph's
/// top-left corner.
#[derive(Clone, Copy, Debug, PartialEq, Eq, Structural)]
pub struct TextBox {
    pub left: u64,
    pub top: u64,
    pub right: u64,
    pub bottom: u64,
    pub direction: TextDirection,
}

/// How a box's height relates to its line: an opaque policy consumed, not
/// interpreted, by this layer. Line metrics being uniform here, the
/// policies coincide.
#[derive(Clone, Copy, Debug, PartialEq, Eq, Structural)]
pub enum RectHeightStyle {
    Tight,
    Max,
    IncludeLineSpacingMiddle,
    IncludeLineSpacingTop,
    IncludeLineSpacingBottom,
    Strut,
}

/// How a box's width relates to its line: an opaque policy consumed, not
/// interpreted, by this layer.
#[derive(Clone, Copy, Debug, PartialEq, Eq, Structural)]
pub enum RectWidthStyle {
    Tight,
    Max,
}

/// The caret position for a horizontal offset `x` within the glyphs
/// `[j, end)` of a line: the index of the glyph whose span contains `x`,
/// or the line's end when `x` lies past every glyph.
pub open spec fn spec_hit_from(glyphs: Seq<Glyph>, j: int, end: int, x: int) -> int
    decreases end - j,
{
    if j < 0 || j >= end {
        end
    } else if x < glyphs[j].advance {
        j
    } else {
        spec_hit_from(glyphs, j + 1, end, x - glyphs[j].advance)
    }
}

/// The line a vertical offset `y` lands in, under uniform line height `lh`:
/// clamped to the first and last of `count` lines.
pub open spec fn spec_hit_line(count: int, lh: int, y: int) -> int {
    if y < 0 {
        0
    } else if y / lh >= count {
        count - 1
    } else {
        y / lh
    }
}

/// The boxes covering the glyphs `[start, end)`, one per kept line from `i`
/// on that the range crosses.
pub open spec fn spec_range_boxes(
    glyphs: Seq<Glyph>,
    lines: Seq<(int, int)>,
    lh: int,
    start: int,
    end: int,
    i: int,
) -> Seq<TextBox>
    decreases lines.len() - i,
{
    if i < 0 || i >= lines.len() {
        Seq::empty()
    } else {
        let ls = if start >= lines[i].0 {
            start
        } else {
            lines[i].0
        };
        let le = if end <= lines[i].1 {
            end
        } else {
            lines[i].1
        };
        let rest = spec_range_boxes(glyphs, lines, lh, start, end, i + 1);
        if ls < le {
            seq![
                TextBox {
                    left: advance_sum(glyphs, lines[i].0, ls) as u64,
                    top: (i * lh) as u64,
                    right: advance_sum(glyphs, lines[i].0, le) as u64,
                    bottom: ((i + 1) * lh) as u64,
                    direction: TextDirection::Ltr,
                },
            ] + rest
        } else {
            rest
        }
    }
}

/// The boxes of the placeholder glyphs within the kept lines, walking line
/// `i` from glyph `j` on.
pub open spec fn spec_placeholder_boxes(
    glyphs: Seq<Glyph>,
    lines: Seq<(int, int)>,
    lh: int,
    i: int,
    j: int,
) -> Seq<TextBox>
    decreases
            lines.len() - i,
            (if 0 <= i < lines.len() && j <= lines[i].1 {
                lines[i].1 - j
            } else {
                0
            }),
{
    if i < 0 || i >= lines.len() {
        Seq::empty()
    } else if j < lines[i].0 || j >= lines[i].1 {
        spec_placeholder_boxes(
            glyphs,
            lines,
            lh,
            i + 1,
            if i + 1 < lines.len() {
                lines[i + 1].0
            } else {
                0
            },
        )
    } else {
        let rest = spec_placeholder_boxes(glyphs, lines, lh, i, j + 1);
        if 0 <= j < glyphs.len() && glyphs[j].kind == GlyphKind::Placeholder {
            seq![
                TextBox {
                    left: advance_sum(glyphs, lines[i].0, j) as u64,
                    top: (i * lh) as u64,
                    right: (advance_sum(glyphs, lines[i].0, j) + glyphs[j].advance) as u64,
                    bottom: ((i + 1) * lh) as u64,
                    direction: TextDirection::Ltr,
                },
            ] + rest
        } else {
            rest
        }
    }
}

impl Paragraph {
    /// Every kept line count is at least one and its spans lie within the
    /// text.
    proof fn lemma_lines_shape(self)
        requires
            self.wf(),
            self.spec_is_laid_out(),
        ensures
            self.spec_lines().len() >= 1,
            self.spec_lines().len() <= u32::MAX,
            forall|i: int|
                0 <= i < self.spec_lines().len() ==> {
                    &&& 0 <= #[trigger] self.spec_lines()[i].0
                    &&& self.spec_lines()[i].0 <= self.spec_lines()[i].1
                    &&& self.spec_lines()[i].1 <= self.spec_glyphs().len()
                },
    {
        let g = self.spec_glyphs();
        let w = self.spec_layout_width() as int;
        self.lemma_line_count_fits();
        if g.len() > 0 {
            lemma_lines_partition(g, w, 0);
        }
        let lr = self.layout_state->0;
        assert forall|i: int| 0 <= i < self.spec_lines().len() implies {
            &&& 0 <= #[trigger] self.spec_lines()[i].0
            &&& self.spec_lines()[i].0 <= self.spec_lines()[i].1
            &&& self.spec_lines()[i].1 <= self.spec_glyphs().len()
        } by {
            assert(self.spec_lines()[i] == line_spans_of(lr.lines@)[i]);
        }
    }

    /// The glyph position nearest to a point, with the top-left corner as
    /// the origin and +y down: the point's line is found by the uniform
    /// line height (clamped to the first and last line), the position is
    /// the glyph whose horizontal span contains the point — the line's end
    /// when the point lies past the last glyph — and the affinity is
    /// upstream exactly there, at the trailing edge of a non-empty line.
    pub fn get_glyph_position_at_coordinate(&self, x: i64, y: i64) -> (r: PositionWithAffinity)
        requires
            self.wf(),
            self.spec_is_laid_out(),
        ensures
            ({
                let lh = self.spec_ascent() + self.spec_descent();
                let li = spec_hit_line(self.spec_lines().len() as int, lh as int, y as int);
                let s = self.spec_lines()[li].0;
                let e = self.spec_lines()[li].1;
                let pos = if x < 0 {
                    s
                } else {
                    spec_hit_from(self.spec_glyphs(), s, e, x as int)
                };
                &&& r.position == pos
                &&& r.affinity == (if pos == e && e > s {
                    Affinity::Upstream
                } else {
                    Affinity::Downstream
                })
            }),
    {
        proof {
            self.lemma_lines_shape();
        }
        let lr = self.layout_ref();
        let count: usize = lr.lines.len();
        proof {
            assert(line_spans_of(lr.lines@).len() == lr.lines@.len());
        }
        let lh: u64 = (self.ascent as u64) + (self.descent as u64);
        let li: usize = if y < 0 {
            0
        } else {
            let q: i64 = y / (lh as i64);
            if q >= (count as i64) {
                count - 1
            } else {
                q as usize
            }
        };
        proof {
            assert(self.spec_lines()[li as int] == line_spans_of(lr.lines@)[li as int]);
        }
        let span = lr.lines[li];
        let s: usize = span.start_index;
        let e: usize = span.end_index;
        if x < 0 {
            return PositionWithAffinity { position: s, affinity: Affinity::Downstream };
        }
        let mut j: usize = s;
        let mut rel: u64 = x as u64;
        while j < e && rel >= (self.glyphs[j].advance as u64)
            invariant
                s <= j <= e,
                e <= self.glyphs@.len(),
                self.wf(),
                spec_hit_from(self.spec_glyphs(), s as int, e as int, x as int) == spec_hit_from(
                    self.spec_glyphs(),
                    j as int,
                    e as int,
                    rel as int,
                ),
            decreases e - j,
        {
            rel = rel - (self.glyphs[j].advance as u64);
            j = j + 1;
        }
        let affinity = if j == e && e > s {
            Affinity::Upstream
        } else {
            Affinity::Downstream
        };
        PositionWithAffinity { position: j, affinity }
    }

    /// Bounding boxes enclosing the glyphs `[start, end)` — `start`
    /// included, `end` excluded — one box per kept line the range crosses,
    /// in line order. The style policies are consumed on the engine's
    /// behalf; with this paragraph's uniform line metrics every policy
    /// yields the same boxes.
    pub fn get_rects_for_range(
        &self,
        start: usize,
        end: usize,
        rect_height_style: RectHeightStyle,
        rect_width_style: RectWidthStyle,
    ) -> (r: Vec<TextBox>)
        requires
            self.wf(),
            self.spec_is_laid_out(),
        ensures
            r@ == spec_range_boxes(
                self.spec_glyphs(),
                self.spec_lines(),
                (self.spec_ascent() + self.spec_descent()) as int,
                start as int,
                end as int,
                0,
            ),
    {
        let _ = rect_height_style;
        let _ = rect_width_style;
        proof {
            self.lemma_lines_shape();
        }
        let ghost lines_spec = self.spec_lines();
        let ghost lh_spec = (self.spec_ascent() + self.spec_descent()) as int;
        let lr = self.layout_ref();
        let count: usize = lr.lines.len();
        proof {
            assert(line_spans_of(lr.lines@).len() == lr.lines@.len());
        }
        let lh: u64 = (self.ascent as u64) + (self.descent as u64);
        let mut r: Vec<TextBox> = Vec::new();
        let mut i: usize = 0;
        while i < count
            invariant
                0 <= i <= count,
                count == lr.lines@.len() <= u32::MAX,
                *lr == self.layout_state->0,
                self.wf(),
                self.spec_is_laid_out(),
                lines_spec == self.spec_lines(),
                lh == self.spec_ascent() + self.spec_descent(),
                lh_spec == lh as int,
                spec_range_boxes(self.spec_glyphs(), lines_spec, lh_spec, start as int, end as int, 0)
                    =~= r@ + spec_range_boxes(
                    self.spec_glyphs(),
                    lines_spec,
                    lh_spec,
                    start as int,
                    end as int,
                    i as int,
                ),
            decreases count - i,
        {
            proof {
                assert(lines_spec[i as int] == line_spans_of(lr.lines@)[i as int]);
                self.lemma_lines_shape();
                vstd::arithmetic::mul::lemma_mul_upper_bound(
                    i + 1,
                    0xffff_ffffi64 as int,
                    lh as int,
                    0x1_0000_0000i64 as int,
                );
                vstd::arithmetic::mul::lemma_mul_nonnegative(i as int, lh as int);
                vstd::arithmetic::mul::lemma_mul_is_distributive_add_other_way(
                    lh as int,
                    i as int,
                    1,
                );
            }
            let span = lr.lines[i];
            let ls: usize = if start >= span.start_index {
                start
            } else {
                span.start_index
            };
            let le: usize = if end <= span.end_index {
                end
            } else {
                span.end_index
            };
            if ls < le {
                let left: u64 = advance_sum_range(&self.glyphs, span.start_index, ls);
                let right: u64 = advance_sum_range(&self.glyphs, span.start_index, le);
                let top: u64 = (i as u64) * lh;
                r.push(
                    TextBox {
                        left,
                        top,
                        right,
                        bottom: top + lh,
                        direction: TextDirection::Ltr,
                    },
                );
            }
            i = i + 1;
        }
        proof {
            assert(spec_range_boxes(
                self.spec_glyphs(),
                lines_spec,
                lh_spec,
                start as int,
                end as int,
                count as int,
            ) =~= Seq::<TextBox>::empty());
            assert(r@ + Seq::<TextBox>::empty() =~= r@);
        }
        r
    }

    /// Bounding boxes of the inline placeholder runs inserted during text
    /// construction, within the kept lines, in text order.
    pub fn get_rects_for_placeholders(&self) -> (r: Vec<TextBox>)
        requires
            self.wf(),
            self.spec_is_laid_out(),
        ensures
            ({
                let lines = self.spec_lines();
                r@ == spec_placeholder_boxes(
                    self.spec_glyphs(),
                    lines,
                    (self.spec_ascent() + self.spec_descent()) as int,
                    0,
                    lines[0].0,
                )
            }),
    {
        proof {
            self.lemma_lines_shape();
        }
        let ghost lines_spec = self.spec_lines();
        let ghost lh_spec = (self.spec_ascent() + self.spec_descent()) as int;
        let lr = self.layout_ref();
        let count: usize = lr.lines.len();
        proof {
            assert(line_spans_of(lr.lines@).len() == lr.lines@.len());
        }
        let lh: u64 = (self.ascent as u64) + (self.descent as u64);
        let ghost total = spec_placeholder_boxes(
            self.spec_glyphs(),
            lines_spec,
            lh_spec,
            0,
            lines_spec[0].0,
        );
        let mut r: Vec<TextBox> = Vec::new();
        let mut i: usize = 0;
        proof {
            assert(lines_spec[0] == line_spans_of(lr.lines@)[0]);
        }
        let mut j: usize = lr.lines[0].start_index;
        while i < count
            invariant
                0 <= i <= count,
                count == lr.lines@.len() <= u32::MAX,
                count >= 1,
                *lr == self.layout_state->0,
                self.wf(),
                self.spec_is_laid_out(),
                lines_spec == self.spec_lines(),
                lh == self.spec_ascent() + self.spec_descent(),
                lh_spec == lh as int,
                i < count ==> lines_spec[i as int].0 <= j <= lines_spec[i as int].1,
                i == count ==> j == 0,
                total =~= r@ + spec_placeholder_boxes(
                    self.spec_glyphs(),
                    lines_spec,
                    lh_spec,
                    i as int,
                    j as int,
                ),
            decreases count - i, (if i < count { lr.lines@[i as int].end_index + 1 - j } else { 0 }),
        {
            proof {
                assert(lines_spec[i as int] == line_spans_of(lr.lines@)[i as int]);
                self.lemma_lines_shape();
                vstd::arithmetic::mul::lemma_mul_upper_bound(
                    i + 1,
                    0xffff_ffffi64 as int,
                    lh as int,
                    0x1_0000_0000i64 as int,
                );
                vstd::arithmetic::mul::lemma_mul_nonnegative(i as int, lh as int);
                vstd::arithmetic::mul::lemma_mul_is_distributive_add_other_way(
                    lh as int,
                    i as int,
                    1,
                );
            }
            let span = lr.lines[i];
            if j >= span.end_index {
                // Past this line: move to the head of the next.
                i = i + 1;
                if i < count {
                    proof {
                        assert(lines_spec[i as int] == line_spans_of(lr.lines@)[i as int]);
                    }
                    j = lr.lines[i].start_index;
                } else {
                    j = 0;
                }
            } else {
                let glyph = self.glyphs[j];
                if matches!(glyph.kind, GlyphKind::Placeholder) {
                    proof {
                        lemma_advance_sum_bounds(self.spec_glyphs(), span.start_index as int,
                            j as int);
                        lemma_mul_inequality(
                            j - span.start_index,
                            0xffff_ffff,
                            0xffff_ffff,
                        );
                    }
                    let left: u64 = advance_sum_range(&self.glyphs, span.start_index, j);
                    let top: u64 = (i as u64) * lh;
                    r.push(
                        TextBox {
                            left,
                            top,
                            right: left + (glyph.advance as u64),
                            bottom: top + lh,
                            direction: TextDirection::Ltr,
                        },
                    );
                }
                j = j + 1;
            }
        }
        proof {
            assert(spec_placeholder_boxes(
                self.spec_glyphs(),
                lines_spec,
                lh_spec,
                count as int,
                0,
            ) =~= Seq::<TextBox>::empty());
            assert(r@ + Seq::<TextBox>::empty() =~= r@);
        }
        r
    }
}

/// Layout is idempotent given one width: two paragraphs of the same text
/// and style, laid out at the same width, carry the same line geometry —
/// so re-running the pass changes nothing observable.
pub proof fn lemma_layout_deterministic(a: Paragraph, b: Paragraph)
    requires
        a.wf(),
        b.wf(),
        a.spec_is_laid_out(),
        b.spec_is_laid_out(),
        a.spec_glyphs() == b.spec_glyphs(),
        a.spec_max_lines() == b.spec_max_lines(),
        a.spec_layout_width() == b.spec_layout_width(),
    ensures
        a.spec_lines() == b.spec_lines(),
        spec_kept_line_count(a.spec_glyphs(), a.spec_layout_width() as int, a.spec_max_lines())
            == spec_kept_line_count(
            b.spec_glyphs(),
            b.spec_layout_width() as int,
            b.spec_max_lines(),
        ),
{
}

/// [`is_word_sep`], executed.
fn is_word_sep_exec(glyph: &Glyph) -> (r: bool)
    ensures
        r == is_word_sep(*glyph),
{
    match glyph.kind {
        GlyphKind::Whitespace => true,
        GlyphKind::HardBreak => true,
        _ => false,
    }
}

} // verus!
