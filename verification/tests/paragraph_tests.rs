use skia_safe::geometry::{IPoint, ISize};
use skia_safe::image_info::{AlphaType, ColorSpace, ColorType, ImageInfo};
use skia_safe::paragraph::{
    Affinity, Glyph, GlyphKind, Paragraph, RectHeightStyle, RectWidthStyle, TextDirection,
};
use skia_safe::surface::Surface;

/// Shapes ASCII text the way a monospaced font collaborator would: one glyph
/// per character at a fixed advance, spaces breakable, newlines mandatory
/// breaks.
fn shape(text: &str, advance: u32) -> Vec<Glyph> {
    text.chars()
        .map(|c| Glyph {
            advance: if c == '\n' { 0 } else { advance },
            kind: match c {
                ' ' => GlyphKind::Whitespace,
                '\n' => GlyphKind::HardBreak,
                _ => GlyphKind::Normal,
            },
            resolved: true,
        })
        .collect()
}

#[test]
fn test_line_metrics() {
    let mut paragraph = Paragraph::new(
        shape(LOREM_IPSUM, 7),
        10,
        4,
        usize::MAX,
    );
    paragraph.layout(256);

    let line_metrics = paragraph.get_line_metrics();
    for (line, lm) in line_metrics.iter().enumerate() {
        println!("line {}: width: {}", line + 1, lm.width)
    }

    assert_eq!(line_metrics.len(), paragraph.line_number());
    assert!(line_metrics.iter().all(|lm| lm.width <= 256));
}

static LOREM_IPSUM: &str = "Lorem ipsum dolor sit amet, consectetur adipiscing elit. Curabitur at leo at nulla tincidunt placerat. Proin eget purus augue. Quisque et est ullamcorper, pellentesque felis nec, pulvinar massa. Aliquam imperdiet, nulla ut dictum euismod, purus dui pulvinar risus, eu suscipit elit neque ac est. Nullam eleifend justo quis placerat ultricies. Vestibulum ut elementum velit. Praesent et dolor sit amet purus bibendum mattis. Aliquam erat volutpat.";

#[test]
fn single_line_ascii_reports_one_line() {
    // Eleven glyphs of nine units lay out as one 99-unit line at width 100,
    // under the default (unbounded) line limit.
    let mut paragraph = Paragraph::new(shape("Lorem ipsum", 9), 12, 4, usize::MAX);
    paragraph.layout(100);
    assert_eq!(paragraph.line_number(), 1);
    assert!(!paragraph.did_exceed_max_lines());
}

#[test]
fn greedy_wrap_fills_lines() {
    // Four ten-unit glyphs at width 25: two glyphs fit a line, a third
    // would overflow it.
    let mut paragraph = Paragraph::new(shape("aaaa", 10), 10, 2, usize::MAX);
    paragraph.layout(25);
    assert_eq!(paragraph.line_number(), 2);
    let metrics = paragraph.get_line_metrics();
    assert_eq!(metrics[0].start_index, 0);
    assert_eq!(metrics[0].end_index, 2);
    assert_eq!(metrics[0].width, 20);
    assert_eq!(metrics[1].start_index, 2);
    assert_eq!(metrics[1].end_index, 4);
    // A lone glyph wider than the layout width still gets its line.
    let mut wide = Paragraph::new(shape("W", 50), 10, 2, usize::MAX);
    wide.layout(10);
    assert_eq!(wide.line_number(), 1);
    assert_eq!(wide.longest_line(), 50);
}

#[test]
fn hard_breaks_end_lines() {
    let mut paragraph = Paragraph::new(shape("ab\ncd", 10), 8, 4, usize::MAX);
    paragraph.layout(1000);
    assert_eq!(paragraph.line_number(), 2);
    let metrics = paragraph.get_line_metrics();
    assert_eq!(metrics[0].start_index, 0);
    assert_eq!(metrics[0].end_index, 3);
    assert_eq!(metrics[0].width, 20);
    assert_eq!(metrics[0].baseline, 8);
    assert_eq!(metrics[0].line_number, 0);
    assert_eq!(metrics[1].start_index, 3);
    assert_eq!(metrics[1].end_index, 5);
    assert_eq!(metrics[1].baseline, 20);
    assert_eq!(paragraph.height(), 24);
    assert_eq!(paragraph.alphabetic_baseline(), 8);
    assert_eq!(paragraph.ideographic_baseline(), 12);
}

#[test]
fn exceeding_the_line_limit_truncates() {
    let mut paragraph = Paragraph::new(shape("ab\ncd", 10), 8, 4, 1);
    paragraph.layout(1000);
    assert!(paragraph.did_exceed_max_lines());
    assert_eq!(paragraph.line_number(), 1);
    assert_eq!(paragraph.get_line_metrics().len(), 1);
}

#[test]
fn intrinsic_widths_measure_runs() {
    // "ab cd" is a 45-unit run (two tens, a five, two tens); "xyz" is 30.
    let mut paragraph = Paragraph::new(
        vec![
            Glyph { advance: 10, kind: GlyphKind::Normal, resolved: true },
            Glyph { advance: 10, kind: GlyphKind::Normal, resolved: true },
            Glyph { advance: 5, kind: GlyphKind::Whitespace, resolved: true },
            Glyph { advance: 10, kind: GlyphKind::Normal, resolved: true },
            Glyph { advance: 10, kind: GlyphKind::Normal, resolved: true },
            Glyph { advance: 0, kind: GlyphKind::HardBreak, resolved: true },
            Glyph { advance: 10, kind: GlyphKind::Normal, resolved: true },
            Glyph { advance: 10, kind: GlyphKind::Normal, resolved: true },
            Glyph { advance: 10, kind: GlyphKind::Normal, resolved: true },
        ],
        10,
        5,
        usize::MAX,
    );
    paragraph.layout(100);
    assert_eq!(paragraph.min_intrinsic_width(), 10);
    assert_eq!(paragraph.max_intrinsic_width(), 45);
    assert_eq!(paragraph.longest_line(), 45);
    assert_eq!(paragraph.max_width(), 100);
}

#[test]
fn layout_is_idempotent_at_one_width() {
    let mut paragraph = Paragraph::new(shape(LOREM_IPSUM, 7), 10, 4, usize::MAX);
    paragraph.layout(120);
    let first = paragraph.get_line_metrics();
    paragraph.layout(120);
    let second = paragraph.get_line_metrics();
    assert_eq!(first, second);
}

#[test]
fn word_boundaries_split_at_whitespace() {
    let glyphs = shape("ab cd", 10);
    let mut paragraph = Paragraph::new(glyphs, 10, 4, usize::MAX);
    paragraph.layout(1000);
    assert_eq!(paragraph.get_word_boundary(0), (0, 2));
    assert_eq!(paragraph.get_word_boundary(1), (0, 2));
    assert_eq!(paragraph.get_word_boundary(2), (2, 3));
    assert_eq!(paragraph.get_word_boundary(3), (3, 5));
    assert_eq!(paragraph.get_word_boundary(4), (3, 5));
}

#[test]
fn hit_testing_finds_glyphs_and_affinity() {
    let mut paragraph = Paragraph::new(shape("abcd", 10), 8, 4, usize::MAX);
    paragraph.layout(100);
    let hit = paragraph.get_glyph_position_at_coordinate(25, 5);
    assert_eq!(hit.position, 2);
    assert_eq!(hit.affinity, Affinity::Downstream);
    // Past the last glyph: the line's trailing edge, upstream.
    let tail = paragraph.get_glyph_position_at_coordinate(100, 5);
    assert_eq!(tail.position, 4);
    assert_eq!(tail.affinity, Affinity::Upstream);
    // Above and left of everything: the very first position.
    let origin = paragraph.get_glyph_position_at_coordinate(-5, -3);
    assert_eq!(origin.position, 0);
    assert_eq!(origin.affinity, Affinity::Downstream);

    // With two lines, the vertical coordinate picks the line.
    let mut two = Paragraph::new(shape("ab\ncd", 10), 8, 4, usize::MAX);
    two.layout(1000);
    let below = two.get_glyph_position_at_coordinate(0, 13);
    assert_eq!(below.position, 3);
    // Far below the last line: clamped to it.
    let deep = two.get_glyph_position_at_coordinate(0, 500);
    assert_eq!(deep.position, 3);
}

#[test]
fn rects_for_range_cover_lines() {
    let mut paragraph = Paragraph::new(shape("ab\ncd", 10), 8, 4, usize::MAX);
    paragraph.layout(1000);
    let boxes = paragraph.get_rects_for_range(1, 4, RectHeightStyle::Tight, RectWidthStyle::Tight);
    assert_eq!(boxes.len(), 2);
    assert_eq!(
        (boxes[0].left, boxes[0].top, boxes[0].right, boxes[0].bottom),
        (10, 0, 20, 12)
    );
    assert_eq!(boxes[0].direction, TextDirection::Ltr);
    assert_eq!(
        (boxes[1].left, boxes[1].top, boxes[1].right, boxes[1].bottom),
        (0, 12, 10, 24)
    );
    // An empty range yields no boxes.
    let none = paragraph.get_rects_for_range(2, 2, RectHeightStyle::Max, RectWidthStyle::Max);
    assert!(none.is_empty());
}

#[test]
fn rects_for_placeholders_find_inline_runs() {
    let mut paragraph = Paragraph::new(
        vec![
            Glyph { advance: 10, kind: GlyphKind::Normal, resolved: true },
            Glyph { advance: 15, kind: GlyphKind::Placeholder, resolved: true },
            Glyph { advance: 10, kind: GlyphKind::Normal, resolved: true },
        ],
        9,
        3,
        usize::MAX,
    );
    paragraph.layout(1000);
    let boxes = paragraph.get_rects_for_placeholders();
    assert_eq!(boxes.len(), 1);
    assert_eq!(
        (boxes[0].left, boxes[0].top, boxes[0].right, boxes[0].bottom),
        (10, 0, 25, 12)
    );
}

#[test]
fn unresolved_glyphs_need_a_layout_pass() {
    let mut glyphs = shape("abc", 10);
    glyphs[1].resolved = false;
    let mut paragraph = Paragraph::new(glyphs, 10, 4, usize::MAX);
    // Not shaped yet: a valid state, not an error.
    assert_eq!(paragraph.unresolved_glyphs(), None);
    paragraph.layout(100);
    assert_eq!(paragraph.unresolved_glyphs(), Some(1));
    // Invalidation brings the paragraph back to the unshaped state.
    paragraph.mark_dirty();
    assert_eq!(paragraph.unresolved_glyphs(), None);
}

#[test]
fn empty_text_still_has_one_line() {
    let mut paragraph = Paragraph::new(Vec::new(), 10, 4, usize::MAX);
    paragraph.layout(100);
    assert_eq!(paragraph.line_number(), 1);
    assert_eq!(paragraph.height(), 14);
    assert_eq!(paragraph.longest_line(), 0);
}

#[test]
fn paint_records_a_content_change() {
    let info = ImageInfo::new(
        ISize::new(8, 8),
        ColorType::Rgba8888,
        AlphaType::Premul,
        ColorSpace::Unspecified,
    );
    let mut surface = Surface::new_raster(&info, None, None).unwrap();
    let mut paragraph = Paragraph::new(shape("hi", 4), 6, 2, usize::MAX);
    paragraph.layout(8);
    let before = surface.generation_id();
    paragraph.paint(surface.canvas(), IPoint::new(0, 0));
    assert!(surface.generation_id() > before);
}
