use sari::{SourceMap, SourcePos, SourceSpan, Span};
use std::cmp::Ordering;

#[test]
fn span_cover_works() {
    let span_1 = Span::new(0, 4);
    let span_2 = Span::new(4, 8);

    assert_eq!(Span::cover(span_1, span_2), Span::new(0, 8));
    assert_eq!(Span::cover(span_2, span_1), Span::new(0, 8));
}

#[test]
fn source_pos_eq_works() {
    let pos_1 = SourcePos::new(4, 1, 5);
    let pos_2 = SourcePos::new(5, 1, 6);

    assert!(pos_1.eq(&pos_1));
    assert!(!pos_1.eq(&pos_2));
}

#[test]
fn source_pos_cmp_works() {
    let pos_1 = SourcePos::new(4, 1, 5);
    let pos_2 = SourcePos::new(5, 1, 6);
    let pos_3 = SourcePos::new(6, 1, 7);

    assert_eq!(pos_2.cmp(&pos_1), Ordering::Greater);
    assert_eq!(pos_2.cmp(&pos_2), Ordering::Equal);
    assert_eq!(pos_2.cmp(&pos_3), Ordering::Less);
}

#[test]
fn source_pos_partial_cmp_works() {
    let pos_1 = SourcePos::new(4, 1, 5);
    let pos_2 = SourcePos::new(5, 1, 6);
    let pos_3 = SourcePos::new(6, 1, 7);

    assert_eq!(pos_2.partial_cmp(&pos_1), Some(Ordering::Greater));
    assert_eq!(pos_2.partial_cmp(&pos_2), Some(Ordering::Equal));
    assert_eq!(pos_2.partial_cmp(&pos_3), Some(Ordering::Less));
}

#[test]
fn source_pos_format_works() {
    let pos = SourcePos::new(4, 1, 5);

    assert_eq!(pos.to_string(), "1:5");
}

#[test]
fn source_span_format_works() {
    let span = SourceSpan::new(SourcePos::new(4, 1, 5), SourcePos::new(8, 2, 3));

    assert_eq!(span.to_string(), "1:5-2:3");
}

#[test]
fn source_map_mapping() {
    let mut source_map = SourceMap::new();
    source_map.add_line_start(4);
    source_map.add_line_start(8);

    // line 1
    assert_eq!(
        source_map.map_span(Span::new(0, 2)),
        SourceSpan::new(SourcePos::new(0, 1, 1), SourcePos::new(2, 1, 3))
    );

    // line 2
    assert_eq!(
        source_map.map_span(Span::new(4, 6)),
        SourceSpan::new(SourcePos::new(4, 2, 1), SourcePos::new(6, 2, 3))
    );

    // line 3
    assert_eq!(
        source_map.map_span(Span::new(8, 10)),
        SourceSpan::new(SourcePos::new(8, 3, 1), SourcePos::new(10, 3, 3))
    );
}
