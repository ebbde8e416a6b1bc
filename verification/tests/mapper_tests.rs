use preview_sync::geom::ByteRange;
use preview_sync::layout::{Frame, Glyph, GroupItem, LayoutItem, Marker, Page, TextRun};
use preview_sync::mapper::{
    first_change_target, locate_range, scroll_target_for_range, source_range_for_point,
};

fn span(start: usize, end: usize) -> ByteRange {
    ByteRange::new(start, end)
}

/// A run of `n` glyphs of width 10 starting at source byte `byte0`,
/// one byte per glyph.
fn run(x: i64, y: i64, n: usize, byte0: usize) -> TextRun {
    let mut glyphs = Vec::new();
    for i in 0..n {
        glyphs.push(Glyph { x: (i as i64) * 10, advance: 10, span: span(byte0 + i, byte0 + i + 1) });
    }
    TextRun { x, y, width: (n as i64) * 10, height: 12, span: span(byte0, byte0 + n), glyphs }
}

fn page_of(items: Vec<LayoutItem>) -> Page {
    Page::new(Frame { width: 400, height: 600, items }).expect("well-formed frame")
}

#[test]
fn click_on_glyph_returns_its_span() {
    let p = page_of(vec![LayoutItem::Run(run(10, 20, 3, 100))]);
    // inside the second glyph's advance box
    assert_eq!(source_range_for_point(&p, 25, 25), Some(span(101, 102)));
    // inside the first glyph
    assert_eq!(source_range_for_point(&p, 10, 20), Some(span(100, 101)));
    // right edge is exclusive
    assert_eq!(source_range_for_point(&p, 40, 25), None);
    // above the run
    assert_eq!(source_range_for_point(&p, 25, 10), None);
}

#[test]
fn click_in_nested_group_is_translated() {
    let inner = Frame { width: 100, height: 50, items: vec![LayoutItem::Run(run(0, 0, 2, 7))] };
    let p = page_of(vec![LayoutItem::Group(GroupItem { x: 50, y: 100, frame: inner })]);
    assert_eq!(source_range_for_point(&p, 55, 105), Some(span(7, 8)));
    assert_eq!(source_range_for_point(&p, 65, 105), Some(span(8, 9)));
    assert_eq!(source_range_for_point(&p, 45, 105), None);
}

#[test]
fn marker_needs_nonzero_extent_for_clicks() {
    let flat = Marker { x: 10, y: 10, width: 30, height: 0, span: span(0, 4) };
    let boxed = Marker { x: 10, y: 30, width: 30, height: 8, span: span(4, 8) };
    let p = page_of(vec![LayoutItem::Marker(flat), LayoutItem::Marker(boxed)]);
    assert_eq!(source_range_for_point(&p, 20, 10), None);
    assert_eq!(source_range_for_point(&p, 20, 33), Some(span(4, 8)));
}

#[test]
fn paint_order_decides_overlapping_items() {
    // two runs covering the same box: the earlier one in document
    // order wins, ties are broken by visitation order
    let p = page_of(vec![
        LayoutItem::Run(run(10, 20, 3, 100)),
        LayoutItem::Run(run(10, 20, 3, 200)),
    ]);
    assert_eq!(source_range_for_point(&p, 15, 25), Some(span(100, 101)));
}

#[test]
fn scroll_target_finds_overlapping_run() {
    let p = page_of(vec![
        LayoutItem::Run(run(10, 20, 3, 100)),
        LayoutItem::Run(run(10, 40, 3, 103)),
    ]);
    // the range overlaps only the second run
    assert_eq!(scroll_target_for_range(&p, span(104, 105)), Some(40));
    // a range before all content matches nothing
    assert_eq!(scroll_target_for_range(&p, span(0, 50)), None);
}

#[test]
fn scroll_target_translates_out_of_groups() {
    let inner = Frame { width: 100, height: 50, items: vec![LayoutItem::Run(run(0, 10, 2, 7))] };
    let p = page_of(vec![LayoutItem::Group(GroupItem { x: 50, y: 100, frame: inner })]);
    assert_eq!(scroll_target_for_range(&p, span(7, 8)), Some(110));
    let anchor = locate_range(&p, span(8, 9)).unwrap();
    assert_eq!(anchor, (60, 110));
}

#[test]
fn scroll_target_is_idempotent() {
    let p = page_of(vec![LayoutItem::Run(run(10, 20, 3, 100))]);
    let r = span(101, 103);
    let first = scroll_target_for_range(&p, r);
    let second = scroll_target_for_range(&p, r);
    assert_eq!(first, second);
    assert_eq!(first, Some(20));
}

#[test]
fn roundtrip_recovers_overlapping_range() {
    // a byte range wholly inside a single text run: locating it and
    // clicking the located point recovers an overlapping range
    let p = page_of(vec![LayoutItem::Run(run(10, 20, 5, 100))]);
    let edited = span(102, 104);
    let (x, y) = locate_range(&p, edited).unwrap();
    let recovered = source_range_for_point(&p, x, y).unwrap();
    assert!(recovered.overlaps(&edited));
}

#[test]
fn roundtrip_on_multi_line_page() {
    // three lines in disjoint vertical bands; the edit sits in the
    // middle one
    let p = page_of(vec![
        LayoutItem::Run(run(10, 20, 5, 0)),
        LayoutItem::Run(run(10, 40, 5, 5)),
        LayoutItem::Run(run(10, 60, 5, 10)),
    ]);
    let edited = span(6, 8);
    let (x, y) = locate_range(&p, edited).unwrap();
    assert_eq!(y, 40);
    let recovered = source_range_for_point(&p, x, y).unwrap();
    assert!(recovered.overlaps(&edited));
}

#[test]
fn hashes_equal_for_identical_content() {
    // two compiles of byte-identical source produce identical frames,
    // and identical frames always hash identically
    let a = page_of(vec![LayoutItem::Run(run(10, 20, 3, 100))]);
    let b = page_of(vec![LayoutItem::Run(run(10, 20, 3, 100))]);
    assert_eq!(a.content_hash(), b.content_hash());
    // and hash equality is reflexive
    assert_eq!(a.content_hash(), a.content_hash());
}

#[test]
fn hash_differs_for_changed_span() {
    let a = page_of(vec![LayoutItem::Run(run(10, 20, 3, 100))]);
    let b = page_of(vec![LayoutItem::Run(run(10, 20, 3, 101))]);
    assert_ne!(a.content_hash(), b.content_hash());
}

#[test]
fn page_new_refuses_malformed_frames() {
    // a glyph reaching beyond its run's width is refused
    let bad = TextRun {
        x: 0,
        y: 0,
        width: 5,
        height: 12,
        span: span(0, 1),
        glyphs: vec![Glyph { x: 0, advance: 10, span: span(0, 1) }],
    };
    assert!(Page::new(Frame { width: 100, height: 100, items: vec![LayoutItem::Run(bad)] }).is_none());
    // an item outside the frame is refused
    let outside = Marker { x: 90, y: 0, width: 20, height: 5, span: span(0, 1) };
    assert!(Page::new(Frame { width: 100, height: 100, items: vec![LayoutItem::Marker(outside)] })
        .is_none());
    // a negative coordinate is refused
    let negative = Marker { x: -1, y: 0, width: 5, height: 5, span: span(0, 1) };
    assert!(Page::new(Frame { width: 100, height: 100, items: vec![LayoutItem::Marker(negative)] })
        .is_none());
}

#[test]
fn first_change_searches_changed_new_pages_first() {
    let old_pages = vec![
        page_of(vec![LayoutItem::Run(run(10, 20, 3, 0))]),
        page_of(vec![LayoutItem::Run(run(10, 20, 3, 3))]),
    ];
    // page 0 unchanged, page 1 changed (glyphs moved down)
    let new_pages = vec![
        page_of(vec![LayoutItem::Run(run(10, 20, 3, 0))]),
        page_of(vec![LayoutItem::Run(run(10, 40, 3, 3))]),
    ];
    // the range overlaps both pages' spans, but page 0 is unchanged:
    // only the changed page is searched
    let t = first_change_target(&new_pages, &old_pages, span(0, 6)).unwrap();
    assert_eq!(t.page, 1);
    assert_eq!(t.y, 40);
    assert!(t.in_new);
}

#[test]
fn pure_deletion_falls_back_to_old_pages() {
    // the deleted range's content only exists in the old document
    let old_pages = vec![page_of(vec![LayoutItem::Run(run(10, 20, 6, 0))])];
    let new_pages = vec![page_of(vec![LayoutItem::Run(run(10, 20, 3, 0))])];
    let t = first_change_target(&new_pages, &old_pages, span(4, 5)).unwrap();
    assert_eq!(t.page, 0);
    assert!(!t.in_new);
    assert_eq!(t.y, 20);
}

#[test]
fn added_page_counts_as_changed() {
    // the new compile grew a second page; it has no counterpart, so
    // it counts as changed and is searched
    let old_pages = vec![page_of(vec![LayoutItem::Run(run(10, 20, 3, 0))])];
    let new_pages = vec![
        page_of(vec![LayoutItem::Run(run(10, 20, 3, 0))]),
        page_of(vec![LayoutItem::Run(run(10, 30, 3, 3))]),
    ];
    let t = first_change_target(&new_pages, &old_pages, span(3, 6)).unwrap();
    assert_eq!(t.page, 1);
    assert_eq!(t.y, 30);
    assert!(t.in_new);
}

#[test]
fn marker_span_matches_scroll_even_with_zero_extent() {
    // on the scroll side a marker matches by span overlap alone; no
    // extent is required, unlike the click side
    let flat = Marker { x: 25, y: 50, width: 0, height: 0, span: span(9, 12) };
    let p = page_of(vec![LayoutItem::Marker(flat)]);
    assert_eq!(scroll_target_for_range(&p, span(10, 11)), Some(50));
    assert_eq!(source_range_for_point(&p, 25, 50), None);
}

#[test]
fn unmatched_search_yields_no_scroll_action() {
    let old_pages = vec![page_of(vec![LayoutItem::Run(run(10, 20, 3, 0))])];
    let new_pages = vec![page_of(vec![LayoutItem::Run(run(10, 20, 3, 0))])];
    // nothing changed: no page is searched, the preview stays put
    assert!(first_change_target(&new_pages, &old_pages, span(0, 3)).is_none());
}
