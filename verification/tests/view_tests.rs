use preview_sync::geom::ByteRange;
use preview_sync::layout::{Frame, Glyph, LayoutItem, Page, TextRun};
use preview_sync::mapper::{first_change_target, scroll_target_for_range};
use preview_sync::server::{
    drain_to_latest, plan_source_change, ExportPdfMode, NewDocumentMessage, SourceChangePlan,
};
use preview_sync::result::CompiledResult;
use preview_sync::source::SourceBuffer;
use preview_sync::view::{
    ListViewClick, UiRequest, UiResponse,
    absolute_scroll_y, clamp_zoom, page_at_position, source_range_for_click,
    viewport_scroll_decision, CacheLookup, PageImageCache, PreviewState, StackLayout,
};
use preview_sync::workspace::{FileKey, PackageRef};

fn span(start: usize, end: usize) -> ByteRange {
    ByteRange::new(start, end)
}

fn run(x: i64, y: i64, n: usize, byte0: usize) -> TextRun {
    let mut glyphs = Vec::new();
    for i in 0..n {
        glyphs.push(Glyph { x: (i as i64) * 10, advance: 10, span: span(byte0 + i, byte0 + i + 1) });
    }
    TextRun { x, y, width: (n as i64) * 10, height: 12, span: span(byte0, byte0 + n), glyphs }
}

fn page(height: i64, items: Vec<LayoutItem>) -> Page {
    Page::new(Frame { width: 200, height, items }).expect("well-formed frame")
}

fn layout() -> StackLayout {
    StackLayout { top_margin: 5, spacing: 10, viewport_width: 300 }
}

#[test]
fn click_resolves_to_stacked_page() {
    let pages = vec![
        page(100, vec![LayoutItem::Run(run(10, 20, 3, 0))]),
        page(100, vec![LayoutItem::Run(run(10, 20, 3, 3))]),
    ];
    // pages occupy [5,105) and [115,215); the viewport centers a
    // 200-wide page in a 300-wide viewport, so page x starts at 50
    let pp = page_at_position(&pages, layout(), 75, 140).unwrap();
    assert_eq!(pp.page, 1);
    assert_eq!(pp.x, 25);
    assert_eq!(pp.y, 25);
    // a click below the last page hits nothing
    assert!(page_at_position(&pages, layout(), 75, 300).is_none());
}

#[test]
fn click_in_gap_resolves_to_next_page() {
    let pages = vec![
        page(100, vec![LayoutItem::Run(run(10, 20, 3, 0))]),
        page(100, vec![LayoutItem::Run(run(10, 20, 3, 3))]),
    ];
    // y = 110 is in the spacing strip between the pages; the next
    // page claims it with a negative relative y
    let pp = page_at_position(&pages, layout(), 75, 110).unwrap();
    assert_eq!(pp.page, 1);
    assert_eq!(pp.y, -5);
}

#[test]
fn click_through_stack_finds_glyph() {
    let pages = vec![
        page(100, vec![LayoutItem::Run(run(10, 20, 3, 0))]),
        page(100, vec![LayoutItem::Run(run(10, 20, 3, 3))]),
    ];
    // page 1, page-local (15, 25): second page's first glyph
    let r = source_range_for_click(&pages, layout(), 65, 140).unwrap();
    assert_eq!(r, span(3, 4));
    // same point but not over any glyph
    assert!(source_range_for_click(&pages, layout(), 65, 160).is_none());
}

#[test]
fn absolute_scroll_sums_actual_page_heights() {
    let pages = vec![
        page(100, vec![LayoutItem::Run(run(10, 20, 3, 0))]),
        page(300, vec![LayoutItem::Run(run(10, 20, 3, 3))]),
        page(100, vec![LayoutItem::Run(run(10, 20, 3, 6))]),
    ];
    assert_eq!(absolute_scroll_y(&pages, 0, 0, layout()), 5);
    assert_eq!(absolute_scroll_y(&pages, 1, 40, layout()), 5 + 100 + 10 + 40);
    // the second page's real height counts, not a uniform one
    assert_eq!(absolute_scroll_y(&pages, 2, 0, layout()), 5 + 100 + 10 + 300 + 10);
}

#[test]
fn viewport_scrolls_only_when_target_invisible() {
    // target inside [current, current + height]: stay put
    assert_eq!(viewport_scroll_decision(150, 100, 200), None);
    assert_eq!(viewport_scroll_decision(100, 100, 200), None);
    assert_eq!(viewport_scroll_decision(300, 100, 200), None);
    // outside: scroll, keeping three tenths of the viewport above
    assert_eq!(viewport_scroll_decision(400, 100, 200), Some(400 - 60));
    assert_eq!(viewport_scroll_decision(50, 100, 200), Some(50 - 60));
}

#[test]
fn zoom_clamps_magnitude_into_band() {
    assert_eq!(clamp_zoom(1000), 1000);
    assert_eq!(clamp_zoom(100), 300);
    assert_eq!(clamp_zoom(5000), 3000);
    assert_eq!(clamp_zoom(-500), 500);
    assert_eq!(clamp_zoom(0), 300);
    assert_eq!(clamp_zoom(3000), 3000);
}

#[test]
fn image_cache_is_lazy_and_lossy() {
    let mut cache = PageImageCache::new();
    assert_eq!(cache.row_count(), 0);
    assert_eq!(cache.row_data(0), CacheLookup::OutOfRange);
    cache.reset_all(3);
    assert_eq!(cache.row_count(), 3);
    assert_eq!(cache.row_data(1), CacheLookup::Miss);
    cache.set_row_data(1, 77);
    assert_eq!(cache.row_data(1), CacheLookup::Hit(77));
    // storing out of range is ignored
    cache.set_row_data(9, 88);
    assert_eq!(cache.row_data(9), CacheLookup::OutOfRange);
    // invalidation drops every image
    cache.reset_all(2);
    assert_eq!(cache.row_data(1), CacheLookup::Miss);
}

#[test]
fn preview_swaps_documents_atomically() {
    let mut preview = PreviewState::new();
    assert_eq!(preview.page_count(), 0);
    preview.show_document(vec![
        page(100, vec![LayoutItem::Run(run(10, 20, 3, 0))]),
        page(100, vec![LayoutItem::Run(run(10, 20, 3, 3))]),
    ]);
    assert_eq!(preview.page_count(), 2);
    assert_eq!(preview.row_data(0), CacheLookup::Miss);
    preview.set_row_data(0, 5);
    assert_eq!(preview.row_data(0), CacheLookup::Hit(5));
    // a new document drops the cached images with the pages
    preview.show_document(vec![page(100, vec![LayoutItem::Run(run(10, 20, 3, 0))])]);
    assert_eq!(preview.page_count(), 1);
    assert_eq!(preview.row_data(0), CacheLookup::Miss);
}

#[test]
fn zoom_change_invalidates_rendered_pages() {
    let mut preview = PreviewState::new();
    preview.show_document(vec![page(100, vec![LayoutItem::Run(run(10, 20, 3, 0))])]);
    preview.set_row_data(0, 5);
    preview.set_zoom(2000);
    assert_eq!(preview.zoom_milli, 2000);
    assert_eq!(preview.row_data(0), CacheLookup::Miss);
    preview.set_zoom(99);
    assert_eq!(preview.zoom_milli, 300);
}

#[test]
fn edit_on_line_three_scrolls_inside_the_single_page() {
    // document of 10 lines compiles to one page, diagnostic-free; an
    // edit inserts text on line 3 without adding a page; the scroll
    // target for the edited line's byte range lies strictly inside
    // the page's extent
    let text: String = (0..10).map(|i| format!("line {}\n", i)).collect();
    let source = SourceBuffer::new(text.as_bytes().to_vec(), 1);

    // one run per line, 20 units apart, starting at y = 15
    let mut old_items = Vec::new();
    let mut new_items = Vec::new();
    for i in 0..10usize {
        let byte0 = source.line_column_to_byte(i, 0).unwrap();
        let y = 15 + (i as i64) * 20;
        old_items.push(LayoutItem::Run(run(10, y, 6, byte0)));
        // the edit widens line 3's run in the new compile
        let n = if i == 3 { 7 } else { 6 };
        new_items.push(LayoutItem::Run(run(10, y, n, byte0)));
    }
    let old_page = page(400, old_items);
    let new_page = page(400, new_items);

    let start = source.line_column_to_byte(3, 0).unwrap();
    let end = source.line_column_to_byte(3, 6).unwrap();
    let edited = span(start, end);

    let y = scroll_target_for_range(&new_page, edited).unwrap();
    assert_eq!(y, 15 + 3 * 20);
    assert!(0 < y && y < 400);

    let old_pages = vec![old_page];
    let new_pages = vec![new_page];
    let t = first_change_target(&new_pages, &old_pages, edited).unwrap();
    assert_eq!(t.page, 0);
    assert_eq!(t.y, y);
    assert!(t.in_new);
}

#[test]
fn ui_requests_drive_the_preview_state() {
    let mut preview = PreviewState::new();
    preview.show_document(vec![
        page(100, vec![LayoutItem::Run(run(10, 20, 3, 0))]),
        page(100, vec![LayoutItem::Run(run(10, 20, 3, 3))]),
    ]);

    // a row scrolled into view asks for its image: first a miss, then
    // a hit once the surface stored the rendered handle
    assert_eq!(preview.handle_ui_request(UiRequest::Render(0)), UiResponse::RenderNeeded(0));
    preview.set_row_data(0, 42);
    assert_eq!(preview.handle_ui_request(UiRequest::Render(0)), UiResponse::AlreadyRendered(42));
    assert_eq!(preview.handle_ui_request(UiRequest::Render(7)), UiResponse::NoSuchPage);

    // a click resolves through the stack: pages at [5,105) and
    // [115,215), a 200-wide page centered in a 300-wide viewport
    let click = ListViewClick {
        x: 65,
        y: 300,
        listview_x: 65,
        listview_y: 140,
        viewport_visible_width: 300,
    };
    assert_eq!(
        preview.handle_ui_request(UiRequest::JumpFromClick(click)),
        UiResponse::Jump(Some(span(3, 4)))
    );

    // a zoom change clamps and drops the cached images
    assert_eq!(preview.handle_ui_request(UiRequest::Zoom(9000)), UiResponse::ZoomApplied(3000));
    assert_eq!(preview.handle_ui_request(UiRequest::Render(0)), UiResponse::RenderNeeded(0));
}

#[test]
fn source_change_plan_follows_export_mode() {
    let changed = FileKey { package: PackageRef::Root, file: 1 };
    let main = FileKey { package: PackageRef::Root, file: 2 };
    assert_eq!(
        plan_source_change(ExportPdfMode::OnType, changed, Some(main)),
        SourceChangePlan { doc: changed, export: true }
    );
    assert_eq!(
        plan_source_change(ExportPdfMode::OnPinnedMainType, changed, Some(main)),
        SourceChangePlan { doc: main, export: true }
    );
    assert_eq!(
        plan_source_change(ExportPdfMode::OnPinnedMainType, changed, None),
        SourceChangePlan { doc: changed, export: false }
    );
    assert_eq!(
        plan_source_change(ExportPdfMode::Never, changed, Some(main)),
        SourceChangePlan { doc: main, export: false }
    );
    assert_eq!(
        plan_source_change(ExportPdfMode::OnSave, changed, None),
        SourceChangePlan { doc: changed, export: false }
    );
}

#[test]
fn only_results_with_pages_replace_the_preview() {
    let with_pages = CompiledResult {
        pages: vec![page(100, vec![LayoutItem::Run(run(10, 20, 3, 0))])],
        diagnostics: Vec::new(),
    };
    assert!(with_pages.replaces_preview());
    assert!(!CompiledResult::new().replaces_preview());
}

#[test]
fn preview_drains_to_newest_document() {
    let doc = FileKey { package: PackageRef::Root, file: 1 };
    let msgs = vec![
        NewDocumentMessage { pages: Vec::new(), doc, first_change_range: None },
        NewDocumentMessage { pages: Vec::new(), doc, first_change_range: Some(span(1, 2)) },
        NewDocumentMessage { pages: Vec::new(), doc, first_change_range: Some(span(3, 4)) },
    ];
    let latest = drain_to_latest(msgs).unwrap();
    assert_eq!(latest.first_change_range, Some(span(3, 4)));
    assert!(drain_to_latest(Vec::new()).is_none());
}
