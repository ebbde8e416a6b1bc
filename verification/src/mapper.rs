//! Mapping between rendered positions and source byte ranges.
//!
//! Both directions are pure structural traversals of a page's layout
//! tree in document/paint order, first match wins:
//! [`source_range_for_point`] turns a click inside a page into the
//! source span of the glyph or marker under it, and
//! [`scroll_target_for_range`] turns an edited byte range into the
//! position of the first item whose span overlaps it.
//! [`first_change_target`] adds the change-localization policy: only
//! pages whose content hash changed are searched, new pages first,
//! then the old ones, because a pure deletion leaves no trace in the
//! new document.

use vstd::prelude::*;

use crate::geom::{ByteRange, CLICK_BOUND, MAX_DEPTH, MAX_DIM};
use crate::layout::{
    frame_wf, glyph_wf, items_wf, lemma_items_wf_index, page_wf, run_wf, Frame, Glyph, LayoutItem,
    Marker, Page, TextRun,
};

verus! {

/// The point (x, y) lies in the advance box of glyph `g` of `run`.
pub open spec fn glyph_box_contains(run: TextRun, g: Glyph, x: int, y: int) -> bool {
    &&& run.x + g.x <= x < run.x + g.x + g.advance
    &&& run.y <= y < run.y + run.height
}

/// The point (x, y) lies in the bounding box of marker `m`, which must
/// have nonzero extent to claim a point.
pub open spec fn marker_box_contains(m: Marker, x: int, y: int) -> bool {
    &&& m.width > 0 && m.height > 0
    &&& m.x <= x < m.x + m.width
    &&& m.y <= y < m.y + m.height
}

/// The span of the first glyph of `run`, from index `i` on, whose
/// advance box contains the point.
pub open spec fn spec_find_glyph(run: TextRun, i: int, x: int, y: int) -> Option<ByteRange>
    decreases run.glyphs@.len() - i,
{
    if i < 0 || i >= run.glyphs@.len() {
        None
    } else if glyph_box_contains(run, run.glyphs@[i], x, y) {
        Some(run.glyphs@[i].span)
    } else {
        spec_find_glyph(run, i + 1, x, y)
    }
}

/// The source span one item assigns to a point, if it claims it; a
/// group is searched with the point translated into its local frame.
pub open spec fn spec_find_point_item(it: LayoutItem, x: int, y: int) -> Option<ByteRange>
    decreases it, 2int,
{
    match it {
        LayoutItem::Run(r) => spec_find_glyph(r, 0, x, y),
        LayoutItem::Marker(m) => if marker_box_contains(m, x, y) {
            Some(m.span)
        } else {
            None
        },
        LayoutItem::Group(g) => spec_find_point_frame(g.frame, x - g.x, y - g.y),
    }
}

/// The first item of `s`, from index `i` on in paint order, that
/// claims the point.
pub open spec fn spec_find_point_items(s: Seq<LayoutItem>, i: int, x: int, y: int) -> Option<
    ByteRange,
>
    decreases s, s.len() - i,
{
    if i < 0 || i >= s.len() {
        None
    } else {
        match spec_find_point_item(s[i], x, y) {
            Some(r) => Some(r),
            None => spec_find_point_items(s, i + 1, x, y),
        }
    }
}

/// Depth-first search of a frame for the point, in paint order.
pub open spec fn spec_find_point_frame(f: Frame, x: int, y: int) -> Option<ByteRange>
    decreases f, 0int,
{
    spec_find_point_items(f.items@, 0, x, y)
}

/// How far a translated point can drift from the original click after
/// descending to nesting budget `depth`.
pub open spec fn coord_limit(depth: int) -> int {
    4 * CLICK_BOUND + (MAX_DEPTH - depth) * MAX_DIM
}

/// Searches a run for the glyph whose advance box holds the point.
fn find_point_run(run: &TextRun, x: i64, y: i64) -> (r: Option<ByteRange>)
    requires
        run_wf(*run),
        0 <= run.x && 0 <= run.y,
        run.x + run.width <= MAX_DIM,
        run.y + run.height <= MAX_DIM,
        run.width <= MAX_DIM,
        -coord_limit(1) <= x <= coord_limit(1),
        -coord_limit(1) <= y <= coord_limit(1),
    ensures
        r == spec_find_glyph(*run, 0, x as int, y as int),
{
    if !(run.y <= y && y < run.y + run.height) {
        proof {
            lemma_find_glyph_y_miss(*run, 0, x as int, y as int);
        }
        return None;
    }
    let n = run.glyphs.len();
    let mut i: usize = 0;
    while i < n
        invariant
            i <= n == run.glyphs@.len(),
            run_wf(*run),
            0 <= run.x,
            run.x + run.width <= MAX_DIM,
            spec_find_glyph(*run, 0, x as int, y as int) == spec_find_glyph(
                *run,
                i as int,
                x as int,
                y as int,
            ),
            run.y <= y < run.y + run.height,
        decreases n - i,
    {
        let g = run.glyphs[i];
        proof {
            assert(glyph_wf(run.glyphs@[i as int], *run));
        }
        if run.x + g.x <= x && x < run.x + g.x + g.advance {
            return Some(g.span);
        }
        i = i + 1;
    }
    None
}

/// A point outside a run's vertical extent is claimed by none of its
/// glyphs.
proof fn lemma_find_glyph_y_miss(run: TextRun, i: int, x: int, y: int)
    requires
        !(run.y <= y < run.y + run.height),
    ensures
        spec_find_glyph(run, i, x, y) is None,
    decreases run.glyphs@.len() - i,
{
    if 0 <= i < run.glyphs@.len() {
        lemma_find_glyph_y_miss(run, i + 1, x, y);
    }
}

/// Depth-first point search of a frame with nesting budget `depth`.
fn find_point_frame(f: &Frame, x: i64, y: i64, Ghost(depth): Ghost<int>) -> (r: Option<ByteRange>)
    requires
        frame_wf(*f, depth),
        depth <= MAX_DEPTH,
        -coord_limit(depth) <= x <= coord_limit(depth),
        -coord_limit(depth) <= y <= coord_limit(depth),
    ensures
        r == spec_find_point_frame(*f, x as int, y as int),
    decreases *f, 0int,
{
    let n = f.items.len();
    let mut i: usize = 0;
    while i < n
        invariant
            i <= n == f.items@.len(),
            frame_wf(*f, depth),
            depth <= MAX_DEPTH,
            -coord_limit(depth) <= x <= coord_limit(depth),
            -coord_limit(depth) <= y <= coord_limit(depth),
            spec_find_point_frame(*f, x as int, y as int) == spec_find_point_items(
                f.items@,
                i as int,
                x as int,
                y as int,
            ),
        decreases n - i,
    {
        proof {
            lemma_items_wf_index(
                f.items@,
                f.items@.len() as int,
                f.width as int,
                f.height as int,
                depth,
                i as int,
            );
        }
        let found: Option<ByteRange> = match &f.items[i] {
            LayoutItem::Run(r) => find_point_run(r, x, y),
            LayoutItem::Marker(m) => {
                if m.width > 0 && m.height > 0 && m.x <= x && x < m.x + m.width && m.y <= y && y
                    < m.y + m.height {
                    Some(m.span)
                } else {
                    None
                }
            },
            LayoutItem::Group(g) => find_point_frame(
                &g.frame,
                x - g.x,
                y - g.y,
                Ghost(depth - 1),
            ),
        };
        proof {
            assert(found == spec_find_point_item(f.items@[i as int], x as int, y as int));
            assert(spec_find_point_items(f.items@, i as int, x as int, y as int) == match found {
                Some(r) => Some(r),
                None => spec_find_point_items(f.items@, i as int + 1, x as int, y as int),
            });
        }
        match found {
            Some(r) => {
                return Some(r);
            },
            None => {},
        }
        i = i + 1;
    }
    None
}

/// The source byte range under a click at (x, y) inside a page, in
/// page coordinates: the first glyph or nonzero-extent marker that
/// claims the point in paint order, with groups entered recursively.
/// `None` when no item claims the point.
pub fn source_range_for_point(page: &Page, x: i64, y: i64) -> (r: Option<ByteRange>)
    requires
        page_wf(*page),
        -(4 * CLICK_BOUND) <= x <= 4 * CLICK_BOUND,
        -(4 * CLICK_BOUND) <= y <= 4 * CLICK_BOUND,
    ensures
        r == spec_find_point_frame(page.frame, x as int, y as int),
{
    find_point_frame(&page.frame, x, y, Ghost(MAX_DEPTH as int))
}

/// The run-local x offset of the first glyph of `s`, from index `i`
/// on, whose span overlaps the range.
pub open spec fn spec_locate_glyphs(s: Seq<Glyph>, i: int, range: ByteRange) -> Option<int>
    decreases s.len() - i,
{
    if i < 0 || i >= s.len() {
        None
    } else if s[i].span.spec_overlaps(range) {
        Some(s[i].x as int)
    } else {
        spec_locate_glyphs(s, i + 1, range)
    }
}

/// The anchor point a matching item supplies for a range, in its
/// parent frame's coordinates: a run anchors at its first overlapping
/// glyph (or its own origin), a marker at its origin, a group
/// translates its inner match back out.
pub open spec fn spec_locate_item(it: LayoutItem, range: ByteRange) -> Option<(int, int)>
    decreases it, 2int,
{
    match it {
        LayoutItem::Run(r) => if r.span.spec_overlaps(range) {
            Some(
                (
                    match spec_locate_glyphs(r.glyphs@, 0, range) {
                        Some(gx) => r.x + gx,
                        None => r.x as int,
                    },
                    r.y as int,
                ),
            )
        } else {
            None
        },
        LayoutItem::Marker(m) => if m.span.spec_overlaps(range) {
            Some((m.x as int, m.y as int))
        } else {
            None
        },
        LayoutItem::Group(g) => match spec_locate_frame(g.frame, range) {
            Some(p) => Some((g.x + p.0, g.y + p.1)),
            None => None,
        },
    }
}

/// The first item of `s`, from index `i` on, whose span overlaps the
/// range.
pub open spec fn spec_locate_items(s: Seq<LayoutItem>, i: int, range: ByteRange) -> Option<
    (int, int),
>
    decreases s, s.len() - i,
{
    if i < 0 || i >= s.len() {
        None
    } else {
        match spec_locate_item(s[i], range) {
            Some(p) => Some(p),
            None => spec_locate_items(s, i + 1, range),
        }
    }
}

/// Depth-first search of a frame for the first item overlapping the
/// range, in paint order.
pub open spec fn spec_locate_frame(f: Frame, range: ByteRange) -> Option<(int, int)>
    decreases f, 0int,
{
    spec_locate_items(f.items@, 0, range)
}

/// [`spec_locate_frame`], with its coordinates as machine integers.
pub open spec fn spec_locate_i64(f: Frame, range: ByteRange) -> Option<(i64, i64)> {
    match spec_locate_frame(f, range) {
        Some(p) => Some((p.0 as i64, p.1 as i64)),
        None => None,
    }
}

/// The y offset of [`spec_locate_frame`], as a machine integer.
pub open spec fn spec_scroll_target(f: Frame, range: ByteRange) -> Option<i64> {
    match spec_locate_frame(f, range) {
        Some(p) => Some(p.1 as i64),
        None => None,
    }
}

/// Searches a run for the first glyph overlapping the range.
fn locate_run(run: &TextRun, range: ByteRange) -> (r: Option<i64>)
    requires
        run_wf(*run),
        0 <= run.width <= MAX_DIM,
    ensures
        r == match spec_locate_glyphs(run.glyphs@, 0, range) {
            Some(gx) => Some(gx as i64),
            None => None::<i64>,
        },
        r matches Some(gx) ==> 0 <= gx <= run.width && Some(gx as int) == spec_locate_glyphs(
            run.glyphs@,
            0,
            range,
        ),
    {
    let n = run.glyphs.len();
    let mut i: usize = 0;
    while i < n
        invariant
            i <= n == run.glyphs@.len(),
            run_wf(*run),
            spec_locate_glyphs(run.glyphs@, 0, range) == spec_locate_glyphs(
                run.glyphs@,
                i as int,
                range,
            ),
        decreases n - i,
    {
        let g = run.glyphs[i];
        proof {
            assert(glyph_wf(run.glyphs@[i as int], *run));
        }
        if g.span.overlaps(&range) {
            return Some(g.x);
        }
        i = i + 1;
    }
    None
}

/// Depth-first range search with nesting budget `depth`; any returned
/// anchor lies inside the frame's extent.
fn locate_frame(f: &Frame, range: ByteRange, Ghost(depth): Ghost<int>) -> (r: Option<(i64, i64)>)
    requires
        frame_wf(*f, depth),
        depth <= MAX_DEPTH,
    ensures
        r == spec_locate_i64(*f, range),
        r matches Some(p) ==> (0 <= p.0 <= f.width && 0 <= p.1 <= f.height && Some((
            p.0 as int,
            p.1 as int,
        )) == spec_locate_frame(*f, range)),
    decreases *f, 0int,
{
    let n = f.items.len();
    let mut i: usize = 0;
    while i < n
        invariant
            i <= n == f.items@.len(),
            frame_wf(*f, depth),
            depth <= MAX_DEPTH,
            spec_locate_frame(*f, range) == spec_locate_items(f.items@, i as int, range),
        decreases n - i,
    {
        proof {
            lemma_items_wf_index(
                f.items@,
                f.items@.len() as int,
                f.width as int,
                f.height as int,
                depth,
                i as int,
            );
        }
        let found: Option<(i64, i64)> = match &f.items[i] {
            LayoutItem::Run(r) => {
                if r.span.overlaps(&range) {
                    match locate_run(r, range) {
                        Some(gx) => Some((r.x + gx, r.y)),
                        None => Some((r.x, r.y)),
                    }
                } else {
                    None
                }
            },
            LayoutItem::Marker(m) => {
                if m.span.overlaps(&range) {
                    Some((m.x, m.y))
                } else {
                    None
                }
            },
            LayoutItem::Group(g) => {
                match locate_frame(&g.frame, range, Ghost(depth - 1)) {
                    Some(p) => Some((g.x + p.0, g.y + p.1)),
                    None => None,
                }
            },
        };
        proof {
            assert(match found {
                Some(p) => Some((p.0 as int, p.1 as int)) == spec_locate_item(
                    f.items@[i as int],
                    range,
                ) && 0 <= p.0 <= f.width && 0 <= p.1 <= f.height,
                None => spec_locate_item(f.items@[i as int], range) is None,
            });
            assert(spec_locate_items(f.items@, i as int, range) == match spec_locate_item(
                f.items@[i as int],
                range,
            ) {
                Some(p) => Some(p),
                None => spec_locate_items(f.items@, i as int + 1, range),
            });
        }
        match found {
            Some(p) => {
                return Some(p);
            },
            None => {},
        }
        i = i + 1;
    }
    None
}

/// The anchor point of the first item of the page, in paint order,
/// whose source span overlaps the byte range: interval overlap, not
/// containment.  The anchor always lies inside the page's extent.
pub fn locate_range(page: &Page, range: ByteRange) -> (r: Option<(i64, i64)>)
    requires
        page_wf(*page),
    ensures
        r == spec_locate_i64(page.frame, range),
        r matches Some(p) ==> 0 <= p.0 <= page.frame.width && 0 <= p.1 <= page.frame.height,
{
    locate_frame(&page.frame, range, Ghost(MAX_DEPTH as int))
}

/// The scroll target for an edited byte range inside one page: the y
/// offset of the first overlapping item, always within the page's
/// extent; `None` when nothing in the page overlaps the range.
pub fn scroll_target_for_range(page: &Page, range: ByteRange) -> (r: Option<i64>)
    requires
        page_wf(*page),
    ensures
        r == spec_scroll_target(page.frame, range),
        r matches Some(y) ==> 0 <= y <= page.frame.height,
{
    match locate_range(page, range) {
        Some(p) => Some(p.1),
        None => None,
    }
}

/// Where the preview should scroll after a change: a page index, a y
/// offset inside that page, and whether the match was found in the
/// new pages or, for a pure deletion, in the old ones.
#[derive(Clone, Copy, PartialEq, Eq, Structural, Debug)]
pub struct ChangeTarget {
    pub page: usize,
    pub y: i64,
    pub in_new: bool,
}

/// Page `i` of `pages` counts as changed against `others`: it has no
/// counterpart there, or the content hashes differ.
pub open spec fn spec_page_changed(pages: Seq<Page>, others: Seq<Page>, i: int) -> bool {
    i >= others.len() || pages[i].hash != others[i].hash
}

/// The first changed page, from index `i` on, with a scroll target
/// for the range; unchanged pages are never searched.
pub open spec fn spec_search_changed(
    pages: Seq<Page>,
    others: Seq<Page>,
    i: int,
    range: ByteRange,
) -> Option<(int, i64)>
    decreases pages.len() - i,
{
    if i < 0 || i >= pages.len() {
        None
    } else if !spec_page_changed(pages, others, i) {
        spec_search_changed(pages, others, i + 1, range)
    } else {
        match spec_scroll_target(pages[i].frame, range) {
            Some(y) => Some((i, y)),
            None => spec_search_changed(pages, others, i + 1, range),
        }
    }
}

/// The change-localization policy over a whole document: search the
/// changed new pages first, fall back to the changed old pages, and
/// yield nothing when neither matches.
pub open spec fn spec_first_change(news: Seq<Page>, olds: Seq<Page>, range: ByteRange) -> Option<
    (int, i64, bool),
> {
    match spec_search_changed(news, olds, 0, range) {
        Some(p) => Some((p.0, p.1, true)),
        None => match spec_search_changed(olds, news, 0, range) {
            Some(p) => Some((p.0, p.1, false)),
            None => None,
        },
    }
}

/// Searches `pages`, in index order, for the first page changed
/// against `others` that yields a scroll target for the range.
fn search_changed(pages: &Vec<Page>, others: &Vec<Page>, range: ByteRange) -> (r: Option<
    (usize, i64),
>)
    requires
        forall|i: int| 0 <= i < pages@.len() ==> page_wf(#[trigger] pages@[i]),
    ensures
        r matches Some(p) ==> spec_search_changed(pages@, others@, 0, range) == Some((
            p.0 as int,
            p.1,
        )),
        r is None ==> spec_search_changed(pages@, others@, 0, range) is None,
{
    let n = pages.len();
    let mut i: usize = 0;
    while i < n
        invariant
            i <= n == pages@.len(),
            forall|j: int| 0 <= j < pages@.len() ==> page_wf(#[trigger] pages@[j]),
            spec_search_changed(pages@, others@, 0, range) == spec_search_changed(
                pages@,
                others@,
                i as int,
                range,
            ),
        decreases n - i,
    {
        let changed = i >= others.len() || pages[i].hash != others[i].hash;
        if changed {
            match scroll_target_for_range(&pages[i], range) {
                Some(y) => {
                    return Some((i, y));
                },
                None => {},
            }
        }
        i = i + 1;
    }
    None
}

/// Localizes an edit against a new compile: compares pages pairwise
/// by content hash, searches only the changed pages for the edited
/// range — the new pages first, then the old ones, because a pure
/// deletion leaves no trace in the new document.  `None` means the
/// preview position is left unchanged, never reset.
pub fn first_change_target(new_pages: &Vec<Page>, old_pages: &Vec<Page>, edited: ByteRange) -> (r:
    Option<ChangeTarget>)
    requires
        forall|i: int| 0 <= i < new_pages@.len() ==> page_wf(#[trigger] new_pages@[i]),
        forall|i: int| 0 <= i < old_pages@.len() ==> page_wf(#[trigger] old_pages@[i]),
    ensures
        r matches Some(t) ==> spec_first_change(new_pages@, old_pages@, edited) == Some((
            t.page as int,
            t.y,
            t.in_new,
        )),
        r is None ==> spec_first_change(new_pages@, old_pages@, edited) is None,
{
    match search_changed(new_pages, old_pages, edited) {
        Some(p) => Some(ChangeTarget { page: p.0, y: p.1, in_new: true }),
        None => match search_changed(old_pages, new_pages, edited) {
            Some(p) => Some(ChangeTarget { page: p.0, y: p.1, in_new: false }),
            None => None,
        },
    }
}

/// Glyph layout is ordered: an earlier glyph's advance box ends at or
/// before a later glyph begins.
proof fn lemma_glyphs_ordered(run: TextRun, k: int, j: int)
    requires
        run_wf(run),
        0 <= k < j < run.glyphs@.len(),
    ensures
        run.glyphs@[k].x + run.glyphs@[k].advance <= run.glyphs@[j].x,
    decreases j - k,
{
    assert(glyph_wf(run.glyphs@[j - 1], run));
    if k < j - 1 {
        lemma_glyphs_ordered(run, k, j - 1);
    }
}

/// When some glyph from `i` on overlaps the range, the locate search
/// returns the offset of the first such glyph.
proof fn lemma_locate_glyphs_first(s: Seq<Glyph>, i: int, range: ByteRange) -> (j0: int)
    requires
        0 <= i <= s.len(),
        exists|j: int| i <= j < s.len() && (#[trigger] s[j]).span.spec_overlaps(range),
    ensures
        i <= j0 < s.len(),
        s[j0].span.spec_overlaps(range),
        forall|k: int| i <= k < j0 ==> !(#[trigger] s[k]).span.spec_overlaps(range),
        spec_locate_glyphs(s, i, range) == Some(s[j0].x as int),
    decreases s.len() - i,
{
    if s[i].span.spec_overlaps(range) {
        i
    } else {
        let j = choose|j: int| i <= j < s.len() && (#[trigger] s[j]).span.spec_overlaps(range);
        assert(i + 1 <= j < s.len() && s[j].span.spec_overlaps(range));
        lemma_locate_glyphs_first(s, i + 1, range)
    }
}

/// Walking the point search up to the first overlapping glyph: no
/// earlier glyph claims the anchor point, the first overlapping one
/// does.
proof fn lemma_find_glyph_hits(run: TextRun, i: int, j0: int, x: int, y: int)
    requires
        run_wf(run),
        0 <= i <= j0 < run.glyphs@.len(),
        run.height > 0,
        forall|j: int| 0 <= j < run.glyphs@.len() ==> (#[trigger] run.glyphs@[j]).advance > 0,
        x == run.x + run.glyphs@[j0].x,
        y == run.y,
    ensures
        spec_find_glyph(run, i, x, y) == Some(run.glyphs@[j0].span),
    decreases j0 - i,
{
    assert(glyph_wf(run.glyphs@[j0], run));
    if i == j0 {
        assert(glyph_box_contains(run, run.glyphs@[j0], x, y));
    } else {
        lemma_glyphs_ordered(run, i, j0);
        assert(!glyph_box_contains(run, run.glyphs@[i], x, y));
        lemma_find_glyph_hits(run, i + 1, j0, x, y);
    }
}

/// The item is a text run of positive height whose glyphs all have a
/// positive advance: the shape every line of laid-out text has.
pub open spec fn plain_text_run(it: LayoutItem) -> bool {
    match it {
        LayoutItem::Run(r) => r.height > 0 && forall|j: int|
            0 <= j < r.glyphs@.len() ==> (#[trigger] r.glyphs@[j]).advance > 0,
        _ => false,
    }
}

/// The run inside a run item.
pub open spec fn run_of(it: LayoutItem) -> TextRun {
    match it {
        LayoutItem::Run(r) => r,
        _ => vstd::pervasive::arbitrary(),
    }
}

/// Items known not to match the range do not move the locate search.
proof fn lemma_locate_items_stretch(s: Seq<LayoutItem>, i: int, i0: int, range: ByteRange)
    requires
        0 <= i <= i0 <= s.len(),
        forall|k: int| i <= k < i0 ==> spec_locate_item(#[trigger] s[k], range) is None,
    ensures
        spec_locate_items(s, i, range) == spec_locate_items(s, i0, range),
    decreases i0 - i,
{
    if i < i0 {
        lemma_locate_items_stretch(s, i + 1, i0, range);
    }
}

/// Items known not to claim the point do not move the point search.
proof fn lemma_find_items_stretch(s: Seq<LayoutItem>, i: int, i0: int, x: int, y: int)
    requires
        0 <= i <= i0 <= s.len(),
        forall|k: int| i <= k < i0 ==> spec_find_point_item(#[trigger] s[k], x, y) is None,
    ensures
        spec_find_point_items(s, i, x, y) == spec_find_point_items(s, i0, x, y),
    decreases i0 - i,
{
    if i < i0 {
        lemma_find_items_stretch(s, i + 1, i0, x, y);
    }
}

/// Round trip on a text page: the page's items are text runs laid out
/// top to bottom in disjoint vertical bands, the range first overlaps
/// the covering span of run `i0`, and it overlaps one of that run's
/// glyphs.  Then locating the range and looking up the located point
/// recovers a source span overlapping the original range.
pub proof fn lemma_roundtrip_text_page(p: Page, i0: int, range: ByteRange)
    requires
        page_wf(p),
        forall|i: int|
            0 <= i < p.frame.items@.len() ==> plain_text_run(#[trigger] p.frame.items@[i]),
        forall|i: int, j: int|
            0 <= i < j < p.frame.items@.len() ==> run_of(#[trigger] p.frame.items@[i]).y + run_of(
                p.frame.items@[i],
            ).height <= run_of(#[trigger] p.frame.items@[j]).y,
        0 <= i0 < p.frame.items@.len(),
        run_of(p.frame.items@[i0]).span.spec_overlaps(range),
        forall|k: int|
            0 <= k < i0 ==> !run_of(#[trigger] p.frame.items@[k]).span.spec_overlaps(range),
        exists|j: int|
            0 <= j < run_of(p.frame.items@[i0]).glyphs@.len() && (#[trigger] run_of(
                p.frame.items@[i0],
            ).glyphs@[j]).span.spec_overlaps(range),
    ensures
        spec_locate_frame(p.frame, range) matches Some(pt) && (spec_find_point_frame(
            p.frame,
            pt.0,
            pt.1,
        ) matches Some(sp) && sp.spec_overlaps(range)),
{
    let s = p.frame.items@;
    let r0 = run_of(s[i0]);
    lemma_items_wf_index(
        s,
        s.len() as int,
        p.frame.width as int,
        p.frame.height as int,
        MAX_DEPTH as int,
        i0,
    );
    assert(run_wf(r0));
    let j0 = lemma_locate_glyphs_first(r0.glyphs@, 0, range);
    assert(glyph_wf(r0.glyphs@[j0], r0));

    // locate side: the runs before i0 do not overlap the range, so
    // the first match is run i0, anchored at its first overlapping
    // glyph
    assert forall|k: int| 0 <= k < i0 implies spec_locate_item(#[trigger] s[k], range) is None by {
        assert(plain_text_run(s[k]));
    }
    lemma_locate_items_stretch(s, 0, i0, range);
    let pt = (r0.x + r0.glyphs@[j0].x as int, r0.y as int);
    assert(spec_locate_item(s[i0], range) == Some(pt));
    assert(spec_locate_frame(p.frame, range) == Some(pt));

    // find side: the anchor sits in run i0's vertical band, which is
    // disjoint from every earlier run's, so no earlier glyph claims
    // it and the first overlapping glyph of run i0 does
    assert forall|k: int| 0 <= k < i0 implies spec_find_point_item(#[trigger] s[k], pt.0, pt.1)
        is None by {
        assert(plain_text_run(s[k]));
        assert(run_of(s[k]).y + run_of(s[k]).height <= r0.y);
        lemma_find_glyph_y_miss(run_of(s[k]), 0, pt.0, pt.1);
    }
    lemma_find_items_stretch(s, 0, i0, pt.0, pt.1);
    lemma_find_glyph_hits(r0, 0, j0, pt.0, pt.1);
    assert(spec_find_point_item(s[i0], pt.0, pt.1) == Some(r0.glyphs@[j0].span));
    assert(spec_find_point_frame(p.frame, pt.0, pt.1) == Some(r0.glyphs@[j0].span));
}

/// A match among text runs anchors at some run's top edge, which the
/// run's positive height keeps strictly above the frame's bottom.
proof fn lemma_locate_strict(
    s: Seq<LayoutItem>,
    i: int,
    fw: int,
    fh: int,
    depth: int,
    range: ByteRange,
)
    requires
        items_wf(s, s.len() as int, fw, fh, depth),
        forall|k: int| 0 <= k < s.len() ==> plain_text_run(#[trigger] s[k]),
        0 <= i,
        spec_locate_items(s, i, range) is Some,
    ensures
        spec_locate_items(s, i, range) matches Some(pt) && 0 <= pt.1 < fh,
    decreases s.len() - i,
{
    if i < s.len() {
        if spec_locate_item(s[i], range) is Some {
            lemma_items_wf_index(s, s.len() as int, fw, fh, depth, i);
            assert(plain_text_run(s[i]));
        } else {
            lemma_locate_strict(s, i + 1, fw, fh, depth, range);
        }
    }
}

/// On a page of positive-height text runs, a scroll target lies
/// strictly inside the page's vertical extent, never on its edge.
pub proof fn lemma_scroll_target_strictly_inside(p: Page, range: ByteRange)
    requires
        page_wf(p),
        forall|i: int|
            0 <= i < p.frame.items@.len() ==> plain_text_run(#[trigger] p.frame.items@[i]),
        spec_scroll_target(p.frame, range) is Some,
    ensures
        spec_scroll_target(p.frame, range) matches Some(y) && 0 <= y < p.frame.height,
{
    assert(frame_wf(p.frame, MAX_DEPTH as int));
    lemma_locate_strict(
        p.frame.items@,
        0,
        p.frame.width as int,
        p.frame.height as int,
        MAX_DEPTH as int,
        range,
    );
}

/// The scroll target is a function of page and range alone: two calls
/// on identical inputs return identical results.
pub proof fn lemma_scroll_target_idempotent(
    f: Frame,
    range: ByteRange,
    r1: Option<i64>,
    r2: Option<i64>,
)
    requires
        r1 == spec_scroll_target(f, range),
        r2 == spec_scroll_target(f, range),
    ensures
        r1 == r2,
{
}

} // verus!
