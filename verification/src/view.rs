//! The preview surface's document state: pages stacked vertically in
//! the list view, the lazily filled per-page image cache, the zoom
//! clamp, and the decision whether a scroll target is already visible.
//!
//! The presentation widget itself is an external collaborator; it
//! hands clicks and scroll state in as plain integers (layout units,
//! converted from its own pixels) and receives page indices, scroll
//! offsets and render requests back.

use vstd::prelude::*;

use crate::geom::{ByteRange, CLICK_BOUND, MAX_DEPTH, MAX_DIM};
use crate::layout::{frame_wf, page_wf, Page};
use crate::mapper::{spec_find_point_frame, source_range_for_point};

verus! {

/// The most pages one document may show in the stacked list view.
pub const MAX_PAGES: usize = 0x10000;

/// Default zoom, in thousandths.
pub const ZOOM_UNIT_MILLI: i64 = 1000;

/// Smallest accepted zoom, in thousandths.
pub const ZOOM_MIN_MILLI: i64 = 300;

/// Largest accepted zoom, in thousandths.
pub const ZOOM_MAX_MILLI: i64 = 3000;

/// Margin above the first page of the stacked list, in layout units.
pub const PAGE_TOP_MARGIN: i64 = 5;

/// Vertical spacing between stacked pages, in layout units.
pub const PAGE_SPACING: i64 = 10;

/// Geometry of the stacked page list, in layout units: the margin
/// above the first page, the spacing between pages, and the visible
/// viewport width used to center pages horizontally.
#[derive(Clone, Copy, PartialEq, Eq, Structural, Debug)]
pub struct StackLayout {
    pub top_margin: i64,
    pub spacing: i64,
    pub viewport_width: i64,
}

impl StackLayout {
    pub open spec fn wf(self) -> bool {
        &&& 0 <= self.top_margin <= MAX_DIM
        &&& 0 <= self.spacing <= MAX_DIM
        &&& 0 <= self.viewport_width <= MAX_DIM
    }
}

/// A point inside one page of the stack, in that page's coordinates.
#[derive(Clone, Copy, PartialEq, Eq, Structural, Debug)]
pub struct PagePosition {
    pub page: usize,
    pub x: i64,
    pub y: i64,
}

/// The page under the vertical position `y` of the stacked list: the
/// first page whose bottom edge (pages laid out from `ypos` down,
/// separated by `spacing`) lies below `y`, together with `y` relative
/// to that page's top.
pub open spec fn spec_page_at(pages: Seq<Page>, i: int, ypos: int, y: int, spacing: int) -> Option<
    (int, int),
>
    decreases pages.len() - i,
{
    if i < 0 || i >= pages.len() {
        None
    } else {
        let bottom = ypos + pages[i].frame.height;
        if bottom > y {
            Some((i, y - ypos))
        } else {
            spec_page_at(pages, i + 1, bottom + spacing, y, spacing)
        }
    }
}

/// The horizontal click position relative to a page of width `pw`
/// centered in a viewport of width `vw`.
pub open spec fn spec_page_x(pw: int, vw: int, x: int) -> int {
    x - (if vw > pw {
        (vw - pw) / 2
    } else {
        0
    })
}

/// The page a list-view click lands on, with the click translated
/// into that page's coordinates (vertical stacking, horizontal
/// centering); `None` for a click below the last page.
pub fn page_at_position(pages: &Vec<Page>, layout: StackLayout, x: i64, y: i64) -> (r: Option<
    PagePosition,
>)
    requires
        forall|i: int| 0 <= i < pages@.len() ==> page_wf(#[trigger] pages@[i]),
        layout.wf(),
        -CLICK_BOUND <= x <= CLICK_BOUND,
        -CLICK_BOUND <= y <= CLICK_BOUND,
    ensures
        r matches Some(pp) ==> ({
            &&& pp.page < pages@.len()
            &&& -(4 * CLICK_BOUND) <= pp.x <= 4 * CLICK_BOUND
            &&& -(4 * CLICK_BOUND) <= pp.y <= 4 * CLICK_BOUND
            &&& spec_page_at(pages@, 0, layout.top_margin as int, y as int, layout.spacing as int)
                matches Some(p) && p.0 == pp.page && p.1 == pp.y && pp.x == spec_page_x(
                pages@[pp.page as int].frame.width as int,
                layout.viewport_width as int,
                x as int,
            )
        }),
        r is None ==> spec_page_at(pages@, 0, layout.top_margin as int, y as int, layout.spacing as int) is None,
{
    let n = pages.len();
    let mut i: usize = 0;
    let mut ypos: i64 = layout.top_margin;
    while i < n
        invariant
            i <= n == pages@.len(),
            forall|j: int| 0 <= j < pages@.len() ==> page_wf(#[trigger] pages@[j]),
            layout.wf(),
            -CLICK_BOUND <= x <= CLICK_BOUND,
            -CLICK_BOUND <= y <= CLICK_BOUND,
            0 <= ypos <= CLICK_BOUND + MAX_DIM,
            spec_page_at(pages@, 0, layout.top_margin as int, y as int, layout.spacing as int)
                == spec_page_at(pages@, i as int, ypos as int, y as int, layout.spacing as int),
        decreases n - i,
    {
        proof {
            assert(page_wf(pages@[i as int]));
            assert(frame_wf(pages@[i as int].frame, MAX_DEPTH as int));
        }
        let bottom = ypos + pages[i].height();
        if bottom > y {
            let pw = pages[i].width();
            let offset: i64 = if layout.viewport_width > pw {
                (layout.viewport_width - pw) / 2
            } else {
                0
            };
            return Some(PagePosition { page: i, x: x - offset, y: y - ypos });
        }
        ypos = bottom + layout.spacing;
        i = i + 1;
    }
    None
}

/// What a click on the stacked list means for the document: the click
/// resolved to a page and looked up in that page's layout tree.
pub open spec fn spec_click_range(pages: Seq<Page>, layout: StackLayout, x: int, y: int) -> Option<
    ByteRange,
> {
    match spec_page_at(pages, 0, layout.top_margin as int, y, layout.spacing as int) {
        Some(p) => spec_find_point_frame(
            pages[p.0].frame,
            spec_page_x(pages[p.0].frame.width as int, layout.viewport_width as int, x),
            p.1,
        ),
        None => None,
    }
}

/// The source byte range under a click on the stacked list view, or
/// `None` when the click hits no page or nothing inside the page
/// claims it.
pub fn source_range_for_click(pages: &Vec<Page>, layout: StackLayout, x: i64, y: i64) -> (r: Option<
    ByteRange,
>)
    requires
        forall|i: int| 0 <= i < pages@.len() ==> page_wf(#[trigger] pages@[i]),
        layout.wf(),
        -CLICK_BOUND <= x <= CLICK_BOUND,
        -CLICK_BOUND <= y <= CLICK_BOUND,
    ensures
        r == spec_click_range(pages@, layout, x as int, y as int),
{
    match page_at_position(pages, layout, x, y) {
        Some(pp) => source_range_for_point(&pages[pp.page], pp.x, pp.y),
        None => None,
    }
}

/// The top edge of page `n` in the stacked list: the margin plus
/// every earlier page's height and spacing.
pub open spec fn spec_stack_offset(pages: Seq<Page>, n: int, layout: StackLayout) -> int
    decreases n,
{
    if n <= 0 {
        layout.top_margin as int
    } else {
        spec_stack_offset(pages, n - 1, layout) + (if n - 1 < pages.len() {
            pages[n - 1].frame.height as int
        } else {
            0
        }) + layout.spacing
    }
}

/// The absolute list-view y of a position inside a page: the page's
/// stacked top edge plus the offset inside the page.  Unlike a
/// uniform-height approximation, this sums the actual page heights.
pub fn absolute_scroll_y(pages: &Vec<Page>, index: usize, y_in_page: i64, layout: StackLayout) -> (r:
    i64)
    requires
        forall|i: int| 0 <= i < pages@.len() ==> page_wf(#[trigger] pages@[i]),
        layout.wf(),
        index < pages@.len(),
        pages@.len() <= MAX_PAGES,
        0 <= y_in_page <= MAX_DIM,
    ensures
        r == spec_stack_offset(pages@, index as int, layout) + y_in_page,
        0 <= r,
{
    let mut acc: i64 = layout.top_margin;
    let mut i: usize = 0;
    while i < index
        invariant
            i <= index < pages@.len() <= MAX_PAGES,
            forall|j: int| 0 <= j < pages@.len() ==> page_wf(#[trigger] pages@[j]),
            layout.wf(),
            acc == spec_stack_offset(pages@, i as int, layout),
            0 <= acc,
            acc as int <= 0x4000_0000 + (i as int) * 0x8000_0000,
        decreases index - i,
    {
        proof {
            assert(page_wf(pages@[i as int]));
            assert(frame_wf(pages@[i as int].frame, MAX_DEPTH as int));
            assert(0 <= pages@[i as int].frame.height <= MAX_DIM);
        }
        acc = acc + pages[i].height() + layout.spacing;
        i = i + 1;
    }
    acc + y_in_page
}

/// Largest magnitude the absolute scroll coordinates can take.
pub const SCROLL_BOUND: i64 = 0x1_0000_0000_0000;

/// Whether the viewport must move to show `target`, and where to: stay
/// when the target is already visible, otherwise scroll so that some
/// context (three tenths of the viewport) stays above the target.
pub open spec fn spec_scroll_adjust(target: int, current: int, visible_height: int) -> Option<
    int,
> {
    if current <= target <= current + visible_height {
        None
    } else {
        Some(target - (visible_height * 3) / 10)
    }
}

/// Decides whether the list viewport must scroll to reveal `target_y`
/// and returns the new viewport top if so; a visible target leaves
/// the viewport untouched.
pub fn viewport_scroll_decision(target_y: i64, current_y: i64, visible_height: i64) -> (r: Option<
    i64,
>)
    requires
        -SCROLL_BOUND <= target_y <= SCROLL_BOUND,
        -SCROLL_BOUND <= current_y <= SCROLL_BOUND,
        0 <= visible_height <= MAX_DIM,
    ensures
        r == match spec_scroll_adjust(target_y as int, current_y as int, visible_height as int) {
            Some(v) => Some(v as i64),
            None => None::<i64>,
        },
        r matches Some(v) ==> spec_scroll_adjust(
            target_y as int,
            current_y as int,
            visible_height as int,
        ) == Some(v as int),
{
    if current_y <= target_y && target_y <= current_y + visible_height {
        None
    } else {
        Some(target_y - (visible_height * 3) / 10)
    }
}

/// The zoom the preview actually applies for a requested zoom, in
/// thousandths: the magnitude, clamped into the accepted band.
pub open spec fn spec_clamp_zoom(zoom_milli: int) -> int {
    let a = if zoom_milli < 0 {
        -zoom_milli
    } else {
        zoom_milli
    };
    if a < ZOOM_MIN_MILLI {
        ZOOM_MIN_MILLI as int
    } else if a > ZOOM_MAX_MILLI {
        ZOOM_MAX_MILLI as int
    } else {
        a
    }
}

/// Clamps a requested zoom into the accepted band.
pub fn clamp_zoom(zoom_milli: i64) -> (r: i64)
    requires
        zoom_milli > i64::MIN,
    ensures
        r == spec_clamp_zoom(zoom_milli as int),
        ZOOM_MIN_MILLI <= r <= ZOOM_MAX_MILLI,
{
    let a = if zoom_milli < 0 {
        -zoom_milli
    } else {
        zoom_milli
    };
    if a < ZOOM_MIN_MILLI {
        ZOOM_MIN_MILLI
    } else if a > ZOOM_MAX_MILLI {
        ZOOM_MAX_MILLI
    } else {
        a
    }
}

/// A click on the stacked page list, already converted by the
/// presentation surface from its pixels into layout units: the raw
/// window position (for the click highlight) and the position inside
/// the scrolled list, with the visible viewport width for horizontal
/// centering.
#[derive(Clone, Copy, PartialEq, Eq, Structural, Debug)]
pub struct ListViewClick {
    pub x: i64,
    pub y: i64,
    pub listview_x: i64,
    pub listview_y: i64,
    pub viewport_visible_width: i64,
}

impl ListViewClick {
    pub open spec fn wf(self) -> bool {
        &&& -CLICK_BOUND <= self.listview_x <= CLICK_BOUND
        &&& -CLICK_BOUND <= self.listview_y <= CLICK_BOUND
        &&& 0 <= self.viewport_visible_width <= MAX_DIM
    }
}

/// A request from the presentation surface to the preview state.
#[derive(Clone, Copy, PartialEq, Eq, Structural, Debug)]
pub enum UiRequest {
    /// A page row scrolled into view and wants its image.
    Render(usize),
    /// The user clicked into the page list.
    JumpFromClick(ListViewClick),
    /// The user changed the zoom, in thousandths.
    Zoom(i64),
}

/// What the preview state answers a [`UiRequest`] with.
#[derive(Clone, Copy, PartialEq, Eq, Structural, Debug)]
pub enum UiResponse {
    /// The row has no image yet: the surface must render the page and
    /// store the handle.
    RenderNeeded(usize),
    /// The row's image is cached under this handle.
    AlreadyRendered(u64),
    /// The requested row does not exist.
    NoSuchPage,
    /// The source range under the click, if any item claims it.
    Jump(Option<ByteRange>),
    /// The zoom that is now applied, in thousandths.
    ZoomApplied(i64),
}

/// The stack geometry the list view shows: the fixed margins with the
/// viewport width of the moment.
pub open spec fn spec_click_layout(viewport_width: i64) -> StackLayout {
    StackLayout { top_margin: PAGE_TOP_MARGIN, spacing: PAGE_SPACING, viewport_width }
}

/// What the image cache holds for one page row.
#[derive(Clone, Copy, PartialEq, Eq, Structural, Debug)]
pub enum CacheLookup {
    /// A rendered image, by the opaque handle the surface stored.
    Hit(u64),
    /// The row exists but was never rendered (or was invalidated):
    /// the surface must render it and store the handle.
    Miss,
    /// No such row.
    OutOfRange,
}

/// The lazily filled per-page image cache behind the list view: one
/// slot per page, populated on demand when a page scrolls into view,
/// dropped wholesale when the document or the zoom changes.  Handles
/// are opaque tokens the presentation surface maps to its images.
#[derive(Debug)]
pub struct PageImageCache {
    pub slots: Vec<Option<u64>>,
}

impl PageImageCache {
    pub fn new() -> (r: PageImageCache)
        ensures
            r.slots@.len() == 0,
    {
        PageImageCache { slots: Vec::new() }
    }

    /// How many rows the cache serves.
    pub fn row_count(&self) -> (r: usize)
        ensures
            r == self.slots@.len(),
    {
        self.slots.len()
    }

    /// Drops every cached image and resizes to `new_len` empty slots.
    pub fn reset_all(&mut self, new_len: usize)
        ensures
            final(self).slots@.len() == new_len,
            forall|i: int| 0 <= i < new_len ==> final(self).slots@[i] is None,
    {
        let mut slots: Vec<Option<u64>> = Vec::new();
        let mut i: usize = 0;
        while i < new_len
            invariant
                i <= new_len,
                slots@.len() == i,
                forall|j: int| 0 <= j < i ==> slots@[j] is None,
            decreases new_len - i,
        {
            slots.push(None);
            i = i + 1;
        }
        self.slots = slots;
    }

    /// What row `row` holds: a handle, a miss to be rendered, or
    /// nothing because the row does not exist.
    pub fn row_data(&self, row: usize) -> (r: CacheLookup)
        ensures
            r == if row >= self.slots@.len() {
                CacheLookup::OutOfRange
            } else {
                match self.slots@[row as int] {
                    Some(h) => CacheLookup::Hit(h),
                    None => CacheLookup::Miss,
                }
            },
    {
        if row >= self.slots.len() {
            CacheLookup::OutOfRange
        } else {
            match self.slots[row] {
                Some(h) => CacheLookup::Hit(h),
                None => CacheLookup::Miss,
            }
        }
    }

    /// Stores a rendered handle for `row`; a row out of range is
    /// ignored.
    pub fn set_row_data(&mut self, row: usize, handle: u64)
        ensures
            final(self).slots@.len() == old(self).slots@.len(),
            row < old(self).slots@.len() ==> final(self).slots@ == old(self).slots@.update(
                row as int,
                Some(handle),
            ),
            row >= old(self).slots@.len() ==> final(self).slots@ == old(self).slots@,
    {
        if row < self.slots.len() {
            self.slots[row] = Some(handle);
        }
    }
}

/// The preview surface's document state: the current pages, the image
/// cache over them, and the applied zoom.  The pages are replaced as
/// one value, so a render request issued after a swap always sees the
/// complete new set, never a torn one.
#[derive(Debug)]
pub struct PreviewState {
    pub pages: Vec<Page>,
    pub cache: PageImageCache,
    pub zoom_milli: i64,
}

impl PreviewState {
    pub open spec fn wf(self) -> bool {
        &&& self.cache.slots@.len() == self.pages@.len()
        &&& forall|i: int| 0 <= i < self.pages@.len() ==> page_wf(#[trigger] self.pages@[i])
        &&& ZOOM_MIN_MILLI <= self.zoom_milli <= ZOOM_MAX_MILLI
    }

    pub fn new() -> (r: PreviewState)
        ensures
            r.wf(),
            r.pages@.len() == 0,
            r.zoom_milli == ZOOM_UNIT_MILLI,
    {
        PreviewState { pages: Vec::new(), cache: PageImageCache::new(), zoom_milli: ZOOM_UNIT_MILLI }
    }

    pub fn page_count(&self) -> (r: usize)
        ensures
            r == self.pages@.len(),
    {
        self.pages.len()
    }

    /// Swaps in the pages of a newly published compile and drops every
    /// cached image, as one atomic replacement of the document state;
    /// hands the superseded pages back for change localization
    /// against the new ones.
    pub fn swap_document(&mut self, new_pages: Vec<Page>) -> (previous: Vec<Page>)
        requires
            old(self).wf(),
            forall|i: int| 0 <= i < new_pages@.len() ==> page_wf(#[trigger] new_pages@[i]),
        ensures
            final(self).wf(),
            final(self).pages@ == new_pages@,
            previous@ == old(self).pages@,
            forall|i: int| 0 <= i < new_pages@.len() ==> final(self).cache.slots@[i] is None,
            final(self).zoom_milli == old(self).zoom_milli,
    {
        let n = new_pages.len();
        let mut taken = new_pages;
        core::mem::swap(&mut self.pages, &mut taken);
        self.cache.reset_all(n);
        taken
    }

    /// Swaps in the pages of a newly published compile, dropping the
    /// superseded ones.
    pub fn show_document(&mut self, new_pages: Vec<Page>)
        requires
            old(self).wf(),
            forall|i: int| 0 <= i < new_pages@.len() ==> page_wf(#[trigger] new_pages@[i]),
        ensures
            final(self).wf(),
            final(self).pages@ == new_pages@,
            forall|i: int| 0 <= i < new_pages@.len() ==> final(self).cache.slots@[i] is None,
            final(self).zoom_milli == old(self).zoom_milli,
    {
        let _previous = self.swap_document(new_pages);
    }

    /// Applies a zoom request, clamped, and invalidates every cached
    /// image since they were rendered at the old zoom.
    pub fn set_zoom(&mut self, zoom_milli: i64)
        requires
            old(self).wf(),
            zoom_milli > i64::MIN,
        ensures
            final(self).wf(),
            final(self).zoom_milli == spec_clamp_zoom(zoom_milli as int),
            final(self).pages@ == old(self).pages@,
            forall|i: int|
                0 <= i < final(self).pages@.len() ==> final(self).cache.slots@[i] is None,
    {
        self.zoom_milli = clamp_zoom(zoom_milli);
        let n = self.pages.len();
        self.cache.reset_all(n);
    }

    /// What the cache holds for a page row.
    pub fn row_data(&self, row: usize) -> (r: CacheLookup)
        ensures
            r == if row >= self.cache.slots@.len() {
                CacheLookup::OutOfRange
            } else {
                match self.cache.slots@[row as int] {
                    Some(h) => CacheLookup::Hit(h),
                    None => CacheLookup::Miss,
                }
            },
    {
        self.cache.row_data(row)
    }

    /// Serves one request of the presentation surface: a render
    /// request answers from the lazy image cache, a click resolves to
    /// a source range through the stacked pages, a zoom change
    /// applies clamped and invalidates every cached image.
    pub fn handle_ui_request(&mut self, req: UiRequest) -> (r: UiResponse)
        requires
            old(self).wf(),
            req matches UiRequest::JumpFromClick(c) ==> c.wf(),
            req matches UiRequest::Zoom(z) ==> z > i64::MIN,
        ensures
            final(self).wf(),
            final(self).pages@ == old(self).pages@,
            req matches UiRequest::Render(row) ==> (*final(self) == *old(self) && r == (
            if row >= old(self).cache.slots@.len() {
                UiResponse::NoSuchPage
            } else {
                match old(self).cache.slots@[row as int] {
                    Some(h) => UiResponse::AlreadyRendered(h),
                    None => UiResponse::RenderNeeded(row),
                }
            })),
            req matches UiRequest::JumpFromClick(c) ==> (*final(self) == *old(self) && r
                == UiResponse::Jump(
                spec_click_range(
                    old(self).pages@,
                    spec_click_layout(c.viewport_visible_width),
                    c.listview_x as int,
                    c.listview_y as int,
                ),
            )),
            req matches UiRequest::Zoom(z) ==> ({
                &&& final(self).zoom_milli == spec_clamp_zoom(z as int)
                &&& r == UiResponse::ZoomApplied(final(self).zoom_milli)
                &&& forall|i: int|
                    0 <= i < final(self).pages@.len() ==> final(self).cache.slots@[i] is None
            }),
    {
        match req {
            UiRequest::Render(row) => match self.cache.row_data(row) {
                CacheLookup::Hit(h) => UiResponse::AlreadyRendered(h),
                CacheLookup::Miss => UiResponse::RenderNeeded(row),
                CacheLookup::OutOfRange => UiResponse::NoSuchPage,
            },
            UiRequest::JumpFromClick(c) => {
                let layout = StackLayout {
                    top_margin: PAGE_TOP_MARGIN,
                    spacing: PAGE_SPACING,
                    viewport_width: c.viewport_visible_width,
                };
                UiResponse::Jump(
                    source_range_for_click(&self.pages, layout, c.listview_x, c.listview_y),
                )
            },
            UiRequest::Zoom(z) => {
                self.set_zoom(z);
                UiResponse::ZoomApplied(self.zoom_milli)
            },
        }
    }

    /// Stores the handle of a freshly rendered page image.
    pub fn set_row_data(&mut self, row: usize, handle: u64)
        requires
            old(self).wf(),
        ensures
            final(self).wf(),
            final(self).pages@ == old(self).pages@,
            final(self).zoom_milli == old(self).zoom_milli,
            row < old(self).cache.slots@.len() ==> final(self).cache.slots@
                == old(self).cache.slots@.update(row as int, Some(handle)),
            row >= old(self).cache.slots@.len() ==> final(self).cache.slots@
                == old(self).cache.slots@,
    {
        self.cache.set_row_data(row, handle);
    }
}

} // verus!
