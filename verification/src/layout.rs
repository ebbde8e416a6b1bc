//! The immutable layout tree a compile produces: pages of positioned
//! text runs, metadata markers and nested grouped sub-frames, plus the
//! structural content hash used for cheap change detection.
//!
//! Geometry is in integer layout units.  A page is well-formed when
//! every coordinate is non-negative, every item's box lies inside its
//! frame, glyphs advance left to right without overlapping, and
//! grouping nests at most [`MAX_DEPTH`] deep; [`Page::new`] checks all
//! of that at construction, so a `Page` value always satisfies
//! [`page_wf`].

use vstd::prelude::*;

use crate::geom::{ByteRange, MAX_DEPTH, MAX_DIM};

verus! {

/// One positioned glyph of a text run: its horizontal offset and
/// advance width inside the run, and the source span it renders.
#[derive(Clone, Copy, PartialEq, Eq, Structural, Debug)]
pub struct Glyph {
    pub x: i64,
    pub advance: i64,
    pub span: ByteRange,
}

/// A horizontal run of text at a position, with the covering source
/// range of all its glyphs.
#[derive(Debug)]
pub struct TextRun {
    pub x: i64,
    pub y: i64,
    pub width: i64,
    pub height: i64,
    pub span: ByteRange,
    pub glyphs: Vec<Glyph>,
}

/// A metadata marker with a bounding box and an associated source
/// span.
#[derive(Clone, Copy, PartialEq, Eq, Structural, Debug)]
pub struct Marker {
    pub x: i64,
    pub y: i64,
    pub width: i64,
    pub height: i64,
    pub span: ByteRange,
}

/// A nested sub-frame positioned inside its parent; its content lives
/// in the group's local coordinate frame.
#[derive(Debug)]
pub struct GroupItem {
    pub x: i64,
    pub y: i64,
    pub frame: Frame,
}

/// One positioned item of a frame, in document/paint order.
#[derive(Debug)]
pub enum LayoutItem {
    Run(TextRun),
    Group(GroupItem),
    Marker(Marker),
}

/// A laid-out rectangle of content: a size and its items in paint
/// order.
#[derive(Debug)]
pub struct Frame {
    pub width: i64,
    pub height: i64,
    pub items: Vec<LayoutItem>,
}

/// One page of a compiled document: its frame and the structural
/// content hash of that frame.
#[derive(Debug)]
pub struct Page {
    pub frame: Frame,
    pub hash: u64,
}

/// The box (x, y, w, h) lies inside a frame of size (fw, fh).
pub open spec fn box_in_frame(x: int, y: int, w: int, h: int, fw: int, fh: int) -> bool {
    &&& 0 <= x && 0 <= y && 0 <= w && 0 <= h
    &&& x + w <= fw
    &&& y + h <= fh
}

/// A glyph sits inside its run and renders a piece of the run's
/// covering range.
pub open spec fn glyph_wf(g: Glyph, run: TextRun) -> bool {
    &&& 0 <= g.x && 0 <= g.advance
    &&& g.x + g.advance <= run.width
    &&& g.span.wf()
    &&& run.span.spec_contains_range(g.span)
}

/// A text run is well-formed: ordered covering range, well-formed
/// glyphs laid out left to right without overlap.
pub open spec fn run_wf(run: TextRun) -> bool {
    &&& run.span.wf()
    &&& forall|i: int| 0 <= i < run.glyphs@.len() ==> glyph_wf(#[trigger] run.glyphs@[i], run)
    &&& forall|i: int|
        0 <= i < run.glyphs@.len() - 1 ==> (#[trigger] run.glyphs@[i]).x + run.glyphs@[i].advance
            <= run.glyphs@[i + 1].x
}

/// A marker is well-formed: an ordered span.
pub open spec fn marker_wf(m: Marker) -> bool {
    m.span.wf()
}

/// The items `s[0..n]` are well-formed inside a frame of size
/// (fw, fh), with group nesting at most `depth - 1` deep.
pub open spec fn items_wf(s: Seq<LayoutItem>, n: int, fw: int, fh: int, depth: int) -> bool
    decreases s, n,
{
    n <= 0 || {
        &&& items_wf(s, n - 1, fw, fh, depth)
        &&& n <= s.len()
        &&& match s[n - 1] {
            LayoutItem::Run(r) => run_wf(r) && box_in_frame(r.x as int, r.y as int, r.width as int, r.height as int, fw, fh),
            LayoutItem::Group(g) => box_in_frame(
                g.x as int,
                g.y as int,
                g.frame.width as int,
                g.frame.height as int,
                fw,
                fh,
            ) && frame_wf(g.frame, depth - 1),
            LayoutItem::Marker(m) => marker_wf(m) && box_in_frame(
                m.x as int,
                m.y as int,
                m.width as int,
                m.height as int,
                fw,
                fh,
            ),
        }
    }
}

/// A frame is well-formed to nesting budget `depth`.
pub open spec fn frame_wf(f: Frame, depth: int) -> bool
    decreases f, 1int,
{
    &&& 0 < depth
    &&& 0 <= f.width <= MAX_DIM
    &&& 0 <= f.height <= MAX_DIM
    &&& items_wf(f.items@, f.items@.len() as int, f.width as int, f.height as int, depth)
}

/// A page is well-formed: its frame nests within the depth budget and
/// its stored hash is the structural hash of its frame.
pub open spec fn page_wf(p: Page) -> bool {
    &&& frame_wf(p.frame, MAX_DEPTH as int)
    &&& p.hash == spec_hash_frame(p.frame, HASH_SEED)
}

/// `items_wf` gives the well-formedness of each single item.
pub proof fn lemma_items_wf_index(s: Seq<LayoutItem>, n: int, fw: int, fh: int, depth: int, i: int)
    requires
        items_wf(s, n, fw, fh, depth),
        0 <= i < n,
        n <= s.len(),
    ensures
        match s[i] {
            LayoutItem::Run(r) => run_wf(r) && box_in_frame(r.x as int, r.y as int, r.width as int, r.height as int, fw, fh),
            LayoutItem::Group(g) => box_in_frame(
                g.x as int,
                g.y as int,
                g.frame.width as int,
                g.frame.height as int,
                fw,
                fh,
            ) && frame_wf(g.frame, depth - 1),
            LayoutItem::Marker(m) => marker_wf(m) && box_in_frame(
                m.x as int,
                m.y as int,
                m.width as int,
                m.height as int,
                fw,
                fh,
            ),
        },
    decreases n,
{
    if i < n - 1 {
        lemma_items_wf_index(s, n - 1, fw, fh, depth, i);
    }
}

/// The seed the structural hash folds from.
pub const HASH_SEED: u64 = 0x9E3779B97F4A7C15;

/// One folding step of the structural hash: rotate, then mix a value
/// in.
pub open spec fn spec_mix(h: u64, v: u64) -> u64 {
    ((h << 7u64) | (h >> 57u64)) ^ v
}

/// Non-negative coordinates hash as themselves; anything else (which a
/// well-formed page never holds) collapses to zero.
pub open spec fn spec_enc(v: i64) -> u64 {
    if v >= 0 {
        v as u64
    } else {
        0
    }
}

pub open spec fn spec_hash_glyph(g: Glyph, h: u64) -> u64 {
    spec_mix(
        spec_mix(
            spec_mix(spec_mix(spec_mix(h, 11), spec_enc(g.x)), spec_enc(g.advance)),
            g.span.start as u64,
        ),
        g.span.end as u64,
    )
}

pub open spec fn spec_hash_glyphs(s: Seq<Glyph>, n: int, h: u64) -> u64
    decreases n,
{
    if n <= 0 {
        h
    } else {
        spec_hash_glyph(s[n - 1], spec_hash_glyphs(s, n - 1, h))
    }
}

pub open spec fn spec_hash_item(it: LayoutItem, h: u64) -> u64
    decreases it, 1int,
{
    match it {
        LayoutItem::Run(r) => spec_hash_glyphs(
            r.glyphs@,
            r.glyphs@.len() as int,
            spec_mix(
                spec_mix(
                    spec_mix(
                        spec_mix(
                            spec_mix(spec_mix(spec_mix(h, 2), spec_enc(r.x)), spec_enc(r.y)),
                            spec_enc(r.width),
                        ),
                        spec_enc(r.height),
                    ),
                    r.span.start as u64,
                ),
                r.span.end as u64,
            ),
        ),
        LayoutItem::Group(g) => spec_hash_frame(
            g.frame,
            spec_mix(spec_mix(spec_mix(h, 5), spec_enc(g.x)), spec_enc(g.y)),
        ),
        LayoutItem::Marker(m) => spec_mix(
            spec_mix(
                spec_mix(
                    spec_mix(
                        spec_mix(spec_mix(spec_mix(h, 3), spec_enc(m.x)), spec_enc(m.y)),
                        spec_enc(m.width),
                    ),
                    spec_enc(m.height),
                ),
                m.span.start as u64,
            ),
            m.span.end as u64,
        ),
    }
}

pub open spec fn spec_hash_items(s: Seq<LayoutItem>, n: int, h: u64) -> u64
    decreases s, n,
{
    if n <= 0 || n > s.len() {
        h
    } else {
        spec_hash_item(s[n - 1], spec_hash_items(s, n - 1, h))
    }
}

/// The structural hash of a frame: a deterministic function of the
/// whole tree, so equal trees always hash equally.
pub open spec fn spec_hash_frame(f: Frame, h: u64) -> u64
    decreases f, 2int,
{
    spec_hash_items(
        f.items@,
        f.items@.len() as int,
        spec_mix(spec_mix(spec_mix(h, 7), spec_enc(f.width)), spec_enc(f.height)),
    )
}

/// One folding step of the structural hash.
fn mix(h: u64, v: u64) -> (r: u64)
    ensures
        r == spec_mix(h, v),
{
    ((h << 7u64) | (h >> 57u64)) ^ v
}

fn enc(v: i64) -> (r: u64)
    ensures
        r == spec_enc(v),
{
    if v >= 0 {
        v as u64
    } else {
        0
    }
}

fn hash_item(it: &LayoutItem, h: u64) -> (r: u64)
    ensures
        r == spec_hash_item(*it, h),
    decreases *it, 1int,
{
    match it {
        LayoutItem::Run(r) => {
            let mut h = mix(
                mix(
                    mix(
                        mix(
                            mix(mix(mix(h, 2), enc(r.x)), enc(r.y)),
                            enc(r.width),
                        ),
                        enc(r.height),
                    ),
                    r.span.start as u64,
                ),
                r.span.end as u64,
            );
            let ghost h0 = h;
            let n = r.glyphs.len();
            let mut i: usize = 0;
            while i < n
                invariant
                    i <= n == r.glyphs@.len(),
                    h == spec_hash_glyphs(r.glyphs@, i as int, h0),
                decreases n - i,
            {
                let g = r.glyphs[i];
                h = mix(
                    mix(
                        mix(mix(mix(h, 11), enc(g.x)), enc(g.advance)),
                        g.span.start as u64,
                    ),
                    g.span.end as u64,
                );
                i = i + 1;
            }
            h
        },
        LayoutItem::Group(g) => {
            let h = mix(mix(mix(h, 5), enc(g.x)), enc(g.y));
            hash_frame(&g.frame, h)
        },
        LayoutItem::Marker(m) => mix(
            mix(
                mix(
                    mix(
                        mix(mix(mix(h, 3), enc(m.x)), enc(m.y)),
                        enc(m.width),
                    ),
                    enc(m.height),
                ),
                m.span.start as u64,
            ),
            m.span.end as u64,
        ),
    }
}

/// Computes [`spec_hash_frame`] of a frame.
fn hash_frame(f: &Frame, h: u64) -> (r: u64)
    ensures
        r == spec_hash_frame(*f, h),
    decreases *f, 2int,
{
    let mut h = mix(mix(mix(h, 7), enc(f.width)), enc(f.height));
    let ghost h0 = h;
    let n = f.items.len();
    let mut i: usize = 0;
    while i < n
        invariant
            i <= n == f.items@.len(),
            h == spec_hash_items(f.items@, i as int, h0),
        decreases n - i,
    {
        h = hash_item(&f.items[i], h);
        i = i + 1;
    }
    h
}

/// Checks [`frame_wf`] at runtime, so pages can be built from
/// untrusted engine output without a proof obligation on the caller.
fn check_frame(f: &Frame, depth: u32) -> (r: bool)
    ensures
        r == frame_wf(*f, depth as int),
    decreases *f, 1int,
{
    if depth == 0 {
        return false;
    }
    if !(0 <= f.width && f.width <= MAX_DIM && 0 <= f.height && f.height <= MAX_DIM) {
        return false;
    }
    let n = f.items.len();
    let mut i: usize = 0;
    while i < n
        invariant
            i <= n == f.items@.len(),
            depth >= 1,
            0 <= f.width <= MAX_DIM,
            0 <= f.height <= MAX_DIM,
            items_wf(f.items@, i as int, f.width as int, f.height as int, depth as int),
        decreases n - i,
    {
        let ok = match &f.items[i] {
            LayoutItem::Run(r) => check_run(r, f.width, f.height),
            LayoutItem::Group(g) => {
                let box_ok = 0 <= g.x && 0 <= g.y && g.frame.width >= 0 && g.frame.height >= 0
                    && g.x <= f.width - g.frame.width && g.y <= f.height - g.frame.height;
                box_ok && check_frame(&g.frame, depth - 1)
            },
            LayoutItem::Marker(m) => {
                m.span.start <= m.span.end && 0 <= m.x && 0 <= m.y && m.width >= 0 && m.height >= 0
                    && m.x <= f.width - m.width && m.y <= f.height - m.height
            },
        };
        if !ok {
            proof {
                if frame_wf(*f, depth as int) {
                    lemma_items_wf_index(
                        f.items@,
                        f.items@.len() as int,
                        f.width as int,
                        f.height as int,
                        depth as int,
                        i as int,
                    );
                }
            }
            return false;
        }
        i = i + 1;
    }
    true
}

/// Checks a run's own well-formedness and its box against the frame.
fn check_run(r: &TextRun, fw: i64, fh: i64) -> (ok: bool)
    requires
        0 <= fw <= MAX_DIM,
        0 <= fh <= MAX_DIM,
    ensures
        ok == (run_wf(*r) && box_in_frame(r.x as int, r.y as int, r.width as int, r.height as int, fw as int, fh as int)),
{
    let box_ok = r.span.start <= r.span.end && 0 <= r.x && 0 <= r.y && r.width >= 0 && r.height
        >= 0 && r.x <= fw - r.width && r.y <= fh - r.height;
    if !box_ok {
        return false;
    }
    let n = r.glyphs.len();
    let mut i: usize = 0;
    while i < n
        invariant
            i <= n == r.glyphs@.len(),
            r.span.wf(),
            0 <= r.width <= MAX_DIM,
            forall|j: int| 0 <= j < i ==> glyph_wf(#[trigger] r.glyphs@[j], *r),
            forall|j: int|
                0 <= j < i - 1 ==> (#[trigger] r.glyphs@[j]).x + r.glyphs@[j].advance
                    <= r.glyphs@[j + 1].x,
        decreases n - i,
    {
        let g = r.glyphs[i];
        let g_ok = 0 <= g.x && 0 <= g.advance && g.x <= r.width - g.advance && g.span.start
            <= g.span.end && r.span.start <= g.span.start && g.span.end <= r.span.end;
        if !g_ok {
            return false;
        }
        if i > 0 {
            let p = r.glyphs[i - 1];
            if !(p.x + p.advance <= g.x) {
                return false;
            }
        }
        i = i + 1;
    }
    true
}

impl Page {
    /// Builds a page from a frame the engine produced, computing its
    /// content hash; refuses a frame that is not well-formed.
    pub fn new(frame: Frame) -> (r: Option<Page>)
        ensures
            r is Some <==> frame_wf(frame, MAX_DEPTH as int),
            r matches Some(p) ==> p.frame == frame && page_wf(p),
    {
        if check_frame(&frame, MAX_DEPTH) {
            let hash = hash_frame(&frame, HASH_SEED);
            Some(Page { frame, hash })
        } else {
            None
        }
    }

    /// The stored content hash.
    pub fn content_hash(&self) -> (r: u64)
        ensures
            r == self.hash,
    {
        self.hash
    }

    /// The page's height in layout units.
    pub fn height(&self) -> (r: i64)
        ensures
            r == self.frame.height,
    {
        self.frame.height
    }

    /// The page's width in layout units.
    pub fn width(&self) -> (r: i64)
        ensures
            r == self.frame.width,
    {
        self.frame.width
    }
}

/// The content hash is a function of the frame alone: byte-identical
/// compiles, which produce equal frames, always produce equal hashes.
pub proof fn lemma_hash_deterministic(a: Page, b: Page)
    requires
        page_wf(a),
        page_wf(b),
        a.frame == b.frame,
    ensures
        a.hash == b.hash,
{
}

/// Equality of content hashes is an equivalence: reflexive, symmetric
/// and transitive.
pub proof fn lemma_hash_equality_equivalence(a: Page, b: Page, c: Page)
    ensures
        a.hash == a.hash,
        a.hash == b.hash ==> b.hash == a.hash,
        a.hash == b.hash && b.hash == c.hash ==> a.hash == c.hash,
{
}

} // verus!
