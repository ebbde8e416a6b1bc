//! The server-side dispatch rules around the coordinator: which
//! document a source change compiles, whether its result is exported,
//! and the drain that keeps the preview on the newest published
//! document.

use vstd::prelude::*;

use crate::geom::ByteRange;
use crate::layout::Page;
use crate::workspace::FileKey;

verus! {

/// When the server exports a rendered document, from its
/// configuration.
#[derive(Clone, Copy, PartialEq, Eq, Structural, Debug)]
pub enum ExportPdfMode {
    Never,
    OnSave,
    OnType,
    OnPinnedMainType,
}

/// What a source change leads to: the document to compile, and
/// whether the result is also exported to the preview/export path or
/// only its diagnostics are published.
#[derive(Clone, Copy, PartialEq, Eq, Structural, Debug)]
pub struct SourceChangePlan {
    pub doc: FileKey,
    pub export: bool,
}

/// The dispatch rule for an edited document: export-on-type compiles
/// and exports the edited document itself; export-on-pinned-main-type
/// compiles and exports the pinned main when one is pinned, else only
/// diagnoses the edited document; every other mode only diagnoses the
/// pinned main when one is pinned, else the edited document.
pub open spec fn spec_plan_source_change(
    mode: ExportPdfMode,
    changed: FileKey,
    pinned_main: Option<FileKey>,
) -> SourceChangePlan {
    match mode {
        ExportPdfMode::OnType => SourceChangePlan { doc: changed, export: true },
        ExportPdfMode::OnPinnedMainType => match pinned_main {
            Some(main) => SourceChangePlan { doc: main, export: true },
            None => SourceChangePlan { doc: changed, export: false },
        },
        _ => SourceChangePlan {
            doc: match pinned_main {
                Some(main) => main,
                None => changed,
            },
            export: false,
        },
    }
}

/// Decides what a change to `changed` compiles and whether the result
/// is exported.
pub fn plan_source_change(mode: ExportPdfMode, changed: FileKey, pinned_main: Option<FileKey>) -> (r:
    SourceChangePlan)
    ensures
        r == spec_plan_source_change(mode, changed, pinned_main),
{
    match mode {
        ExportPdfMode::OnType => SourceChangePlan { doc: changed, export: true },
        ExportPdfMode::OnPinnedMainType => match pinned_main {
            Some(main) => SourceChangePlan { doc: main, export: true },
            None => SourceChangePlan { doc: changed, export: false },
        },
        _ => SourceChangePlan {
            doc: match pinned_main {
                Some(main) => main,
                None => changed,
            },
            export: false,
        },
    }
}

/// What the server hands the preview surface for a newly published
/// compile: the pages, the document they came from, and the
/// first-changed-range hint for scroll targeting.
#[derive(Debug)]
pub struct NewDocumentMessage {
    pub pages: Vec<Page>,
    pub doc: FileKey,
    pub first_change_range: Option<ByteRange>,
}

/// Drains a backlog of published documents to the newest one: when
/// messages piled up faster than the preview could render, only the
/// last is worth showing, the rest are superseded.
pub fn drain_to_latest(msgs: Vec<NewDocumentMessage>) -> (r: Option<NewDocumentMessage>)
    ensures
        msgs@.len() == 0 ==> r is None,
        msgs@.len() > 0 ==> (r matches Some(m) && m == msgs@.last()),
{
    let mut remaining = msgs;
    let mut latest: Option<NewDocumentMessage> = None;
    let ghost all = remaining@;
    let ghost mut taken: int = 0;
    while remaining.len() > 0
        invariant
            remaining@ =~= all.skip(taken),
            0 <= taken <= all.len(),
            taken == 0 ==> latest is None,
            taken > 0 ==> (latest matches Some(m) && m == all[taken - 1]),
        decreases remaining@.len(),
    {
        latest = Some(remaining.remove(0));
        proof {
            taken = taken + 1;
            assert(remaining@ =~= all.skip(taken));
        }
    }
    latest
}

} // verus!
