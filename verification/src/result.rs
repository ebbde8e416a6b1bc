//! What one compile job yields: pages plus diagnostics, or a
//! distinguishable infrastructural failure.
//!
//! A document that fails to compile is a normal outcome — an empty
//! page set and a non-empty diagnostic set — never an error of the
//! coordination layer.  Only a broken serialization boundary or a
//! failed resource fetch surfaces as [`InfraError`].

use vstd::prelude::*;

use crate::geom::ByteRange;
use crate::layout::{page_wf, Page};
use crate::workspace::{FileError, FileKey};

verus! {

/// The taxonomy a diagnostic belongs to: a content error in the
/// document itself, or a resource error (missing file, unreadable
/// bytes, unresolved package) converted into a diagnostic.
#[derive(Clone, Copy, PartialEq, Eq, Structural, Debug)]
pub enum DiagnosticCategory {
    SyntaxError,
    ResourceError,
}

/// One diagnostic of a compile, anchored at a source location.
#[derive(Clone, Copy, PartialEq, Eq, Structural, Debug)]
pub struct Diagnostic {
    pub category: DiagnosticCategory,
    pub file: FileKey,
    pub span: ByteRange,
}

/// The outcome of a successful compiler invocation: the ordered pages
/// and the ordered diagnostics.  Pages are immutable once produced.
#[derive(Debug)]
pub struct CompiledResult {
    pub pages: Vec<Page>,
    pub diagnostics: Vec<Diagnostic>,
}

/// An infrastructural failure: unlike diagnostics it is reported, not
/// shown as a compile error, and a broken worker boundary ends the
/// coordination session.
#[derive(Clone, Copy, PartialEq, Eq, Structural, Debug)]
pub enum InfraError {
    /// Fetching a resource failed at the I/O layer.
    FetchFailed,
    /// The worker's execution context died.
    WorkerCrashed,
    /// The request/response channel to the worker disconnected.
    ChannelClosed,
}

/// What comes back for a submitted job.
#[derive(Debug)]
pub enum JobOutcome {
    Produced(CompiledResult),
    Failed(InfraError),
}

impl CompiledResult {
    /// All pages of the result are well-formed.
    pub open spec fn wf(self) -> bool {
        forall|i: int| 0 <= i < self.pages@.len() ==> page_wf(#[trigger] self.pages@[i])
    }

    /// An empty, diagnostic-free result.
    pub fn new() -> (r: CompiledResult)
        ensures
            r.wf(),
            r.pages@.len() == 0,
            r.diagnostics@.len() == 0,
    {
        CompiledResult { pages: Vec::new(), diagnostics: Vec::new() }
    }

    /// The outcome of a job whose main document could not be served: no
    /// pages, and exactly one resource-error diagnostic anchored at
    /// the referencing location when one is known, at the start of the
    /// file otherwise.
    pub fn from_resource_error(err: FileError, file: FileKey, anchor: Option<ByteRange>) -> (r:
        CompiledResult)
        ensures
            r.wf(),
            r.pages@.len() == 0,
            r.diagnostics@.len() == 1,
            r.diagnostics@[0] == (Diagnostic {
                category: DiagnosticCategory::ResourceError,
                file,
                span: match anchor {
                    Some(a) => a,
                    None => ByteRange { start: 0, end: 0 },
                },
            }),
    {
        let span = match anchor {
            Some(a) => a,
            None => ByteRange { start: 0, end: 0 },
        };
        // every way a read can fail is a resource error, never a
        // content error
        let category = match err {
            FileError::NotFound => DiagnosticCategory::ResourceError,
            FileError::ReadError => DiagnosticCategory::ResourceError,
            FileError::UnresolvedPackage => DiagnosticCategory::ResourceError,
        };
        let mut diagnostics: Vec<Diagnostic> = Vec::new();
        diagnostics.push(Diagnostic { category, file, span });
        CompiledResult { pages: Vec::new(), diagnostics }
    }

    /// Whether this published result replaces the preview's pages:
    /// only a compile that produced output does.  A failed compile
    /// publishes its diagnostics, but the surface keeps showing the
    /// most recent successfully compiled output.
    pub fn replaces_preview(&self) -> (r: bool)
        ensures
            r == (self.pages@.len() > 0),
    {
        self.pages.len() > 0
    }

    pub fn page_count(&self) -> (r: usize)
        ensures
            r == self.pages@.len(),
    {
        self.pages.len()
    }

    pub fn diagnostic_count(&self) -> (r: usize)
        ensures
            r == self.diagnostics@.len(),
    {
        self.diagnostics.len()
    }
}

} // verus!
