//! Core of an editor-integration preview server: the compilation
//! coordination and workspace-caching layer.
//!
//! The library owns the source/resource state of a workspace, serializes
//! compile jobs onto a single worker, coalesces redundant recompilation
//! triggers, and maps between rendered-page positions and source byte
//! ranges.  The compiler engine, the RPC transport and the presentation
//! widget are external collaborators: their results enter the library as
//! plain values and the library's decisions leave it as plain values.

pub mod cache;
pub mod coordinator;
pub mod geom;
pub mod layout;
pub mod mapper;
pub mod result;
pub mod server;
pub mod source;
pub mod view;
pub mod worker;
pub mod workspace;
