use preview_sync::geom::ByteRange;
use preview_sync::result::{CompiledResult, DiagnosticCategory};
use preview_sync::workspace::{
    FileError, FileKey, PackageInfo, PackageLookup, PackageRef, Project, ResourceKey, Workspace,
};

fn root_key(file: u64) -> FileKey {
    FileKey { package: PackageRef::Root, file }
}

fn ext_key(package: u64, file: u64) -> FileKey {
    FileKey { package: PackageRef::External { package }, file }
}

#[test]
fn source_versions_are_monotonic() {
    let mut ws = Workspace::new(Vec::new(), Vec::new());
    let k = root_key(1);
    ws.sources.upsert(k, b"one".to_vec());
    assert_eq!(ws.sources.version_of(k), Some(1));
    ws.sources.upsert(k, b"two".to_vec());
    assert_eq!(ws.sources.version_of(k), Some(2));
    let got = ws.read_source(k).unwrap();
    assert_eq!(got.bytes, b"two".to_vec());
    assert_eq!(got.version, 2);
}

#[test]
fn read_source_reports_missing_and_faulted() {
    let mut ws = Workspace::new(Vec::new(), Vec::new());
    let k = root_key(7);
    assert_eq!(ws.read_source(k).unwrap_err(), FileError::NotFound);
    ws.sources.set_unreadable(k);
    assert_eq!(ws.read_source(k).unwrap_err(), FileError::ReadError);
    ws.sources.upsert(k, b"back".to_vec());
    assert_eq!(ws.read_source(k).unwrap().bytes, b"back".to_vec());
}

#[test]
fn readers_get_independent_copies() {
    let mut ws = Workspace::new(Vec::new(), Vec::new());
    let k = root_key(1);
    ws.sources.upsert(k, b"text".to_vec());
    let mut copy = ws.read_source(k).unwrap();
    copy.bytes.push(b'!');
    // the cache still serves the original snapshot
    assert_eq!(ws.read_source(k).unwrap().bytes, b"text".to_vec());
}

#[test]
fn resource_entries_insert_once() {
    let mut ws = Workspace::new(Vec::new(), Vec::new());
    assert!(ws.record_package(5, Some(1), b"first".to_vec()));
    // the race loser's write is dropped: entries are immutable, the
    // cached bytes stay the first writer's, and the enumeration gains
    // no second row
    assert!(!ws.record_package(5, Some(2), b"second".to_vec()));
    assert_eq!(ws.resolve_package(5), PackageLookup::Resolved);
    let cached = ws.resources.get(ResourceKey::Package { package: 5 }).unwrap();
    assert_eq!(cached, &b"first".to_vec());
    assert_eq!(ws.packages().len(), 1);
    assert_eq!(ws.packages()[0], PackageInfo { package: 5, version_tag: Some(1) });
}

#[test]
fn project_reads_carry_the_error_taxonomy() {
    let mut ws = Workspace::new(Vec::new(), Vec::new());
    let external = Project::new(PackageRef::External { package: 6 });
    // the package is unfetched: refused before the cache is consulted
    assert_eq!(external.source(&ws, 1).unwrap_err(), FileError::UnresolvedPackage);
    assert_eq!(external.file(&ws, 1).unwrap_err(), FileError::UnresolvedPackage);
    // resolved but unknown file
    ws.record_package(6, None, b"pkg".to_vec());
    assert_eq!(external.source(&ws, 1).unwrap_err(), FileError::NotFound);
    assert_eq!(external.file(&ws, 1).unwrap_err(), FileError::NotFound);
    // a recorded read fault
    ws.sources.set_unreadable(ext_key(6, 1));
    assert_eq!(external.source(&ws, 1).unwrap_err(), FileError::ReadError);
    assert_eq!(external.file(&ws, 1).unwrap_err(), FileError::ReadError);
    // and finally the text itself
    ws.sources.upsert(ext_key(6, 1), b"ok".to_vec());
    assert_eq!(external.source(&ws, 1).unwrap().bytes, b"ok".to_vec());
    assert_eq!(external.file(&ws, 1).unwrap(), b"ok".to_vec());
}

#[test]
fn unresolved_package_read_is_refused() {
    let mut ws = Workspace::new(Vec::new(), Vec::new());
    let k = ext_key(9, 1);
    assert_eq!(ws.read_source(k).unwrap_err(), FileError::UnresolvedPackage);
    assert_eq!(ws.resolve_package(9), PackageLookup::NeedsFetch);
    ws.record_package(9, None, b"pkg".to_vec());
    ws.sources.upsert(k, b"fetched file".to_vec());
    assert_eq!(ws.read_source(k).unwrap().bytes, b"fetched file".to_vec());
}

#[test]
fn unresolved_package_yields_resource_error_result() {
    // a job whose main document references an unresolved package:
    // zero pages, one diagnostic, and its category is resource-error
    let ws = Workspace::new(Vec::new(), Vec::new());
    let k = ext_key(3, 1);
    let err = ws.read_source(k).unwrap_err();
    assert_eq!(err, FileError::UnresolvedPackage);
    let anchor = ByteRange::new(10, 24);
    let result = CompiledResult::from_resource_error(err, root_key(1), Some(anchor));
    assert_eq!(result.page_count(), 0);
    assert_eq!(result.diagnostic_count(), 1);
    assert_eq!(result.diagnostics[0].category, DiagnosticCategory::ResourceError);
    assert_ne!(result.diagnostics[0].category, DiagnosticCategory::SyntaxError);
    assert_eq!(result.diagnostics[0].span, anchor);
    // a compile that produced no pages never replaces the preview:
    // the surface keeps the most recent successful output
    assert!(!result.replaces_preview());
}

#[test]
fn fonts_enumerate_stably() {
    let ws = Workspace::new(vec![11, 22, 33], Vec::new());
    assert_eq!(ws.font(0), Some(11));
    assert_eq!(ws.font(2), Some(33));
    assert_eq!(ws.font(3), None);
    let project = Project::new(PackageRef::Root);
    assert_eq!(project.font(&ws, 1), Some(22));
}

#[test]
fn project_scopes_keys_to_its_root() {
    let project = Project::new(PackageRef::External { package: 4 });
    assert_eq!(project.full_key(8), ext_key(4, 8));
    let mut ws = Workspace::new(Vec::new(), Vec::new());
    ws.record_package(4, None, b"pkg".to_vec());
    ws.sources.upsert(ext_key(4, 8), b"content".to_vec());
    assert_eq!(project.source(&ws, 8).unwrap().bytes, b"content".to_vec());
    assert_eq!(project.file(&ws, 8).unwrap(), b"content".to_vec());
}
