//! Identifiers, the workspace that owns all cached state, and the
//! short-lived project views scoped to one root package.
//!
//! A [`Workspace`] composes the source cache, the resource cache, the
//! font list and the package table; it answers what an identifier
//! refers to and hands out its text or bytes.  A [`Project`] holds only
//! a root package key and borrows the workspace for every read, so it
//! is cheap to build per compile job and never caches anything itself.

use vstd::prelude::*;

use crate::cache::{ResourceCache, SourceCache, SourceState};
use crate::source::SourceBuffer;

verus! {

/// The package a document or resource belongs to: the workspace's own
/// root package, or an external dependency package.
#[derive(Clone, Copy, PartialEq, Eq, Structural, Debug)]
pub enum PackageRef {
    Root,
    External { package: u64 },
}

/// A stable, by-value-comparable reference to one document: two keys
/// built for the same physical file are equal by construction.
#[derive(Clone, Copy, PartialEq, Eq, Structural, Debug)]
pub struct FileKey {
    pub package: PackageRef,
    pub file: u64,
}

/// The identity of an immutable resource entry: content-addressed
/// (fonts and other raw bytes) or package-addressed (downloaded
/// packages).
#[derive(Clone, Copy, PartialEq, Eq, Structural, Debug)]
pub enum ResourceKey {
    Content { digest: u64 },
    Package { package: u64 },
}

/// Why a read against the workspace failed.
#[derive(Clone, Copy, PartialEq, Eq, Structural, Debug)]
pub enum FileError {
    /// The workspace knows no such document.
    NotFound,
    /// The document is known but its last read faulted.
    ReadError,
    /// The document lives in an external package that has not been
    /// fetched yet.
    UnresolvedPackage,
}

/// One row of the package enumeration: a known external package and
/// its optional version tag.
#[derive(Clone, Copy, PartialEq, Eq, Structural, Debug)]
pub struct PackageInfo {
    pub package: u64,
    pub version_tag: Option<u64>,
}

/// What a package resolution request found.
#[derive(Clone, Copy, PartialEq, Eq, Structural, Debug)]
pub enum PackageLookup {
    /// The package is already cached; reads are served from the cache.
    Resolved,
    /// The package must be fetched by the I/O collaborator and handed
    /// back through [`Workspace::record_package`].
    NeedsFetch,
}

/// The owner of all cached workspace state.
#[derive(Debug)]
pub struct Workspace {
    pub sources: SourceCache,
    pub resources: ResourceCache,
    /// Content digests of the embedded fonts, in enumeration order;
    /// fixed at construction, so font indices are stable across a
    /// whole compile job.
    pub fonts: Vec<u64>,
    /// The known external packages with their optional version tags.
    pub packages: Vec<PackageInfo>,
}

impl Workspace {
    pub open spec fn wf(self) -> bool {
        &&& self.sources.wf()
        &&& self.resources.wf()
    }

    /// An external package is resolved when its entry is populated.
    pub open spec fn spec_package_resolved(self, package: u64) -> bool {
        self.resources.spec_get(ResourceKey::Package { package }) is Some
    }

    /// Whether a read of `k` must be answered at all: root documents
    /// always, external ones only once their package is resolved.
    pub open spec fn spec_key_served(self, k: FileKey) -> bool {
        match k.package {
            PackageRef::Root => true,
            PackageRef::External { package } => self.spec_package_resolved(package),
        }
    }

    pub fn new(fonts: Vec<u64>, packages: Vec<PackageInfo>) -> (r: Workspace)
        ensures
            r.wf(),
            forall|k: FileKey| r.sources.spec_get(k) is None,
            forall|k: ResourceKey| r.resources.spec_get(k) is None,
            r.fonts@ == fonts@,
            r.packages@ == packages@,
    {
        Workspace { sources: SourceCache::new(), resources: ResourceCache::new(), fonts, packages }
    }

    /// The current snapshot of `k`, an independent owning copy.  A key
    /// in an unfetched external package is refused before the source
    /// cache is consulted, so a compile job sees a consistent resource
    /// set.
    pub fn read_source(&self, k: FileKey) -> (r: Result<SourceBuffer, FileError>)
        requires
            self.wf(),
        ensures
            match r {
                Ok(b) => self.spec_key_served(k) && (self.sources.spec_get(k) matches Some(
                    SourceState::Available(b2),
                ) && b.bytes@ == b2.bytes@ && b.version == b2.version),
                Err(FileError::UnresolvedPackage) => !self.spec_key_served(k),
                Err(FileError::NotFound) => self.spec_key_served(k) && self.sources.spec_get(k)
                    is None,
                Err(FileError::ReadError) => self.spec_key_served(k) && self.sources.spec_get(k)
                    == Some(SourceState::Unreadable),
            },
    {
        match k.package {
            PackageRef::Root => {},
            PackageRef::External { package } => {
                if !self.resources.contains(ResourceKey::Package { package }) {
                    return Err(FileError::UnresolvedPackage);
                }
            },
        }
        self.sources.read(k)
    }

    /// The raw bytes of `k`: the snapshot's text, copied.
    pub fn read_bytes(&self, k: FileKey) -> (r: Result<Vec<u8>, FileError>)
        requires
            self.wf(),
        ensures
            match r {
                Ok(b) => self.spec_key_served(k) && (self.sources.spec_get(k) matches Some(
                    SourceState::Available(b2),
                ) && b@ == b2.bytes@),
                Err(FileError::UnresolvedPackage) => !self.spec_key_served(k),
                Err(FileError::NotFound) => self.spec_key_served(k) && self.sources.spec_get(k)
                    is None,
                Err(FileError::ReadError) => self.spec_key_served(k) && self.sources.spec_get(k)
                    == Some(SourceState::Unreadable),
            },
    {
        match self.read_source(k) {
            Ok(b) => Ok(b.bytes),
            Err(e) => Err(e),
        }
    }

    /// The font at `index` of the stable enumeration.
    pub fn font(&self, index: usize) -> (r: Option<u64>)
        ensures
            r == if index < self.fonts@.len() {
                Some(self.fonts@[index as int])
            } else {
                None::<u64>
            },
    {
        if index < self.fonts.len() {
            Some(self.fonts[index])
        } else {
            None
        }
    }

    /// The known external packages with their optional version tags.
    pub fn packages(&self) -> (r: &Vec<PackageInfo>)
        ensures
            r@ == self.packages@,
    {
        &self.packages
    }

    /// Answers whether `package` can be read from cache or must first
    /// be fetched by the I/O collaborator; resolution itself never
    /// does I/O.
    pub fn resolve_package(&self, package: u64) -> (r: PackageLookup)
        requires
            self.wf(),
        ensures
            r == if self.spec_package_resolved(package) {
                PackageLookup::Resolved
            } else {
                PackageLookup::NeedsFetch
            },
    {
        if self.resources.contains(ResourceKey::Package { package }) {
            PackageLookup::Resolved
        } else {
            PackageLookup::NeedsFetch
        }
    }

    /// Caches a fetched package, once: a second writer loses and the
    /// first entry stays, so entries are immutable once visible.  The
    /// package also enters the enumeration if it is new there.
    pub fn record_package(&mut self, package: u64, version_tag: Option<u64>, bytes: Vec<u8>) -> (inserted:
        bool)
        requires
            old(self).wf(),
        ensures
            final(self).wf(),
            final(self).spec_package_resolved(package),
            inserted == !old(self).spec_package_resolved(package),
            inserted ==> (final(self).resources.spec_get(ResourceKey::Package { package })
                matches Some(v) && v@ == bytes@),
            inserted ==> final(self).packages@ == old(self).packages@.push(
                PackageInfo { package, version_tag },
            ),
            !inserted ==> final(self).resources == old(self).resources,
            !inserted ==> final(self).packages@ == old(self).packages@,
            forall|k2: ResourceKey|
                k2 != (ResourceKey::Package { package }) ==> final(self).resources.spec_get(k2)
                    == old(self).resources.spec_get(k2),
            final(self).sources == old(self).sources,
            final(self).fonts@ == old(self).fonts@,
    {
        let inserted = self.resources.insert_if_absent(ResourceKey::Package { package }, bytes);
        if inserted {
            self.packages.push(PackageInfo { package, version_tag });
        }
        inserted
    }
}

/// A workspace view scoped to one root package: the capability set one
/// compile job reads through.  Created per job, never cached.
#[derive(Clone, Copy, PartialEq, Eq, Structural, Debug)]
pub struct Project {
    pub root: PackageRef,
}

impl Project {
    pub fn new(root: PackageRef) -> (r: Project)
        ensures
            r.root == root,
    {
        Project { root }
    }

    /// What a file identifier local to this project refers to.
    pub fn full_key(&self, file: u64) -> (r: FileKey)
        ensures
            r == (FileKey { package: self.root, file }),
    {
        FileKey { package: self.root, file }
    }

    /// The text of a project-local file: exactly the workspace's
    /// answer for the identifier scoped to this project's root.
    pub fn source(&self, ws: &Workspace, file: u64) -> (r: Result<SourceBuffer, FileError>)
        requires
            ws.wf(),
        ensures
            ({
                let k = FileKey { package: self.root, file };
                match r {
                    Ok(b) => ws.spec_key_served(k) && (ws.sources.spec_get(k) matches Some(
                        SourceState::Available(b2),
                    ) && b.bytes@ == b2.bytes@ && b.version == b2.version),
                    Err(FileError::UnresolvedPackage) => !ws.spec_key_served(k),
                    Err(FileError::NotFound) => ws.spec_key_served(k) && ws.sources.spec_get(k)
                        is None,
                    Err(FileError::ReadError) => ws.spec_key_served(k) && ws.sources.spec_get(k)
                        == Some(SourceState::Unreadable),
                }
            }),
    {
        ws.read_source(self.full_key(file))
    }

    /// The raw bytes of a project-local file: exactly the workspace's
    /// answer for the identifier scoped to this project's root.
    pub fn file(&self, ws: &Workspace, file: u64) -> (r: Result<Vec<u8>, FileError>)
        requires
            ws.wf(),
        ensures
            ({
                let k = FileKey { package: self.root, file };
                match r {
                    Ok(b) => ws.spec_key_served(k) && (ws.sources.spec_get(k) matches Some(
                        SourceState::Available(b2),
                    ) && b@ == b2.bytes@),
                    Err(FileError::UnresolvedPackage) => !ws.spec_key_served(k),
                    Err(FileError::NotFound) => ws.spec_key_served(k) && ws.sources.spec_get(k)
                        is None,
                    Err(FileError::ReadError) => ws.spec_key_served(k) && ws.sources.spec_get(k)
                        == Some(SourceState::Unreadable),
                }
            }),
    {
        ws.read_bytes(self.full_key(file))
    }

    /// The font at `index`, through the workspace's stable enumeration.
    pub fn font(&self, ws: &Workspace, index: usize) -> (r: Option<u64>)
        ensures
            r == if index < ws.fonts@.len() {
                Some(ws.fonts@[index as int])
            } else {
                None::<u64>
            },
    {
        ws.font(index)
    }

    /// The known external packages.
    pub fn packages<'a>(&self, ws: &'a Workspace) -> (r: &'a Vec<PackageInfo>)
        ensures
            r@ == ws.packages@,
    {
        ws.packages()
    }
}

} // verus!
