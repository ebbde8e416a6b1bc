//! Authoritative caches behind the workspace: version-tracked source
//! buffers and insert-once resource entries.
//!
//! Both caches are association lists with unique keys; their contracts
//! speak through [`assoc_get`], the mathematical lookup function.

use vstd::prelude::*;

use crate::source::SourceBuffer;
use crate::workspace::{FileError, FileKey, ResourceKey};

verus! {

/// Lookup in an association sequence; with unique keys the position of
/// a binding does not matter.
pub open spec fn assoc_get<K, V>(s: Seq<(K, V)>, k: K) -> Option<V>
    decreases s.len(),
{
    if s.len() == 0 {
        None
    } else if s.last().0 == k {
        Some(s.last().1)
    } else {
        assoc_get(s.drop_last(), k)
    }
}

/// The keys of `s` are pairwise distinct.
pub open spec fn unique_keys<K, V>(s: Seq<(K, V)>) -> bool {
    forall|i: int, j: int| 0 <= i < j < s.len() ==> s[i].0 != s[j].0
}

/// Appending a binding resolves its key and leaves every other key as
/// it was.
pub proof fn lemma_assoc_push<K, V>(s: Seq<(K, V)>, e: (K, V), k: K)
    ensures
        assoc_get(s.push(e), k) == if e.0 == k {
            Some(e.1)
        } else {
            assoc_get(s, k)
        },
{
    assert(s.push(e).drop_last() =~= s);
    assert(s.push(e).last() == e);
}

/// A key bound nowhere resolves to nothing.
pub proof fn lemma_assoc_absent<K, V>(s: Seq<(K, V)>, k: K)
    requires
        forall|j: int| 0 <= j < s.len() ==> s[j].0 != k,
    ensures
        assoc_get(s, k) is None,
    decreases s.len(),
{
    if s.len() > 0 {
        lemma_assoc_absent(s.drop_last(), k);
    }
}

/// With its key bound only at position `i`, lookup finds exactly that
/// binding.
pub proof fn lemma_assoc_found<K, V>(s: Seq<(K, V)>, i: int, k: K)
    requires
        0 <= i < s.len(),
        s[i].0 == k,
        forall|j: int| 0 <= j < s.len() && j != i ==> s[j].0 != k,
    ensures
        assoc_get(s, k) == Some(s[i].1),
    decreases s.len(),
{
    if i == s.len() - 1 {
    } else {
        assert(s.last().0 != k);
        lemma_assoc_found(s.drop_last(), i, k);
    }
}

/// Replacing the value at the only binding of `k` rebinds `k` and
/// leaves every other key as it was.
pub proof fn lemma_assoc_update<K, V>(s: Seq<(K, V)>, i: int, k: K, v: V)
    requires
        0 <= i < s.len(),
        s[i].0 == k,
        forall|j: int| 0 <= j < s.len() && j != i ==> s[j].0 != k,
    ensures
        assoc_get(s.update(i, (k, v)), k) == Some(v),
        forall|k2: K| k2 != k ==> assoc_get(s.update(i, (k, v)), k2) == assoc_get(s, k2),
    decreases s.len(),
{
    let s2 = s.update(i, (k, v));
    if i == s.len() - 1 {
        assert(s2.last() == (k, v));
        assert(s2.drop_last() =~= s.drop_last());
        assert forall|k2: K| k2 != k implies assoc_get(s2, k2) == assoc_get(s, k2) by {
            assert(s.last().0 == k);
            assert(assoc_get(s2, k2) == assoc_get(s2.drop_last(), k2));
            assert(assoc_get(s, k2) == assoc_get(s.drop_last(), k2));
        }
    } else {
        assert(s2.last() == s.last());
        assert(s2.drop_last() =~= s.drop_last().update(i, (k, v)));
        lemma_assoc_update(s.drop_last(), i, k, v);
        assert forall|k2: K| k2 != k implies assoc_get(s2, k2) == assoc_get(s, k2) by {
            if s.last().0 == k2 {
                assert(assoc_get(s2, k2) == Some(s2.last().1));
                assert(assoc_get(s, k2) == Some(s.last().1));
            } else {
                assert(assoc_get(s2, k2) == assoc_get(s2.drop_last(), k2));
                assert(assoc_get(s, k2) == assoc_get(s.drop_last(), k2));
                assert(assoc_get(s.drop_last().update(i, (k, v)), k2) == assoc_get(
                    s.drop_last(),
                    k2,
                ));
            }
        }
    }
}

/// The state one document can be in inside the source cache: a usable
/// snapshot, or a recorded read fault.
#[derive(Debug)]
pub enum SourceState {
    Available(SourceBuffer),
    Unreadable,
}

/// Version-tracked text buffers for the documents the workspace knows.
/// Only the edit-ingestion path mutates it; every reader receives an
/// independent owning copy of a snapshot.
#[derive(Debug)]
pub struct SourceCache {
    pub entries: Vec<(FileKey, SourceState)>,
}

impl SourceCache {
    /// The cache as a lookup function from file keys to states.
    pub open spec fn spec_get(self, k: FileKey) -> Option<SourceState> {
        assoc_get(self.entries@, k)
    }

    /// Each document has exactly one entry.
    pub open spec fn wf(self) -> bool {
        unique_keys(self.entries@)
    }

    /// The version the next snapshot of `k` must carry: one past the
    /// current one, with a fresh or faulted document starting over.
    pub open spec fn spec_next_version(self, k: FileKey) -> int {
        match self.spec_get(k) {
            Some(SourceState::Available(b)) => b.version as int + 1,
            _ => 1,
        }
    }

    pub fn new() -> (r: SourceCache)
        ensures
            r.wf(),
            forall|k: FileKey| r.spec_get(k) is None,
    {
        let r = SourceCache { entries: Vec::new() };
        proof {
            assert forall|k: FileKey| r.spec_get(k) is None by {
                lemma_assoc_absent(r.entries@, k);
            }
        }
        r
    }

    /// The position of `k`'s entry, if any; rides every other method.
    fn find_index(&self, k: FileKey) -> (r: Option<usize>)
        requires
            self.wf(),
        ensures
            r matches Some(i) ==> i < self.entries@.len() && self.entries@[i as int].0 == k
                && self.spec_get(k) == Some(self.entries@[i as int].1),
            r is None ==> self.spec_get(k) is None && (forall|j: int|
                0 <= j < self.entries@.len() ==> self.entries@[j].0 != k),
    {
        let mut i: usize = 0;
        let n = self.entries.len();
        while i < n
            invariant
                self.wf(),
                i <= n == self.entries@.len(),
                forall|j: int| 0 <= j < i ==> self.entries@[j].0 != k,
            decreases n - i,
        {
            if self.entries[i].0 == k {
                proof {
                    lemma_assoc_found(self.entries@, i as int, k);
                }
                return Some(i);
            }
            i = i + 1;
        }
        proof {
            lemma_assoc_absent(self.entries@, k);
        }
        None
    }

    /// The current snapshot of `k`, as an independent owning copy;
    /// `NotFound` for an unknown document, `ReadError` for a recorded
    /// fault.
    pub fn read(&self, k: FileKey) -> (r: Result<SourceBuffer, FileError>)
        requires
            self.wf(),
        ensures
            match r {
                Ok(b) => self.spec_get(k) matches Some(SourceState::Available(b2)) && b.bytes@
                    == b2.bytes@ && b.version == b2.version,
                Err(FileError::NotFound) => self.spec_get(k) is None,
                Err(FileError::ReadError) => self.spec_get(k) == Some(SourceState::Unreadable),
                Err(_) => false,
            },
    {
        match self.find_index(k) {
            Some(i) => match &self.entries[i].1 {
                SourceState::Available(b) => Ok(SourceBuffer::new(clone_bytes(&b.bytes), b.version)),
                SourceState::Unreadable => Err(FileError::ReadError),
            },
            None => Err(FileError::NotFound),
        }
    }

    /// The version the cache currently holds for `k`, when it holds a
    /// usable snapshot.
    pub fn version_of(&self, k: FileKey) -> (r: Option<u64>)
        requires
            self.wf(),
        ensures
            r == match self.spec_get(k) {
                Some(SourceState::Available(b)) => Some(b.version),
                _ => None::<u64>,
            },
    {
        match self.find_index(k) {
            Some(i) => match &self.entries[i].1 {
                SourceState::Available(b) => Some(b.version),
                SourceState::Unreadable => None,
            },
            None => None,
        }
    }

    /// Installs the new text of `k` as a fresh snapshot one version
    /// past the previous one; every other document is untouched.
    pub fn upsert(&mut self, k: FileKey, bytes: Vec<u8>)
        requires
            old(self).wf(),
            old(self).spec_next_version(k) <= u64::MAX,
        ensures
            final(self).wf(),
            final(self).spec_get(k) matches Some(SourceState::Available(b)) && b.bytes@ == bytes@
                && b.version == old(self).spec_next_version(k),
            forall|k2: FileKey| k2 != k ==> final(self).spec_get(k2) == old(self).spec_get(k2),
    {
        let version: u64 = match self.find_index(k) {
            Some(i) => match &self.entries[i].1 {
                SourceState::Available(b) => b.version + 1,
                SourceState::Unreadable => 1,
            },
            None => 1,
        };
        let state = SourceState::Available(SourceBuffer::new(bytes, version));
        self.put(k, state);
    }

    /// Records a read fault for `k`; every other document is untouched.
    pub fn set_unreadable(&mut self, k: FileKey)
        requires
            old(self).wf(),
        ensures
            final(self).wf(),
            final(self).spec_get(k) == Some(SourceState::Unreadable),
            forall|k2: FileKey| k2 != k ==> final(self).spec_get(k2) == old(self).spec_get(k2),
    {
        self.put(k, SourceState::Unreadable);
    }

    /// Binds `k` to `state`, replacing its entry or appending one.
    fn put(&mut self, k: FileKey, state: SourceState)
        requires
            old(self).wf(),
        ensures
            final(self).wf(),
            final(self).spec_get(k) == Some(state),
            forall|k2: FileKey| k2 != k ==> final(self).spec_get(k2) == old(self).spec_get(k2),
    {
        let ghost s0 = self.entries@;
        match self.find_index(k) {
            Some(i) => {
                proof {
                    assert forall|j: int| 0 <= j < s0.len() && j != i as int implies s0[j].0 != k
                    by {
                        assert(s0[j].0 != s0[i as int].0);
                    }
                    lemma_assoc_update(s0, i as int, k, state);
                }
                self.entries[i] = (k, state);
                proof {
                    assert forall|a: int, b: int|
                        0 <= a < b < self.entries@.len() implies self.entries@[a].0
                        != self.entries@[b].0 by {
                        assert(self.entries@[a].0 == s0[a].0);
                        assert(self.entries@[b].0 == s0[b].0);
                    }
                }
            },
            None => {
                proof {
                    lemma_assoc_push(s0, (k, state), k);
                    assert forall|k2: FileKey| k2 != k implies assoc_get(s0.push((k, state)), k2)
                        == assoc_get(s0, k2) by {
                        lemma_assoc_push(s0, (k, state), k2);
                    }
                }
                self.entries.push((k, state));
                proof {
                    assert forall|a: int, b: int|
                        0 <= a < b < self.entries@.len() implies self.entries@[a].0
                        != self.entries@[b].0 by {
                        if b == s0.len() as int {
                            assert(self.entries@[a].0 == s0[a].0);
                            assert(s0[a].0 != k);
                        } else {
                            assert(self.entries@[a].0 == s0[a].0);
                            assert(self.entries@[b].0 == s0[b].0);
                        }
                    }
                }
            },
        }
    }
}

/// An independent owning copy of a byte buffer.
fn clone_bytes(v: &Vec<u8>) -> (r: Vec<u8>)
    ensures
        r@ == v@,
{
    let mut r: Vec<u8> = Vec::new();
    let n = v.len();
    let mut i: usize = 0;
    while i < n
        invariant
            i <= n == v@.len(),
            r@ == v@.subrange(0, i as int),
        decreases n - i,
    {
        r.push(v[i]);
        i = i + 1;
        proof {
            assert(r@ =~= v@.subrange(0, i as int));
        }
    }
    proof {
        assert(r@ =~= v@);
    }
    r
}

/// Immutable resource entries: inserted once, never replaced, shared by
/// every project that resolves the same identity.
#[derive(Debug)]
pub struct ResourceCache {
    pub entries: Vec<(ResourceKey, Vec<u8>)>,
}

impl ResourceCache {
    /// The cache as a lookup function from resource keys to bytes.
    pub open spec fn spec_get(self, k: ResourceKey) -> Option<Vec<u8>> {
        assoc_get(self.entries@, k)
    }

    /// Each resource identity has exactly one entry.
    pub open spec fn wf(self) -> bool {
        unique_keys(self.entries@)
    }

    pub fn new() -> (r: ResourceCache)
        ensures
            r.wf(),
            forall|k: ResourceKey| r.spec_get(k) is None,
    {
        let r = ResourceCache { entries: Vec::new() };
        proof {
            assert forall|k: ResourceKey| r.spec_get(k) is None by {
                lemma_assoc_absent(r.entries@, k);
            }
        }
        r
    }

    fn find_index(&self, k: ResourceKey) -> (r: Option<usize>)
        requires
            self.wf(),
        ensures
            r matches Some(i) ==> i < self.entries@.len() && self.entries@[i as int].0 == k
                && self.spec_get(k) == Some(self.entries@[i as int].1),
            r is None ==> self.spec_get(k) is None && (forall|j: int|
                0 <= j < self.entries@.len() ==> self.entries@[j].0 != k),
    {
        let mut i: usize = 0;
        let n = self.entries.len();
        while i < n
            invariant
                self.wf(),
                i <= n == self.entries@.len(),
                forall|j: int| 0 <= j < i ==> self.entries@[j].0 != k,
            decreases n - i,
        {
            if self.entries[i].0 == k {
                proof {
                    lemma_assoc_found(self.entries@, i as int, k);
                }
                return Some(i);
            }
            i = i + 1;
        }
        proof {
            lemma_assoc_absent(self.entries@, k);
        }
        None
    }

    /// The bytes stored under `k`, shared, not copied.
    pub fn get(&self, k: ResourceKey) -> (r: Option<&Vec<u8>>)
        requires
            self.wf(),
        ensures
            match r {
                Some(v) => self.spec_get(k) == Some(*v),
                None => self.spec_get(k) is None,
            },
    {
        match self.find_index(k) {
            Some(i) => Some(&self.entries[i].1),
            None => None,
        }
    }

    /// Whether `k` is populated.
    pub fn contains(&self, k: ResourceKey) -> (r: bool)
        requires
            self.wf(),
        ensures
            r == (self.spec_get(k) is Some),
    {
        self.find_index(k).is_some()
    }

    /// Populates `k` unless it already is: first writer wins, entries
    /// are immutable once visible.
    pub fn insert_if_absent(&mut self, k: ResourceKey, bytes: Vec<u8>) -> (inserted: bool)
        requires
            old(self).wf(),
        ensures
            final(self).wf(),
            inserted == (old(self).spec_get(k) is None),
            inserted ==> (final(self).spec_get(k) matches Some(v) && v@ == bytes@),
            !inserted ==> *final(self) == *old(self),
            forall|k2: ResourceKey|
                k2 != k ==> final(self).spec_get(k2) == old(self).spec_get(k2),
    {
        let ghost s0 = self.entries@;
        match self.find_index(k) {
            Some(_) => false,
            None => {
                proof {
                    lemma_assoc_push(s0, (k, bytes), k);
                    assert forall|k2: ResourceKey| k2 != k implies assoc_get(
                        s0.push((k, bytes)),
                        k2,
                    ) == assoc_get(s0, k2) by {
                        lemma_assoc_push(s0, (k, bytes), k2);
                    }
                }
                self.entries.push((k, bytes));
                proof {
                    assert forall|a: int, b: int|
                        0 <= a < b < self.entries@.len() implies self.entries@[a].0
                        != self.entries@[b].0 by {
                        if b == s0.len() as int {
                            assert(self.entries@[a].0 == s0[a].0);
                            assert(s0[a].0 != k);
                        } else {
                            assert(self.entries@[a].0 == s0[a].0);
                            assert(self.entries@[b].0 == s0[b].0);
                        }
                    }
                }
                true
            },
        }
    }
}

} // verus!
