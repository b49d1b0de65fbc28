//! Persistent configuration of candidate storage paths.
//!
//! The configuration tracks the currently mounted shard path and a list of
//! candidate storage roots, each with the free space its disk reported when
//! it was added. The logic of adding, removing and querying paths lives
//! here; reading and writing the configuration file is the caller's part.

use vstd::prelude::*;

verus! {

/// A storage path together with the free space its disk reported.
#[derive(Debug, Clone, PartialEq, Eq)]
pub struct RDFSPath {
    /// The directory path.
    pub path: String,
    /// Free bytes available on the disk holding it.
    pub available: u64,
}

/// The persistent configuration: the currently mounted shard path and the
/// candidate storage roots.
#[derive(Debug, Clone, PartialEq, Eq)]
pub struct RDFSConfig {
    /// The currently mounted shard path, if any.
    pub currant_path: Option<RDFSPath>,
    /// Candidate storage roots.
    pub search_paths: Vec<RDFSPath>,
}

impl Default for RDFSPath {
    /// An empty path with no space.
    fn default() -> (r: Self)
        ensures
            r.path@ == Seq::<char>::empty(),
            r.available == 0,
    {
        RDFSPath { path: String::new(), available: 0 }
    }
}

impl Default for RDFSConfig {
    /// No mounted path and no candidates.
    fn default() -> (r: Self)
        ensures
            r.currant_path is None,
            r.search_paths@.len() == 0,
    {
        RDFSConfig { currant_path: None, search_paths: Vec::new() }
    }
}

/// Whether `base` is a whole-component prefix of `path`, by the platform's
/// path semantics.
pub uninterp spec fn path_has_prefix(base: Seq<char>, path: Seq<char>) -> bool;

/// Relies on `std::path::Path::starts_with`: whether `base` is a prefix of
/// `path`, compared component by component. The result is a function of the
/// two strings alone.
#[verifier::external_body]
fn path_starts_with(path: &String, base: &String) -> (r: bool)
    ensures
        r == path_has_prefix(base@, path@),
{
    std::path::Path::new(path.as_str()).starts_with(std::path::Path::new(base.as_str()))
}

/// Relies on `sysinfo::Disks::new_with_refreshed_list`: the mount point and
/// available space of every disk the host reports. The list depends on the
/// machine and the moment, so nothing is promised of it.
#[verifier::external_body]
fn disk_mounts() -> (r: Vec<(String, u64)>) {
    let disks = sysinfo::Disks::new_with_refreshed_list();
    disks.iter().map(
        |d| (d.mount_point().to_string_lossy().into_owned(), d.available_space()),
    ).collect()
}

/// The free space of the first listed mount that is a path-prefix of
/// `path`, if any.
pub fn free_space_in(mounts: &Vec<(String, u64)>, path: &String) -> (r: Option<u64>)
    ensures
        match r {
            Some(v) => exists|i: int|
                {
                    &&& 0 <= i < mounts@.len()
                    &&& path_has_prefix(mounts@[i].0@, path@)
                    &&& v == mounts@[i].1
                    &&& forall|k: int| 0 <= k < i ==> !path_has_prefix(mounts@[k].0@, path@)
                },
            None => forall|i: int|
                0 <= i < mounts@.len() ==> !path_has_prefix(mounts@[i].0@, path@),
        },
{
    let n = mounts.len();
    let mut i: usize = 0;
    while i < n
        invariant
            n == mounts@.len(),
            i <= n,
            forall|k: int| 0 <= k < i ==> !path_has_prefix(mounts@[k].0@, path@),
        decreases n - i,
    {
        let m = &mounts[i];
        if path_starts_with(path, &m.0) {
            return Some(m.1);
        }
        i = i + 1;
    }
    None
}

/// Looks up the free space of the disk holding `path`, where the host
/// reports one.
fn get_free_space(path: &String) -> Option<u64> {
    let mounts = disk_mounts();
    free_space_in(&mounts, path)
}

/// The search paths with every entry under the given path removed.
pub open spec fn spec_without_path(paths: Seq<RDFSPath>, path: Seq<char>) -> Seq<RDFSPath>
    decreases paths.len(),
{
    if paths.len() == 0 {
        Seq::empty()
    } else {
        spec_without_path(paths.drop_last(), path) + if paths.last().path@ == path {
            Seq::empty()
        } else {
            seq![paths.last()]
        }
    }
}

impl RDFSConfig {
    /// Adds a candidate storage root. Its available space is whatever the
    /// host reports for the disk holding it, or zero when it reports none.
    pub fn add_path(&mut self, path: String)
        ensures
            final(self).currant_path == old(self).currant_path,
            final(self).search_paths@.len() == old(self).search_paths@.len() + 1,
            final(self).search_paths@.subrange(0, old(self).search_paths@.len() as int) == old(
                self,
            ).search_paths@,
            final(self).search_paths@.last().path@ == path@,
    {
        let available = match get_free_space(&path) {
            Some(v) => v,
            None => 0,
        };
        let ghost before = self.search_paths@;
        self.search_paths.push(RDFSPath { path, available });
        proof {
            assert(self.search_paths@.subrange(0, before.len() as int) =~= before);
        }
    }

    /// Removes every candidate equal to the given path; true when at least
    /// one entry was removed.
    pub fn remove_path(&mut self, path: &String) -> (r: bool)
        ensures
            final(self).currant_path == old(self).currant_path,
            final(self).search_paths@ == spec_without_path(old(self).search_paths@, path@),
            r <==> exists|i: int|
                0 <= i < old(self).search_paths@.len() && old(self).search_paths@[i].path@
                    == path@,
    {
        let n = self.search_paths.len();
        let mut kept: Vec<RDFSPath> = Vec::new();
        let mut removed = false;
        let ghost before = self.search_paths@;
        let mut i: usize = 0;
        while i < n
            invariant
                n == before.len(),
                i <= n,
                self.currant_path == old(self).currant_path,
                self.search_paths@ == before.subrange(i as int, n as int),
                kept@ == spec_without_path(before.subrange(0, i as int), path@),
                removed <==> exists|k: int| 0 <= k < i && before[k].path@ == path@,
            decreases n - i,
        {
            let p = self.search_paths.remove(0);
            proof {
                assert(p == before[i as int]);
                assert(self.search_paths@ =~= before.subrange(i + 1, n as int));
                assert(before.subrange(0, i + 1).drop_last() =~= before.subrange(0, i as int));
                assert(before.subrange(0, i + 1).last() == before[i as int]);
            }
            if p.path == *path {
                removed = true;
                assert(before[i as int].path@ == path@);
                assert(kept@ =~= spec_without_path(before.subrange(0, i + 1), path@));
            } else {
                kept.push(p);
                proof {
                    assert(kept@ =~= spec_without_path(before.subrange(0, i + 1), path@));
                }
            }
            i = i + 1;
        }
        proof {
            assert(before.subrange(0, n as int) =~= before);
        }
        self.search_paths = kept;
        removed
    }

    /// Finds the first candidate with at least `min_space` bytes available.
    pub fn get_path_with_space(&self, min_space: u64) -> (r: Option<String>)
        ensures
            match r {
                Some(p) => exists|i: int|
                    {
                        &&& 0 <= i < self.search_paths@.len()
                        &&& self.search_paths@[i].available >= min_space
                        &&& p@ == self.search_paths@[i].path@
                        &&& forall|k: int|
                            0 <= k < i ==> self.search_paths@[k].available < min_space
                    },
                None => forall|i: int|
                    0 <= i < self.search_paths@.len() ==> self.search_paths@[i].available
                        < min_space,
            },
    {
        let n = self.search_paths.len();
        let mut i: usize = 0;
        while i < n
            invariant
                n == self.search_paths@.len(),
                i <= n,
                forall|k: int| 0 <= k < i ==> self.search_paths@[k].available < min_space,
            decreases n - i,
    {
            let p = &self.search_paths[i];
            if p.available >= min_space {
                return Some(p.path.clone());
            }
            i = i + 1;
        }
        None
    }
}

} // verus!
