//! Mounted archives and the processor that serves files out of them.

use crate::util::byteorder_fixes::ByteCursor;
use crate::util::ig_hash::{hash_lower, spec_hash_lower};
use crate::vfs::ig_fs::{
    igArchiveEntry, igFileWorkItem, igProcessorKind, WorkStatus, WorkType,
};
use vstd::prelude::*;

verus! {

/// A mounted archive: the path it was mounted from and its files.
#[derive(Debug)]
pub struct igArchive {
    pub _path: String,
    pub files: Vec<igArchiveEntry>,
}

/// Position of the first file of an archive, at or after `from`, whose name
/// has the case-insensitive hash `hash`; the number of files when there is
/// none.
pub open spec fn spec_find_entry(files: Seq<igArchiveEntry>, hash: u32, from: int) -> int
    decreases files.len() - from,
{
    if from < 0 || from >= files.len() {
        files.len() as int
    } else if spec_hash_lower(files[from].name@) == hash {
        from
    } else {
        spec_find_entry(files, hash, from + 1)
    }
}

/// The contents that a list of archives offers for `hash`: those of the
/// first archive, at or after `from`, that holds a file of that name.
pub open spec fn spec_find_in_archives(archives: Seq<igArchive>, hash: u32, from: int) -> Option<
    Seq<u8>,
>
    decreases archives.len() - from,
{
    if from < 0 || from >= archives.len() {
        None
    } else if spec_find_entry(archives[from].files@, hash, 0) < archives[from].files@.len() {
        Some(archives[from].files@[spec_find_entry(archives[from].files@, hash, 0)].data@)
    } else {
        spec_find_in_archives(archives, hash, from + 1)
    }
}

impl igArchive {
    /// The contents of the file named like `hash`, if the archive has one.
    pub fn find(&self, hash: u32) -> (data: Option<&Vec<u8>>)
        ensures
            match data {
                Some(d) => spec_find_entry(self.files@, hash, 0) < self.files@.len() && d@
                    == self.files@[spec_find_entry(self.files@, hash, 0)].data@,
                None => spec_find_entry(self.files@, hash, 0) == self.files@.len(),
            },
    {
        let mut i: usize = 0;
        while i < self.files.len()
            invariant
                i <= self.files.len(),
                spec_find_entry(self.files@, hash, 0) == spec_find_entry(
                    self.files@,
                    hash,
                    i as int,
                ),
            decreases self.files.len() - i,
        {
            if hash_lower(self.files[i].name.as_str()) == hash {
                return Some(&self.files[i].data);
            }
            i = i + 1;
        }
        None
    }
}

/// Searches a list of archives in order.
fn find_in_archives(archives: &Vec<igArchive>, hash: u32) -> (data: Option<&Vec<u8>>)
    ensures
        match data {
            Some(d) => spec_find_in_archives(archives@, hash, 0) == Some(d@),
            None => spec_find_in_archives(archives@, hash, 0).is_none(),
        },
{
    let mut i: usize = 0;
    while i < archives.len()
        invariant
            i <= archives.len(),
            spec_find_in_archives(archives@, hash, 0) == spec_find_in_archives(
                archives@,
                hash,
                i as int,
            ),
        decreases archives.len() - i,
    {
        match archives[i].find(hash) {
            Some(d) => {
                return Some(d);
            },
            None => {},
        }
        i = i + 1;
    }
    None
}

/// The mounted archives. Patch archives are searched before the others, so
/// that a patched file hides the file it replaces.
#[derive(Debug)]
pub struct igArchiveManager {
    pub _archives: Vec<igArchive>,
    pub _patch_archives: Vec<igArchive>,
}

/// The contents that the archives offer for a path: a patch archive wins.
pub open spec fn spec_archived(manager: igArchiveManager, path: Seq<char>) -> Option<Seq<u8>> {
    let hash = spec_hash_lower(path);
    if spec_find_in_archives(manager._patch_archives@, hash, 0).is_some() {
        spec_find_in_archives(manager._patch_archives@, hash, 0)
    } else {
        spec_find_in_archives(manager._archives@, hash, 0)
    }
}

impl igArchiveManager {
    /// A manager without archives.
    pub fn new() -> (manager: igArchiveManager)
        ensures
            manager._archives@.len() == 0,
            manager._patch_archives@.len() == 0,
    {
        igArchiveManager { _archives: Vec::new(), _patch_archives: Vec::new() }
    }

    /// The contents of the archived file at `path`, if any archive has it.
    pub fn find(&self, path: &str) -> (data: Option<&Vec<u8>>)
        ensures
            match data {
                Some(d) => spec_archived(*self, path@) == Some(d@),
                None => spec_archived(*self, path@).is_none(),
            },
    {
        let hash = hash_lower(path);
        match find_in_archives(&self._patch_archives, hash) {
            Some(d) => Some(d),
            None => find_in_archives(&self._archives, hash),
        }
    }

    /// Mounts an archive behind those already mounted.
    pub fn mount(&mut self, archive: igArchive)
        ensures
            final(self)._archives@ == old(self)._archives@.push(archive),
            final(self)._patch_archives@ == old(self)._patch_archives@,
    {
        self._archives.push(archive);
    }

    /// Mounts a patch archive behind the patch archives already mounted.
    pub fn mount_patch(&mut self, archive: igArchive)
        ensures
            final(self)._patch_archives@ == old(self)._patch_archives@.push(archive),
            final(self)._archives@ == old(self)._archives@,
    {
        self._patch_archives.push(archive);
    }

    /// Mounts what the host made of the bytes of an archive file: the files
    /// it decoded, under the path that the bytes came from, behind the
    /// archives of their sort (patch archives or others) that are mounted
    /// already. Where the host found no archive in the bytes, or there were
    /// no bytes, nothing is mounted. Tells whether an archive was mounted.
    pub fn mount_decoded(
        &mut self,
        path: String,
        decoded: Option<Vec<igArchiveEntry>>,
        patch: bool,
    ) -> (mounted: bool)
        ensures
            mounted == decoded.is_some(),
            match decoded {
                Some(files) => if patch {
                    &&& final(self)._patch_archives@ == old(self)._patch_archives@.push(
                        (igArchive { _path: path, files }),
                    )
                    &&& final(self)._archives == old(self)._archives
                } else {
                    &&& final(self)._archives@ == old(self)._archives@.push(
                        (igArchive { _path: path, files }),
                    )
                    &&& final(self)._patch_archives == old(self)._patch_archives
                },
                None => *final(self) == *old(self),
            },
    {
        match decoded {
            Some(files) => {
                if patch {
                    self._patch_archives.push(igArchive { _path: path, files });
                } else {
                    self._archives.push(igArchive { _path: path, files });
                }
                true
            },
            None => false,
        }
    }

    /// Serves a work item out of the archives.
    ///
    /// An `Exists` or `Open` item whose path is archived is completed; an
    /// `Open` item also gets a cursor over a copy of the contents. Every
    /// other item is left as it is, for the next processor.
    pub fn process(&self, work_item: &mut igFileWorkItem)
        ensures
            final(work_item)._path == old(work_item)._path,
            final(work_item).work_type == old(work_item).work_type,
            final(work_item).flags == old(work_item).flags,
            final(work_item)._offset == old(work_item)._offset,
            final(work_item)._buffer == old(work_item)._buffer,
            match spec_archived(*self, old(work_item)._path@) {
                Some(data) => if old(work_item).work_type == WorkType::kTypeOpen {
                    &&& final(work_item)._status == WorkStatus::kStatusComplete
                    &&& final(work_item)._file._handle.is_some()
                    &&& final(work_item)._file._handle->0.data@ == data
                    &&& final(work_item)._file._handle->0.position == 0
                    &&& final(work_item)._file._size == data.len()
                    &&& final(work_item)._file._device == Some(igProcessorKind::ArchiveManager)
                    &&& final(work_item)._file._path == old(work_item)._file._path
                    &&& final(work_item)._file.endianness == old(work_item)._file.endianness
                } else if old(work_item).work_type == WorkType::kTypeExists {
                    &&& final(work_item)._status == WorkStatus::kStatusComplete
                    &&& final(work_item)._file == old(work_item)._file
                } else {
                    *final(work_item) == *old(work_item)
                },
                None => *final(work_item) == *old(work_item),
            },
    {
        match work_item.work_type {
            WorkType::kTypeOpen => {
                match self.find(work_item._path.as_str()) {
                    Some(data) => {
                        let copy = copy_bytes(data);
                        work_item._file._size = copy.len() as u64;
                        work_item._file._handle = Some(ByteCursor::new(copy));
                        work_item._file._device = Some(igProcessorKind::ArchiveManager);
                        work_item._status = WorkStatus::kStatusComplete;
                    },
                    None => {},
                }
            },
            WorkType::kTypeExists => {
                match self.find(work_item._path.as_str()) {
                    Some(_) => {
                        work_item._status = WorkStatus::kStatusComplete;
                    },
                    None => {},
                }
            },
            _ => {},
        }
    }
}

/// A copy of a byte string.
pub fn copy_bytes(data: &Vec<u8>) -> (copy: Vec<u8>)
    ensures
        copy@ == data@,
{
    let mut copy: Vec<u8> = Vec::new();
    let mut i: usize = 0;
    while i < data.len()
        invariant
            i <= data.len(),
            copy@ == data@.subrange(0, i as int),
        decreases data.len() - i,
    {
        copy.push(data[i]);
        assert(data@.subrange(0, i + 1) =~= data@.subrange(0, i as int).push(data@[i as int]));
        i = i + 1;
    }
    assert(data@.subrange(0, data.len() as int) =~= data@);
    copy
}

} // verus!
