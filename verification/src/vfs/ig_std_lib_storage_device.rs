//! The processor that serves files from the host's storage.
//!
//! The device decides; the host does the work. Every decision is a verified
//! function of what the host answered.

use crate::util::byteorder_fixes::ByteCursor;
use crate::util::text::{
    chars_of, find_last_char, last_index_of, lemma_last_index_of, lowercase_of, string_of_range,
    text_equal, to_lowercase,
};
use crate::vfs::ig_fs::{
    igFileWorkItem, igHostRead, igHostStorage, igProcessorKind, WorkItemBuffer, WorkStatus,
    WorkType,
};
use vstd::prelude::*;

verus! {

/// A path below a base: a path that starts at the root stands for itself.
pub open spec fn spec_join(base: Seq<char>, rel: Seq<char>) -> Seq<char> {
    if rel.len() > 0 && rel[0] == '/' {
        rel
    } else if base.len() == 0 {
        rel
    } else if base.last() == '/' {
        base + rel
    } else {
        base + seq!['/'] + rel
    }
}

/// The directory that holds the last component of a path: what stands before
/// the last separator; `.` where there is none, `/` where it is the first
/// character.
pub open spec fn spec_parent(path: Seq<char>) -> Seq<char> {
    let i = last_index_of(path, '/');
    if i < 0 {
        seq!['.']
    } else if i == 0 {
        seq!['/']
    } else {
        path.subrange(0, i)
    }
}

/// The last component of a path: what stands behind the last separator.
pub open spec fn spec_last_component(path: Seq<char>) -> Seq<char> {
    path.subrange(last_index_of(path, '/') + 1, path.len() as int)
}

/// Position of the first entry, at or after `from`, that equals `target`
/// when both are put in lowercase; the number of entries when there is none.
pub open spec fn spec_find_case_insensitive(entries: Seq<String>, target: Seq<char>, from: int)
    -> int
    decreases entries.len() - from,
{
    if from < 0 || from >= entries.len() {
        entries.len() as int
    } else if lowercase_of(entries[from]@) == lowercase_of(target) {
        from
    } else {
        spec_find_case_insensitive(entries, target, from + 1)
    }
}

/// Puts a path below a base.
pub fn join_path(base: &str, rel: &str) -> (joined: String)
    ensures
        joined@ == spec_join(base@, rel@),
{
    let b = chars_of(base);
    let r = chars_of(rel);
    if r.len() > 0 && r[0] == '/' {
        return rel.to_owned();
    }
    if b.len() == 0 {
        return rel.to_owned();
    }
    let mut joined = base.to_owned();
    if b[b.len() - 1] != '/' {
        proof {
            reveal_strlit("/");
            assert("/"@ =~= seq!['/']);
        }
        joined.append("/");
    }
    joined.append(rel);
    joined
}

/// Splits a path into the directory and the last component.
pub fn split_parent(path: &str) -> (parts: (String, String))
    ensures
        parts.0@ == spec_parent(path@),
        parts.1@ == spec_last_component(path@),
{
    let p = chars_of(path);
    proof {
        lemma_last_index_of(p@, '/');
    }
    match find_last_char(&p, '/') {
        None => {
            proof {
                reveal_strlit(".");
                assert("."@ =~= seq!['.']);
            }
            (".".to_owned(), string_of_range(&p, 0, p.len()))
        },
        Some(i) => {
            let name = string_of_range(&p, i + 1, p.len());
            if i == 0 {
                proof {
                    reveal_strlit("/");
                    assert("/"@ =~= seq!['/']);
                }
                ("/".to_owned(), name)
            } else {
                (string_of_range(&p, 0, i), name)
            }
        },
    }
}

/// Finds, in the listing of a directory, the entry that stands for
/// `file_name` when case is ignored: the first whose lowercase form is that
/// of `file_name`.
pub fn find_case_insensitive_path(entries: &Vec<String>, file_name: &str) -> (found: Option<usize>)
    ensures
        match found {
            Some(i) => i < entries@.len() && i == spec_find_case_insensitive(
                entries@,
                file_name@,
                0,
            ),
            None => spec_find_case_insensitive(entries@, file_name@, 0) == entries@.len(),
        },
{
    let target = to_lowercase(file_name);
    let mut i: usize = 0;
    while i < entries.len()
        invariant
            i <= entries.len(),
            target@ == lowercase_of(file_name@),
            spec_find_case_insensitive(entries@, file_name@, 0) == spec_find_case_insensitive(
                entries@,
                file_name@,
                i as int,
            ),
        decreases entries.len() - i,
    {
        let lower = to_lowercase(entries[i].as_str());
        if text_equal(lower.as_str(), target.as_str()) {
            return Some(i);
        }
        i = i + 1;
    }
    None
}

/// The status of an open whose file the host could not hand over.
pub open spec fn spec_status_of_read(read: igHostRead) -> WorkStatus {
    match read {
        igHostRead::Data(_) => WorkStatus::kStatusComplete,
        igHostRead::NotFound => WorkStatus::kStatusInvalidPath,
        igHostRead::Failed => WorkStatus::kStatusGeneralError,
    }
}

/// What an open item looks like once the host has answered `read`: with the
/// contents it is complete and holds them behind a cursor at the start;
/// without, only its status changes.
pub open spec fn spec_opened(before: igFileWorkItem, read: igHostRead, after: igFileWorkItem)
    -> bool {
    &&& after._path == before._path
    &&& after.flags == before.flags
    &&& after.work_type == before.work_type
    &&& after._offset == before._offset
    &&& after._buffer == before._buffer
    &&& after._status == spec_status_of_read(read)
    &&& after._file._path == before._file._path
    &&& after._file.endianness == before._file.endianness
    &&& match read {
        igHostRead::Data(data) => {
            &&& after._file._handle == Some(ByteCursor { data, position: 0 })
            &&& after._file._size == data.len()
            &&& after._file._device == Some(igProcessorKind::StorageDevice)
        },
        _ => after._file == before._file,
    }
}

/// Finishes an open with the host's answer.
pub fn finish_open(work_item: &mut igFileWorkItem, read: igHostRead)
    ensures
        spec_opened(*old(work_item), read, *final(work_item)),
{
    match read {
        igHostRead::Data(data) => {
            work_item._file._size = data.len() as u64;
            work_item._file._handle = Some(ByteCursor::new(data));
            work_item._file._device = Some(igProcessorKind::StorageDevice);
            work_item._status = WorkStatus::kStatusComplete;
        },
        igHostRead::NotFound => {
            work_item._status = WorkStatus::kStatusInvalidPath;
        },
        igHostRead::Failed => {
            work_item._status = WorkStatus::kStatusGeneralError;
        },
    }
}

/// The path under which a file that was not found as written is tried
/// again: in the directory `parent`, the first entry of its listing that
/// stands for `file_name` when case is ignored. There is none where the
/// directory does not exist or lists no such entry.
pub open spec fn spec_retry_path(
    parent: Seq<char>,
    file_name: Seq<char>,
    listing: Option<Vec<String>>,
) -> Option<Seq<char>> {
    match listing {
        Some(entries) => if spec_find_case_insensitive(entries@, file_name, 0) < entries@.len() {
            Some(
                spec_join(
                    parent,
                    entries@[spec_find_case_insensitive(entries@, file_name, 0)]@,
                ),
            )
        } else {
            None
        },
        None => None,
    }
}

/// The path under which a file that was not found as written is tried
/// again, from the host's listing of its directory.
pub fn retry_path(parent: &str, file_name: &str, listing: &Option<Vec<String>>) -> (path: Option<
    String,
>)
    ensures
        match path {
            Some(p) => spec_retry_path(parent@, file_name@, *listing) == Some(p@),
            None => spec_retry_path(parent@, file_name@, *listing).is_none(),
        },
{
    match listing {
        Some(entries) => match find_case_insensitive_path(entries, file_name) {
            Some(i) => Some(join_path(parent, entries[i].as_str())),
            None => None,
        },
        None => None,
    }
}

/// What an open item looks like once the host has answered: `direct` for
/// the path as written and, where that was not found and there is a path to
/// try again, `retried` for that path.
///
/// Whatever the file is found under, the item is finished with the answer
/// for it. A file that is found neither as written nor in the listing of
/// its directory ends the item with `InvalidPath`.
pub open spec fn spec_open_concluded(
    before: igFileWorkItem,
    direct: igHostRead,
    retried: Option<igHostRead>,
    after: igFileWorkItem,
) -> bool {
    match direct {
        igHostRead::NotFound => match retried {
            Some(read) => spec_opened(before, read, after),
            None => spec_opened(before, igHostRead::NotFound, after),
        },
        _ => spec_opened(before, direct, after),
    }
}

/// Finishes an open with the answers of the host.
pub fn conclude_open(work_item: &mut igFileWorkItem, direct: igHostRead, retried: Option<igHostRead>)
    ensures
        spec_open_concluded(*old(work_item), direct, retried, *final(work_item)),
{
    match direct {
        igHostRead::NotFound => match retried {
            Some(read) => finish_open(work_item, read),
            None => finish_open(work_item, igHostRead::NotFound),
        },
        _ => finish_open(work_item, direct),
    }
}

/// What an open item for the file at `full_path` looks like once the host
/// has given its three answers: `direct` to the read of the path as
/// written, `listing` to the listing of its directory, `second` to the read
/// of the path that is tried again. The later answers count only where the
/// earlier ones ask for them.
pub open spec fn spec_open_served(
    before: igFileWorkItem,
    full_path: Seq<char>,
    direct: igHostRead,
    listing: Option<Vec<String>>,
    second: igHostRead,
    after: igFileWorkItem,
) -> bool {
    spec_open_concluded(
        before,
        direct,
        if spec_retry_path(spec_parent(full_path), spec_last_component(full_path), listing)
            is Some {
            Some(second)
        } else {
            None
        },
        after,
    )
}

/// What a read item looks like after the device has served it.
///
/// With a byte buffer and an open file, the buffer is filled from the file
/// at the item's offset and the item is complete; a buffer that reaches
/// beyond the end of the file ends the item with `EndOfFile`. Without an
/// open file the item is stopped; with another kind of buffer it fails.
pub open spec fn spec_read_served(before: igFileWorkItem, after: igFileWorkItem) -> bool {
    &&& after._path == before._path
    &&& after.flags == before.flags
    &&& after.work_type == before.work_type
    &&& after._offset == before._offset
    &&& after._file == before._file
    &&& match before._buffer {
        WorkItemBuffer::Bytes(buffer) => match before._file._handle {
            Some(handle) => if before._offset + buffer@.len() <= handle.data@.len() {
                &&& after._status == WorkStatus::kStatusComplete
                &&& after._buffer matches WorkItemBuffer::Bytes(filled)
                &&& filled@ == handle.data@.subrange(
                    before._offset as int,
                    before._offset + buffer@.len(),
                )
            } else {
                after._status == WorkStatus::kStatusEndOfFile && after._buffer == before._buffer
            },
            None => after._status == WorkStatus::kStatusStopped && after._buffer
                == before._buffer,
        },
        _ => after._status == WorkStatus::kStatusGeneralError && after._buffer == before._buffer,
    }
}

/// A storage device over the host's files. The update provider is such a
/// device with a folder of its own.
#[derive(Debug)]
pub struct igStdLibStorageDevice {
    pub _path: String,
    pub _name: String,
}

impl igStdLibStorageDevice {
    /// The device of the host's plain storage: it has no folder of its own
    /// and serves paths below the game's root.
    pub fn new() -> (device: igStdLibStorageDevice)
        ensures
            device._path@.len() == 0,
            device._name@.len() == 0,
    {
        igStdLibStorageDevice { _path: String::new(), _name: String::new() }
    }

    /// The device of an update folder: it serves paths below that folder.
    pub fn new_tfb_update_provider(update_folder: &str) -> (device: igStdLibStorageDevice)
        ensures
            device._path@ == update_folder@,
            device._name@ == "TFB Update Provider"@,
    {
        igStdLibStorageDevice {
            _path: update_folder.to_owned(),
            _name: "TFB Update Provider".to_owned(),
        }
    }

    /// The folder of the device; empty for the plain storage.
    pub fn get_path(&self) -> (path: String)
        ensures
            path@ == self._path@,
    {
        self._path.clone()
    }

    /// The name of the device.
    pub fn get_name(&self) -> (name: String)
        ensures
            name@ == self._name@,
    {
        self._name.clone()
    }

    /// The host path that a work item stands for on this device.
    pub open spec fn spec_combined_path(&self, root: Seq<char>, path: Seq<char>) -> Seq<char> {
        if self._path@.len() == 0 {
            spec_join(root, path)
        } else {
            spec_join(self._path@, path)
        }
    }

    /// The host path that a work item stands for on this device: its path
    /// below the device's folder, or below the game's root where the device
    /// has no folder.
    pub fn get_combined_path(&self, root: &str, work_item: &igFileWorkItem) -> (path: String)
        ensures
            path@ == self.spec_combined_path(root@, work_item._path@),
    {
        if self._path.as_str().unicode_len() == 0 {
            join_path(root, work_item._path.as_str())
        } else {
            join_path(self._path.as_str(), work_item._path.as_str())
        }
    }

    /// Tells whether the item's path exists on the host: `Complete` if it
    /// does, `InvalidPath` if not.
    pub fn check_exists<H: igHostStorage>(
        &self,
        host: &H,
        root: &str,
        work_item: &mut igFileWorkItem,
    )
        ensures
            final(work_item)._status == WorkStatus::kStatusComplete || final(work_item)._status
                == WorkStatus::kStatusInvalidPath,
            final(work_item)._file == old(work_item)._file,
            final(work_item)._path == old(work_item)._path,
            final(work_item)._buffer == old(work_item)._buffer,
            final(work_item).work_type == old(work_item).work_type,
    {
        let full_path = self.get_combined_path(root, work_item);
        if host.path_exists(full_path.as_str()) {
            work_item._status = WorkStatus::kStatusComplete;
        } else {
            work_item._status = WorkStatus::kStatusInvalidPath;
        }
    }

    /// Opens the item's file.
    ///
    /// The host is asked for the file under its combined path. If there is no
    /// such file, the directory that should hold it is listed and the first
    /// entry whose name matches when case is ignored is read instead; without
    /// that directory, or without such an entry, the item ends with
    /// `InvalidPath`. What the host hands over ends up behind the item's
    /// cursor; a read that fails ends the item with `GeneralError`.
    pub fn open<H: igHostStorage>(&self, host: &H, root: &str, work_item: &mut igFileWorkItem)
        ensures
            exists|read: igHostRead| spec_opened(*old(work_item), read, *final(work_item)),
            exists|direct: igHostRead, listing: Option<Vec<String>>, second: igHostRead|
                spec_open_served(
                    *old(work_item),
                    self.spec_combined_path(root@, old(work_item)._path@),
                    direct,
                    listing,
                    second,
                    *final(work_item),
                ),
    {
        let full_path = self.get_combined_path(root, work_item);
        let direct = host.read_file(full_path.as_str());
        let (parent, file_name) = split_parent(full_path.as_str());
        match direct {
            igHostRead::NotFound => {
                let listing = host.list_directory(parent.as_str());
                match retry_path(parent.as_str(), file_name.as_str(), &listing) {
                    Some(actual) => {
                        let second = host.read_file(actual.as_str());
                        conclude_open(work_item, igHostRead::NotFound, Some(second));
                        assert(spec_opened(*old(work_item), second, *work_item));
                        assert(spec_open_served(
                            *old(work_item),
                            full_path@,
                            igHostRead::NotFound,
                            listing,
                            second,
                            *work_item,
                        ));
                    },
                    None => {
                        conclude_open(work_item, igHostRead::NotFound, None);
                        assert(spec_opened(*old(work_item), igHostRead::NotFound, *work_item));
                        assert(spec_open_served(
                            *old(work_item),
                            full_path@,
                            igHostRead::NotFound,
                            listing,
                            igHostRead::NotFound,
                            *work_item,
                        ));
                    },
                }
            },
            _ => {
                conclude_open(work_item, direct, None);
                assert(spec_opened(*old(work_item), direct, *work_item));
                assert(spec_open_served(
                    *old(work_item),
                    full_path@,
                    direct,
                    None,
                    igHostRead::NotFound,
                    *work_item,
                ));
            },
        }
    }

    /// Closes the item's file: the contents are dropped.
    pub fn close(&self, work_item: &mut igFileWorkItem)
        ensures
            final(work_item)._file._handle.is_none(),
            final(work_item)._file._path == old(work_item)._file._path,
            final(work_item)._file._device == old(work_item)._file._device,
            final(work_item)._status == old(work_item)._status,
            final(work_item)._path == old(work_item)._path,
            final(work_item)._buffer == old(work_item)._buffer,
            final(work_item).work_type == old(work_item).work_type,
    {
        work_item._file._handle = None;
    }

    /// Fills the item's byte buffer from the open file, starting at the
    /// item's offset. The file's cursor stays where it is.
    pub fn read(&self, work_item: &mut igFileWorkItem)
        ensures
            spec_read_served(*old(work_item), *final(work_item)),
    {
        let wanted: usize = match &work_item._buffer {
            WorkItemBuffer::Bytes(buffer) => buffer.len(),
            _ => {
                work_item._status = WorkStatus::kStatusGeneralError;
                return ;
            },
        };
        let offset: u64 = work_item._offset;
        let filled: Vec<u8> = match &work_item._file._handle {
            Some(handle) => {
                if offset > handle.data.len() as u64 || handle.data.len() - (offset as usize)
                    < wanted {
                    work_item._status = WorkStatus::kStatusEndOfFile;
                    return ;
                }
                let start: usize = offset as usize;
                let mut out: Vec<u8> = Vec::new();
                let mut i: usize = 0;
                while i < wanted
                    invariant
                        start + wanted <= handle.data.len(),
                        i <= wanted,
                        out@ == handle.data@.subrange(start as int, start + i),
                    decreases wanted - i,
                {
                    out.push(handle.data[start + i]);
                    i = i + 1;
                    assert(handle.data@.subrange(start as int, start + i)
                        =~= handle.data@.subrange(start as int, start + i - 1).push(
                        handle.data@[start + i - 1],
                    ));
                }
                out
            },
            None => {
                work_item._status = WorkStatus::kStatusStopped;
                return ;
            },
        };
        work_item._buffer = WorkItemBuffer::Bytes(filled);
        work_item._status = WorkStatus::kStatusComplete;
    }

    /// Writing is not supported.
    pub fn write(&self, work_item: &mut igFileWorkItem)
        ensures
            spec_unsupported(*old(work_item), *final(work_item)),
    {
        work_item._status = WorkStatus::kStatusUnsupported;
    }

    /// Truncating is not supported.
    pub fn truncate(&self, work_item: &mut igFileWorkItem)
        ensures
            spec_unsupported(*old(work_item), *final(work_item)),
    {
        work_item._status = WorkStatus::kStatusUnsupported;
    }

    /// Making directories is not supported.
    pub fn mkdir(&self, work_item: &mut igFileWorkItem)
        ensures
            spec_unsupported(*old(work_item), *final(work_item)),
    {
        work_item._status = WorkStatus::kStatusUnsupported;
    }

    /// Removes the directory at the item's path with all it holds:
    /// `Complete` where the host did, `Unsupported` where it did not.
    pub fn rmdir<H: igHostStorage>(&self, host: &H, root: &str, work_item: &mut igFileWorkItem)
        ensures
            final(work_item)._status == WorkStatus::kStatusComplete || final(work_item)._status
                == WorkStatus::kStatusUnsupported,
            final(work_item)._file == old(work_item)._file,
            final(work_item)._path == old(work_item)._path,
            final(work_item)._buffer == old(work_item)._buffer,
            final(work_item).work_type == old(work_item).work_type,
    {
        let full_path = self.get_combined_path(root, work_item);
        if host.remove_directory(full_path.as_str()) {
            work_item._status = WorkStatus::kStatusComplete;
        } else {
            work_item._status = WorkStatus::kStatusUnsupported;
        }
    }

    /// Appends to the item's list the files that the host finds at or below
    /// the item's path. An item without a list fails with `GeneralError`.
    pub fn get_file_list<H: igHostStorage>(&self, host: &H, work_item: &mut igFileWorkItem)
        ensures
            final(work_item)._file == old(work_item)._file,
            final(work_item)._path == old(work_item)._path,
            final(work_item).work_type == old(work_item).work_type,
            match old(work_item)._buffer {
                WorkItemBuffer::StringRefList(before) => {
                    &&& final(work_item)._status == WorkStatus::kStatusComplete
                    &&& final(work_item)._buffer matches WorkItemBuffer::StringRefList(after)
                    &&& before@.len() <= after@.len()
                    &&& after@.subrange(0, before@.len() as int) == before@
                },
                _ => final(work_item)._status == WorkStatus::kStatusGeneralError
                    && final(work_item)._buffer == old(work_item)._buffer,
            },
    {
        match &work_item._buffer {
            WorkItemBuffer::StringRefList(_) => {},
            _ => {
                work_item._status = WorkStatus::kStatusGeneralError;
                return ;
            },
        }
        let mut found = host.list_files(work_item._path.as_str());
        match &mut work_item._buffer {
            WorkItemBuffer::StringRefList(list) => {
                let ghost before = list@;
                list.append(&mut found);
                assert(list@.subrange(0, before.len() as int) =~= before);
            },
            _ => {},
        }
        work_item._status = WorkStatus::kStatusComplete;
    }

    /// Listing with sizes is not supported.
    pub fn get_file_list_with_sizes(&self, work_item: &mut igFileWorkItem)
        ensures
            spec_unsupported(*old(work_item), *final(work_item)),
    {
        work_item._status = WorkStatus::kStatusUnsupported;
    }

    /// Unlinking is not supported.
    pub fn unlink(&self, work_item: &mut igFileWorkItem)
        ensures
            spec_unsupported(*old(work_item), *final(work_item)),
    {
        work_item._status = WorkStatus::kStatusUnsupported;
    }

    /// Renaming is not supported.
    pub fn rename(&self, work_item: &mut igFileWorkItem)
        ensures
            spec_unsupported(*old(work_item), *final(work_item)),
    {
        work_item._status = WorkStatus::kStatusUnsupported;
    }

    /// Prefetching is not supported.
    pub fn prefetch(&self, work_item: &mut igFileWorkItem)
        ensures
            spec_unsupported(*old(work_item), *final(work_item)),
    {
        work_item._status = WorkStatus::kStatusUnsupported;
    }

    /// Formatting is not supported.
    pub fn format(&self, work_item: &mut igFileWorkItem)
        ensures
            spec_unsupported(*old(work_item), *final(work_item)),
    {
        work_item._status = WorkStatus::kStatusUnsupported;
    }

    /// Committing is not supported.
    pub fn commit(&self, work_item: &mut igFileWorkItem)
        ensures
            spec_unsupported(*old(work_item), *final(work_item)),
    {
        work_item._status = WorkStatus::kStatusUnsupported;
    }

    /// Does the work that the item's type asks for. An item of type
    /// `Invalid` is left as it is.
    pub fn process<H: igHostStorage>(&self, host: &H, root: &str, work_item: &mut igFileWorkItem)
        ensures
            final(work_item)._path == old(work_item)._path,
            final(work_item).work_type == old(work_item).work_type,
            match old(work_item).work_type {
                WorkType::kTypeInvalid => *final(work_item) == *old(work_item),
                WorkType::kTypeExists => (final(work_item)._status == WorkStatus::kStatusComplete
                    || final(work_item)._status
                        == WorkStatus::kStatusInvalidPath)
                    && final(work_item)._file == old(work_item)._file,
                WorkType::kTypeOpen => (exists|read: igHostRead|
                    spec_opened(*old(work_item), read, *final(work_item))) && (exists|
                    direct: igHostRead,
                    listing: Option<Vec<String>>,
                    second: igHostRead,
                |
                    spec_open_served(
                        *old(work_item),
                        self.spec_combined_path(root@, old(work_item)._path@),
                        direct,
                        listing,
                        second,
                        *final(work_item),
                    )),
                WorkType::kTypeClose => final(work_item)._file._handle.is_none()
                    && final(work_item)._status == old(work_item)._status,
                WorkType::kTypeRead => spec_read_served(*old(work_item), *final(work_item)),
                WorkType::kTypeRmdir => (final(work_item)._status == WorkStatus::kStatusComplete
                    || final(work_item)._status
                        == WorkStatus::kStatusUnsupported)
                    && final(work_item)._file == old(work_item)._file,
                WorkType::kTypeFileList => final(work_item)._file == old(work_item)._file && (
                final(work_item)._status == WorkStatus::kStatusComplete || final(work_item)._status
                    == WorkStatus::kStatusGeneralError),
                _ => spec_unsupported(*old(work_item), *final(work_item)),
            },
    {
        match work_item.work_type {
            WorkType::kTypeInvalid => {},
            WorkType::kTypeExists => self.check_exists(host, root, work_item),
            WorkType::kTypeOpen => self.open(host, root, work_item),
            WorkType::kTypeClose => self.close(work_item),
            WorkType::kTypeRead => self.read(work_item),
            WorkType::kTypeWrite => self.write(work_item),
            WorkType::kTypeTruncate => self.truncate(work_item),
            WorkType::kTypeMkdir => self.mkdir(work_item),
            WorkType::kTypeRmdir => self.rmdir(host, root, work_item),
            WorkType::kTypeFileList => self.get_file_list(host, work_item),
            WorkType::kTypeFileListWithSizes => self.get_file_list_with_sizes(work_item),
            WorkType::kTypeUnlink => self.unlink(work_item),
            WorkType::kTypeRename => self.rename(work_item),
            WorkType::kTypePrefetch => self.prefetch(work_item),
            WorkType::kTypeFormat => self.format(work_item),
            WorkType::kTypeCommit => self.commit(work_item),
        }
    }
}

/// An item that asked for work the device does not do: its status says so
/// and nothing else changes.
pub open spec fn spec_unsupported(before: igFileWorkItem, after: igFileWorkItem) -> bool {
    after == (igFileWorkItem { _status: WorkStatus::kStatusUnsupported, ..before })
}

} // verus!
