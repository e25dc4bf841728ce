//! Work items, file descriptors and the interface to the host's storage.

use crate::base::ig_core_platform::Endian;
use crate::util::byteorder_fixes::ByteCursor;
use vstd::prelude::*;

verus! {

/// What a work item asks a processor to do.
#[derive(Clone, Copy, Debug, PartialEq, Eq, Structural)]
pub enum WorkType {
    kTypeInvalid,
    kTypeExists,
    kTypeOpen,
    kTypeClose,
    kTypeRead,
    kTypeWrite,
    kTypeTruncate,
    kTypeMkdir,
    kTypeRmdir,
    kTypeFileList,
    kTypeFileListWithSizes,
    kTypeUnlink,
    kTypeRename,
    kTypePrefetch,
    kTypeFormat,
    kTypeCommit,
}

/// How far a work item has come, or why it ended.
#[derive(Clone, Copy, Debug, PartialEq, Eq, Structural)]
pub enum WorkStatus {
    kStatusInactive,
    kStatusActive,
    kStatusComplete,
    kStatusDeviceNotFound,
    kStatusInvalidPath,
    kStatusTooManyOpenFiles,
    kStatusBadParam,
    kStatusOutOfMemory,
    kStatusDiskFull,
    kStatusDoorOpen,
    kStatusReadError,
    kStatusWriteError,
    kStatusAlreadyInUse,
    kStatusAlreadyExists,
    kStatusEndOfFile,
    kStatusDeviceNotInitialized,
    kStatusMediaUnformatted,
    kStatusMediaCorrupt,
    kStatusPermissionDenied,
    kStatusGeneralError,
    kStatusStopped,
    kStatusUnsupported,
}

/// The buffer of a work item.
#[derive(Debug)]
pub enum WorkItemBuffer {
    /// File names, for listings.
    StringRefList(Vec<String>),
    /// Bytes, for reads.
    Bytes(Vec<u8>),
    /// No buffer.
    Invalid,
}

/// The processor that completed a work item.
#[derive(Clone, Copy, Debug, PartialEq, Eq, Structural)]
pub enum igProcessorKind {
    UpdateProvider,
    ArchiveManager,
    StorageDevice,
}

/// An open file: its bytes are held in memory behind a read cursor.
#[derive(Debug)]
pub struct igFileDescriptor {
    pub _path: String,
    pub _position: u64,
    pub _size: u64,
    /// The processor that opened the file.
    pub _device: Option<igProcessorKind>,
    /// The contents, once the file is open.
    pub _handle: Option<ByteCursor>,
    pub _flags: u32,
    pub _work_item_active_count: u32,
    pub endianness: Endian,
}

/// A request to the file system.
#[derive(Debug)]
pub struct igFileWorkItem {
    /// The (usual) result of processing the item.
    pub _file: igFileDescriptor,
    /// The path of the file, relative to the game's root.
    pub _path: String,
    /// Flags for opening the file.
    pub flags: u32,
    /// The work to be done.
    pub work_type: WorkType,
    /// Where the work stands.
    pub _status: WorkStatus,
    /// Where a read starts.
    pub _offset: u64,
    /// What a read or a listing fills.
    pub _buffer: WorkItemBuffer,
}

/// What the host answered to a request for a file's contents.
#[derive(Debug)]
pub enum igHostRead {
    /// The contents of the file.
    Data(Vec<u8>),
    /// There is no such file.
    NotFound,
    /// The file is there, but reading it failed.
    Failed,
}

/// One file of an archive: its name inside the archive and its contents.
#[derive(Debug)]
pub struct igArchiveEntry {
    pub name: String,
    pub data: Vec<u8>,
}

/// The storage of the host, as the file system needs it.
///
/// Nothing is promised of an implementation: the processors say what they do
/// with every answer it may give.
pub trait igHostStorage {
    /// Whether something exists at `path`.
    fn path_exists(&self, path: &str) -> bool;

    /// The contents of the file at `path`.
    fn read_file(&self, path: &str) -> igHostRead;

    /// The names of the entries of the directory at `path`, or `None` when
    /// there is no such directory.
    fn list_directory(&self, path: &str) -> Option<Vec<String>>;

    /// Removes the directory at `path` with all it holds; tells whether it
    /// did.
    fn remove_directory(&self, path: &str) -> bool;

    /// The paths of all files at or below `path`.
    fn list_files(&self, path: &str) -> Vec<String>;

    /// The files that the bytes of an archive hold, or `None` when the bytes
    /// are no archive.
    fn decode_archive(&self, bytes: &Vec<u8>) -> Option<Vec<igArchiveEntry>>;
}

} // verus!
