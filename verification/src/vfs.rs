//! The layered virtual file system: logical paths, work items, the chain of
//! processors (update folder, archives, host storage) and the host interface.

pub mod ig_archive;
pub mod ig_file_context;
pub mod ig_fs;
pub mod ig_memory_storage;
pub mod ig_std_lib_storage_device;
