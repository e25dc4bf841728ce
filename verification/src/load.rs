//! Loading of containers: the packed offset codec, the IGZ decoder and the
//! table of loaders by file extension.

pub mod ig_igz_fixups;
pub mod ig_igz_loader;
pub mod ig_load_error;
pub mod ig_loader;
pub mod packed_ints;
