//! Type descriptors and the decoding of fields.

pub mod ig_handle_meta_field;
pub mod ig_metadata_manager;
pub mod ig_object_ref_meta_field;
