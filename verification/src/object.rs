//! The object store: objects, the directory of loaded containers, handles and
//! the resolver of references between containers.

pub mod ig_external_ref;
pub mod ig_handle;
pub mod ig_objects;
