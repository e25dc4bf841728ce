//! Low-level helpers: text, byte decoding, hashing and interned names.

pub mod byteorder_fixes;
pub mod ig_common;
pub mod ig_hash;
pub mod ig_name;
pub mod sorted;
pub mod text;
