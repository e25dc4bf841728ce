//! Reader for IGZ asset containers.
//!
//! The crate decodes the binary containers produced by the Alchemy tool chain
//! and rebuilds, in memory, the graph of typed objects they describe, together
//! with the directory of loaded containers, the handle system that resolves
//! references across containers, and the layered virtual file system through
//! which containers are found.
#![allow(non_camel_case_types)]
#![allow(non_snake_case)]

pub mod util;
pub mod base;
pub mod load;
pub mod object;
pub mod vfs;
pub mod meta;
pub mod client;
