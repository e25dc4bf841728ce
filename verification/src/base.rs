//! Plain enumerations shared by every component: byte order, target
//! platforms, memory pools, games and the per-game registry.

pub mod ig_ark_core;
pub mod ig_core_platform;
pub mod ig_memory;
pub mod ig_registry;
