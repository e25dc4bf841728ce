//! Per-game settings that loaders consult.

use crate::base::ig_core_platform::IG_CORE_PLATFORM;
use vstd::prelude::*;

verus! {

/// The tool chain that built a game's data, which decides how packages are
/// laid out.
#[derive(Clone, Copy, Debug, PartialEq, Eq, Structural)]
pub enum BuildTool {
    NoTool,
    AlchemyLaboratory,
    TfbTool,
}

/// Settings of the game instance that is being read.
#[derive(Clone, Copy, Debug)]
pub struct igRegistry {
    pub platform: IG_CORE_PLATFORM,
    pub build_tool: BuildTool,
}

impl igRegistry {
    /// The registry of a game for `platform`; no build tool is chosen yet.
    pub fn new(platform: IG_CORE_PLATFORM) -> (registry: igRegistry)
        ensures
            registry.platform == platform,
            registry.build_tool == BuildTool::NoTool,
    {
        igRegistry { platform, build_tool: BuildTool::NoTool }
    }
}

} // verus!
