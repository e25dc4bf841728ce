//! The state of one game instance, gathered in one place.

use crate::base::ig_ark_core::igArkCore;
use crate::base::ig_core_platform::IG_CORE_PLATFORM;
use crate::base::ig_registry::igRegistry;
use crate::client::client::CClient;
use crate::object::ig_external_ref::igExternalReferenceSystem;
use crate::object::ig_handle::igObjectHandleManager;
use crate::object::ig_objects::igObjectStreamManager;
use crate::vfs::ig_file_context::igFileContext;
use vstd::prelude::*;

verus! {

/// Used as a placeholder where no value is used but one is needed.
#[derive(Clone, Copy, Debug)]
pub struct igNoValue;

/// Everything that belongs to one loaded game.
pub struct igAlchemy {
    pub ark_core: igArkCore,
    pub file_context: igFileContext,
    pub registry: igRegistry,
    pub object_stream_manager: igObjectStreamManager,
    pub ig_ext_ref_system: igExternalReferenceSystem,
    pub ig_object_handle_manager: igObjectHandleManager,
    pub client: CClient,
}

impl igAlchemy {
    /// The state of a game before anything is loaded: the parts that are
    /// given, an empty object store, no handles, and a client with the
    /// precachers registered.
    pub fn new(
        ig_file_context: igFileContext,
        ig_registry: igRegistry,
        ig_ark_core: igArkCore,
    ) -> (alchemy:
        igAlchemy)
        ensures
            alchemy.ark_core == ig_ark_core,
            alchemy.file_context == ig_file_context,
            alchemy.registry == ig_registry,
            alchemy.object_stream_manager.wf(),
            alchemy.object_stream_manager.directories@.len() == 0,
            alchemy.object_stream_manager.objects@.len() == 0,
            alchemy.ig_object_handle_manager.spec_handles() == Map::<
                u64,
                crate::object::ig_handle::igHandle,
            >::empty(),
            alchemy.client.precache_manager.wf(),
    {
        igAlchemy {
            ark_core: ig_ark_core,
            file_context: ig_file_context,
            object_stream_manager: igObjectStreamManager::new(),
            ig_ext_ref_system: igExternalReferenceSystem::new(),
            ig_object_handle_manager: igObjectHandleManager::new(),
            client: CClient::init(&ig_registry),
            registry: ig_registry,
        }
    }
}

/// The name of a platform in file names, for the platforms that have one.
pub open spec fn spec_platform_string(platform: IG_CORE_PLATFORM) -> Option<Seq<char>> {
    match platform {
        IG_CORE_PLATFORM::IG_CORE_PLATFORM_WIN32 => Some("win"@),
        IG_CORE_PLATFORM::IG_CORE_PLATFORM_ASPEN => Some("aspenLow"@),
        IG_CORE_PLATFORM::IG_CORE_PLATFORM_ASPEN64 => Some("aspenHigh"@),
        IG_CORE_PLATFORM::IG_CORE_PLATFORM_DEFAULT => Some("unknown"@),
        IG_CORE_PLATFORM::IG_CORE_PLATFORM_WII => Some("wii"@),
        IG_CORE_PLATFORM::IG_CORE_PLATFORM_DURANGO => Some("durango"@),
        IG_CORE_PLATFORM::IG_CORE_PLATFORM_XENON => Some("xenon"@),
        IG_CORE_PLATFORM::IG_CORE_PLATFORM_PS3 => Some("ps3"@),
        IG_CORE_PLATFORM::IG_CORE_PLATFORM_OSX => Some("osx"@),
        IG_CORE_PLATFORM::IG_CORE_PLATFORM_WIN64 => Some("win64"@),
        IG_CORE_PLATFORM::IG_CORE_PLATFORM_CAFE => Some("cafe"@),
        IG_CORE_PLATFORM::IG_CORE_PLATFORM_RASPI => Some("raspi"@),
        IG_CORE_PLATFORM::IG_CORE_PLATFORM_ANDROID => Some("android"@),
        IG_CORE_PLATFORM::IG_CORE_PLATFORM_LGTV => Some("lgtv"@),
        IG_CORE_PLATFORM::IG_CORE_PLATFORM_PS4 => Some("ps4"@),
        IG_CORE_PLATFORM::IG_CORE_PLATFORM_WP8 => Some("wp8"@),
        IG_CORE_PLATFORM::IG_CORE_PLATFORM_LINUX => Some("linux"@),
        IG_CORE_PLATFORM::IG_CORE_PLATFORM_NX => Some("nx"@),
        _ => None,
    }
}

/// Whether a platform has a name in file names.
pub fn has_platform_string(platform: IG_CORE_PLATFORM) -> (has: bool)
    ensures
        has == spec_platform_string(platform).is_some(),
{
    match platform {
        IG_CORE_PLATFORM::IG_CORE_PLATFORM_NGP
        | IG_CORE_PLATFORM::IG_CORE_PLATFORM_MARMALADE
        | IG_CORE_PLATFORM::IG_CORE_PLATFORM_DEPRECATED => false,
        _ => true,
    }
}

/// The name of a platform in file names.
pub fn get_platform_string(platform: IG_CORE_PLATFORM) -> (name: String)
    requires
        spec_platform_string(platform).is_some(),
    ensures
        Some(name@) == spec_platform_string(platform),
{
    match platform {
        IG_CORE_PLATFORM::IG_CORE_PLATFORM_WIN32 => "win".to_owned(),
        IG_CORE_PLATFORM::IG_CORE_PLATFORM_ASPEN => "aspenLow".to_owned(),
        IG_CORE_PLATFORM::IG_CORE_PLATFORM_ASPEN64 => "aspenHigh".to_owned(),
        IG_CORE_PLATFORM::IG_CORE_PLATFORM_DEFAULT => "unknown".to_owned(),
        IG_CORE_PLATFORM::IG_CORE_PLATFORM_WII => "wii".to_owned(),
        IG_CORE_PLATFORM::IG_CORE_PLATFORM_DURANGO => "durango".to_owned(),
        IG_CORE_PLATFORM::IG_CORE_PLATFORM_XENON => "xenon".to_owned(),
        IG_CORE_PLATFORM::IG_CORE_PLATFORM_PS3 => "ps3".to_owned(),
        IG_CORE_PLATFORM::IG_CORE_PLATFORM_OSX => "osx".to_owned(),
        IG_CORE_PLATFORM::IG_CORE_PLATFORM_WIN64 => "win64".to_owned(),
        IG_CORE_PLATFORM::IG_CORE_PLATFORM_CAFE => "cafe".to_owned(),
        IG_CORE_PLATFORM::IG_CORE_PLATFORM_RASPI => "raspi".to_owned(),
        IG_CORE_PLATFORM::IG_CORE_PLATFORM_ANDROID => "android".to_owned(),
        IG_CORE_PLATFORM::IG_CORE_PLATFORM_LGTV => "lgtv".to_owned(),
        IG_CORE_PLATFORM::IG_CORE_PLATFORM_PS4 => "ps4".to_owned(),
        IG_CORE_PLATFORM::IG_CORE_PLATFORM_WP8 => "wp8".to_owned(),
        IG_CORE_PLATFORM::IG_CORE_PLATFORM_LINUX => "linux".to_owned(),
        IG_CORE_PLATFORM::IG_CORE_PLATFORM_NX => "nx".to_owned(),
        _ => String::new(),
    }
}

} // verus!
