//! The precache driver and the init script.
//!
//! A package is a small container whose first root object is a list of
//! strings: type tags and file names in turn. Precaching a package loads it
//! and hands every file to the precacher that is registered for its type.

use crate::base::ig_core_platform::IG_CORE_PLATFORM;
use crate::base::ig_memory::{EMemoryPoolID, MP_POOL_COUNT};
use crate::client::archive::archive_path;
use crate::client::client::CClient;
use crate::util::text::{first_index_of, lemma_first_index_of_unique};
use crate::base::ig_registry::{igRegistry, BuildTool};
use crate::client::archive::CArchive;
use crate::client::cdn::CContentDeployment;
use crate::load::ig_load_error::igLoadError;
use crate::meta::ig_metadata_manager::igMetadataManager;
use crate::object::ig_external_ref::igExternalReferenceSystem;
use crate::object::ig_handle::igObjectHandleManager;
use crate::object::ig_objects::{
    igObjectContent, igObjectDirectoryId, igObjectStreamManager, lemma_progress_reflexive,
    lemma_progress_transitive,
};
use crate::util::ig_common::{
    get_platform_string, has_platform_string, igAlchemy, spec_platform_string,
};
use crate::util::text::{
    chars_of, concat, ends_with, has_prefix, has_suffix, lowercase_of, starts_with, string_of,
    string_of_range, text_equal, to_lowercase,
};
use crate::vfs::ig_file_context::{get_file_name, igFileContext, spec_file_stem};
use crate::vfs::ig_fs::igHostStorage;
use vstd::hash_map::StringHashMap;
use vstd::prelude::*;

verus! {

/// What a precacher of one resource type does with a file of a package.
///
/// A precacher may load into the store, but keeps it well formed and leaves
/// what is in it as it is.
pub trait CResourcePreCacher {
    /// Brings a resource into the cache.
    fn precache<H: igHostStorage>(
        &self,
        host: &H,
        archive_loader: &CArchive,
        cdn: &CContentDeployment,
        ig_registry: &igRegistry,
        ig_file_context: &mut igFileContext,
        ig_object_stream_manager: &mut igObjectStreamManager,
        ig_ext_ref_system: &igExternalReferenceSystem,
        ig_metadata_manager: &igMetadataManager,
    )
        requires
            old(ig_object_stream_manager).wf(),
        ensures
            final(ig_object_stream_manager).wf(),
            old(ig_object_stream_manager).spec_extends(final(ig_object_stream_manager)),
    ;
}

/// The precacher of other packages. It caches nothing yet.
#[derive(Clone, Copy, Debug, PartialEq, Eq, Structural)]
pub struct COtherPackagePreCacher;

impl CResourcePreCacher for COtherPackagePreCacher {
    fn precache<H: igHostStorage>(
        &self,
        host: &H,
        archive_loader: &CArchive,
        cdn: &CContentDeployment,
        ig_registry: &igRegistry,
        ig_file_context: &mut igFileContext,
        ig_object_stream_manager: &mut igObjectStreamManager,
        ig_ext_ref_system: &igExternalReferenceSystem,
        ig_metadata_manager: &igMetadataManager,
    )
        ensures
            *final(ig_object_stream_manager) == *old(ig_object_stream_manager),
            *final(ig_file_context) == *old(ig_file_context),
    {
        proof {
            lemma_progress_reflexive(
                ig_object_stream_manager,
                ig_object_stream_manager.directories@.len() as int,
                ig_object_stream_manager.objects@.len() as int,
            );
        }
    }
}

/// The precacher of character data. It caches nothing yet.
#[derive(Clone, Copy, Debug, PartialEq, Eq, Structural)]
pub struct CCharacterDataPreCacher;

impl CResourcePreCacher for CCharacterDataPreCacher {
    fn precache<H: igHostStorage>(
        &self,
        host: &H,
        archive_loader: &CArchive,
        cdn: &CContentDeployment,
        ig_registry: &igRegistry,
        ig_file_context: &mut igFileContext,
        ig_object_stream_manager: &mut igObjectStreamManager,
        ig_ext_ref_system: &igExternalReferenceSystem,
        ig_metadata_manager: &igMetadataManager,
    )
        ensures
            *final(ig_object_stream_manager) == *old(ig_object_stream_manager),
            *final(ig_file_context) == *old(ig_file_context),
    {
        proof {
            lemma_progress_reflexive(
                ig_object_stream_manager,
                ig_object_stream_manager.directories@.len() as int,
                ig_object_stream_manager.objects@.len() as int,
            );
        }
    }
}

/// The precacher of actor skins. It caches nothing yet.
#[derive(Clone, Copy, Debug, PartialEq, Eq, Structural)]
pub struct CSkinPreCacher;

impl CResourcePreCacher for CSkinPreCacher {
    fn precache<H: igHostStorage>(
        &self,
        host: &H,
        archive_loader: &CArchive,
        cdn: &CContentDeployment,
        ig_registry: &igRegistry,
        ig_file_context: &mut igFileContext,
        ig_object_stream_manager: &mut igObjectStreamManager,
        ig_ext_ref_system: &igExternalReferenceSystem,
        ig_metadata_manager: &igMetadataManager,
    )
        ensures
            *final(ig_object_stream_manager) == *old(ig_object_stream_manager),
            *final(ig_file_context) == *old(ig_file_context),
    {
        proof {
            lemma_progress_reflexive(
                ig_object_stream_manager,
                ig_object_stream_manager.directories@.len() as int,
                ig_object_stream_manager.objects@.len() as int,
            );
        }
    }
}

/// The precacher of Havok animation databases. It caches nothing yet.
#[derive(Clone, Copy, Debug, PartialEq, Eq, Structural)]
pub struct CHavokAnimDBPreCacher;

impl CResourcePreCacher for CHavokAnimDBPreCacher {
    fn precache<H: igHostStorage>(
        &self,
        host: &H,
        archive_loader: &CArchive,
        cdn: &CContentDeployment,
        ig_registry: &igRegistry,
        ig_file_context: &mut igFileContext,
        ig_object_stream_manager: &mut igObjectStreamManager,
        ig_ext_ref_system: &igExternalReferenceSystem,
        ig_metadata_manager: &igMetadataManager,
    )
        ensures
            *final(ig_object_stream_manager) == *old(ig_object_stream_manager),
            *final(ig_file_context) == *old(ig_file_context),
    {
        proof {
            lemma_progress_reflexive(
                ig_object_stream_manager,
                ig_object_stream_manager.directories@.len() as int,
                ig_object_stream_manager.objects@.len() as int,
            );
        }
    }
}

/// The precacher of Havok rigid bodies and physics systems. It caches nothing yet.
#[derive(Clone, Copy, Debug, PartialEq, Eq, Structural)]
pub struct CHavokPhysicsSystemPreCacher;

impl CResourcePreCacher for CHavokPhysicsSystemPreCacher {
    fn precache<H: igHostStorage>(
        &self,
        host: &H,
        archive_loader: &CArchive,
        cdn: &CContentDeployment,
        ig_registry: &igRegistry,
        ig_file_context: &mut igFileContext,
        ig_object_stream_manager: &mut igObjectStreamManager,
        ig_ext_ref_system: &igExternalReferenceSystem,
        ig_metadata_manager: &igMetadataManager,
    )
        ensures
            *final(ig_object_stream_manager) == *old(ig_object_stream_manager),
            *final(ig_file_context) == *old(ig_file_context),
    {
        proof {
            lemma_progress_reflexive(
                ig_object_stream_manager,
                ig_object_stream_manager.directories@.len() as int,
                ig_object_stream_manager.objects@.len() as int,
            );
        }
    }
}

/// The precacher of textures. It caches nothing yet.
#[derive(Clone, Copy, Debug, PartialEq, Eq, Structural)]
pub struct CTexturePreCacher;

impl CResourcePreCacher for CTexturePreCacher {
    fn precache<H: igHostStorage>(
        &self,
        host: &H,
        archive_loader: &CArchive,
        cdn: &CContentDeployment,
        ig_registry: &igRegistry,
        ig_file_context: &mut igFileContext,
        ig_object_stream_manager: &mut igObjectStreamManager,
        ig_ext_ref_system: &igExternalReferenceSystem,
        ig_metadata_manager: &igMetadataManager,
    )
        ensures
            *final(ig_object_stream_manager) == *old(ig_object_stream_manager),
            *final(ig_file_context) == *old(ig_file_context),
    {
        proof {
            lemma_progress_reflexive(
                ig_object_stream_manager,
                ig_object_stream_manager.directories@.len() as int,
                ig_object_stream_manager.objects@.len() as int,
            );
        }
    }
}

/// The precacher of effects. It caches nothing yet.
#[derive(Clone, Copy, Debug, PartialEq, Eq, Structural)]
pub struct CVfxPreCacher;

impl CResourcePreCacher for CVfxPreCacher {
    fn precache<H: igHostStorage>(
        &self,
        host: &H,
        archive_loader: &CArchive,
        cdn: &CContentDeployment,
        ig_registry: &igRegistry,
        ig_file_context: &mut igFileContext,
        ig_object_stream_manager: &mut igObjectStreamManager,
        ig_ext_ref_system: &igExternalReferenceSystem,
        ig_metadata_manager: &igMetadataManager,
    )
        ensures
            *final(ig_object_stream_manager) == *old(ig_object_stream_manager),
            *final(ig_file_context) == *old(ig_file_context),
    {
        proof {
            lemma_progress_reflexive(
                ig_object_stream_manager,
                ig_object_stream_manager.directories@.len() as int,
                ig_object_stream_manager.objects@.len() as int,
            );
        }
    }
}

/// The precacher of shaders. It caches nothing yet.
#[derive(Clone, Copy, Debug, PartialEq, Eq, Structural)]
pub struct CShaderPreCacher;

impl CResourcePreCacher for CShaderPreCacher {
    fn precache<H: igHostStorage>(
        &self,
        host: &H,
        archive_loader: &CArchive,
        cdn: &CContentDeployment,
        ig_registry: &igRegistry,
        ig_file_context: &mut igFileContext,
        ig_object_stream_manager: &mut igObjectStreamManager,
        ig_ext_ref_system: &igExternalReferenceSystem,
        ig_metadata_manager: &igMetadataManager,
    )
        ensures
            *final(ig_object_stream_manager) == *old(ig_object_stream_manager),
            *final(ig_file_context) == *old(ig_file_context),
    {
        proof {
            lemma_progress_reflexive(
                ig_object_stream_manager,
                ig_object_stream_manager.directories@.len() as int,
                ig_object_stream_manager.objects@.len() as int,
            );
        }
    }
}

/// The precacher of motion paths. It caches nothing yet.
#[derive(Clone, Copy, Debug, PartialEq, Eq, Structural)]
pub struct CMotionPathPreCacher;

impl CResourcePreCacher for CMotionPathPreCacher {
    fn precache<H: igHostStorage>(
        &self,
        host: &H,
        archive_loader: &CArchive,
        cdn: &CContentDeployment,
        ig_registry: &igRegistry,
        ig_file_context: &mut igFileContext,
        ig_object_stream_manager: &mut igObjectStreamManager,
        ig_ext_ref_system: &igExternalReferenceSystem,
        ig_metadata_manager: &igMetadataManager,
    )
        ensures
            *final(ig_object_stream_manager) == *old(ig_object_stream_manager),
            *final(ig_file_context) == *old(ig_file_context),
    {
        proof {
            lemma_progress_reflexive(
                ig_object_stream_manager,
                ig_object_stream_manager.directories@.len() as int,
                ig_object_stream_manager.objects@.len() as int,
            );
        }
    }
}

/// The precacher of plain container files and spawn meshes. It caches nothing yet.
#[derive(Clone, Copy, Debug, PartialEq, Eq, Structural)]
pub struct CIgFilePreCacher;

impl CResourcePreCacher for CIgFilePreCacher {
    fn precache<H: igHostStorage>(
        &self,
        host: &H,
        archive_loader: &CArchive,
        cdn: &CContentDeployment,
        ig_registry: &igRegistry,
        ig_file_context: &mut igFileContext,
        ig_object_stream_manager: &mut igObjectStreamManager,
        ig_ext_ref_system: &igExternalReferenceSystem,
        ig_metadata_manager: &igMetadataManager,
    )
        ensures
            *final(ig_object_stream_manager) == *old(ig_object_stream_manager),
            *final(ig_file_context) == *old(ig_file_context),
    {
        proof {
            lemma_progress_reflexive(
                ig_object_stream_manager,
                ig_object_stream_manager.directories@.len() as int,
                ig_object_stream_manager.objects@.len() as int,
            );
        }
    }
}

/// The precacher of material instances. It caches nothing yet.
#[derive(Clone, Copy, Debug, PartialEq, Eq, Structural)]
pub struct CMaterialPreCacher;

impl CResourcePreCacher for CMaterialPreCacher {
    fn precache<H: igHostStorage>(
        &self,
        host: &H,
        archive_loader: &CArchive,
        cdn: &CContentDeployment,
        ig_registry: &igRegistry,
        ig_file_context: &mut igFileContext,
        ig_object_stream_manager: &mut igObjectStreamManager,
        ig_ext_ref_system: &igExternalReferenceSystem,
        ig_metadata_manager: &igMetadataManager,
    )
        ensures
            *final(ig_object_stream_manager) == *old(ig_object_stream_manager),
            *final(ig_file_context) == *old(ig_file_context),
    {
        proof {
            lemma_progress_reflexive(
                ig_object_stream_manager,
                ig_object_stream_manager.directories@.len() as int,
                ig_object_stream_manager.objects@.len() as int,
            );
        }
    }
}

/// The precacher of entities. It caches nothing yet.
#[derive(Clone, Copy, Debug, PartialEq, Eq, Structural)]
pub struct CEntityPreCacher;

impl CResourcePreCacher for CEntityPreCacher {
    fn precache<H: igHostStorage>(
        &self,
        host: &H,
        archive_loader: &CArchive,
        cdn: &CContentDeployment,
        ig_registry: &igRegistry,
        ig_file_context: &mut igFileContext,
        ig_object_stream_manager: &mut igObjectStreamManager,
        ig_ext_ref_system: &igExternalReferenceSystem,
        ig_metadata_manager: &igMetadataManager,
    )
        ensures
            *final(ig_object_stream_manager) == *old(ig_object_stream_manager),
            *final(ig_file_context) == *old(ig_file_context),
    {
        proof {
            lemma_progress_reflexive(
                ig_object_stream_manager,
                ig_object_stream_manager.directories@.len() as int,
                ig_object_stream_manager.objects@.len() as int,
            );
        }
    }
}

/// The precacher of GUI projects. It caches nothing yet.
#[derive(Clone, Copy, Debug, PartialEq, Eq, Structural)]
pub struct CGuiProjectPreCacher;

impl CResourcePreCacher for CGuiProjectPreCacher {
    fn precache<H: igHostStorage>(
        &self,
        host: &H,
        archive_loader: &CArchive,
        cdn: &CContentDeployment,
        ig_registry: &igRegistry,
        ig_file_context: &mut igFileContext,
        ig_object_stream_manager: &mut igObjectStreamManager,
        ig_ext_ref_system: &igExternalReferenceSystem,
        ig_metadata_manager: &igMetadataManager,
    )
        ensures
            *final(ig_object_stream_manager) == *old(ig_object_stream_manager),
            *final(ig_file_context) == *old(ig_file_context),
    {
        proof {
            lemma_progress_reflexive(
                ig_object_stream_manager,
                ig_object_stream_manager.directories@.len() as int,
                ig_object_stream_manager.objects@.len() as int,
            );
        }
    }
}

/// The precacher of fonts. It caches nothing yet.
#[derive(Clone, Copy, Debug, PartialEq, Eq, Structural)]
pub struct CFontPreCacher;

impl CResourcePreCacher for CFontPreCacher {
    fn precache<H: igHostStorage>(
        &self,
        host: &H,
        archive_loader: &CArchive,
        cdn: &CContentDeployment,
        ig_registry: &igRegistry,
        ig_file_context: &mut igFileContext,
        ig_object_stream_manager: &mut igObjectStreamManager,
        ig_ext_ref_system: &igExternalReferenceSystem,
        ig_metadata_manager: &igMetadataManager,
    )
        ensures
            *final(ig_object_stream_manager) == *old(ig_object_stream_manager),
            *final(ig_file_context) == *old(ig_file_context),
    {
        proof {
            lemma_progress_reflexive(
                ig_object_stream_manager,
                ig_object_stream_manager.directories@.len() as int,
                ig_object_stream_manager.objects@.len() as int,
            );
        }
    }
}

/// The precacher of language files. It caches nothing yet.
#[derive(Clone, Copy, Debug, PartialEq, Eq, Structural)]
pub struct CLanguageFilePreCacher;

impl CResourcePreCacher for CLanguageFilePreCacher {
    fn precache<H: igHostStorage>(
        &self,
        host: &H,
        archive_loader: &CArchive,
        cdn: &CContentDeployment,
        ig_registry: &igRegistry,
        ig_file_context: &mut igFileContext,
        ig_object_stream_manager: &mut igObjectStreamManager,
        ig_ext_ref_system: &igExternalReferenceSystem,
        ig_metadata_manager: &igMetadataManager,
    )
        ensures
            *final(ig_object_stream_manager) == *old(ig_object_stream_manager),
            *final(ig_file_context) == *old(ig_file_context),
    {
        proof {
            lemma_progress_reflexive(
                ig_object_stream_manager,
                ig_object_stream_manager.directories@.len() as int,
                ig_object_stream_manager.objects@.len() as int,
            );
        }
    }
}

/// The precacher of models and sky models. It caches nothing yet.
#[derive(Clone, Copy, Debug, PartialEq, Eq, Structural)]
pub struct CModelPreCacher;

impl CResourcePreCacher for CModelPreCacher {
    fn precache<H: igHostStorage>(
        &self,
        host: &H,
        archive_loader: &CArchive,
        cdn: &CContentDeployment,
        ig_registry: &igRegistry,
        ig_file_context: &mut igFileContext,
        ig_object_stream_manager: &mut igObjectStreamManager,
        ig_ext_ref_system: &igExternalReferenceSystem,
        ig_metadata_manager: &igMetadataManager,
    )
        ensures
            *final(ig_object_stream_manager) == *old(ig_object_stream_manager),
            *final(ig_file_context) == *old(ig_file_context),
    {
        proof {
            lemma_progress_reflexive(
                ig_object_stream_manager,
                ig_object_stream_manager.directories@.len() as int,
                ig_object_stream_manager.objects@.len() as int,
            );
        }
    }
}

/// The precacher of behaviors. It caches nothing yet.
#[derive(Clone, Copy, Debug, PartialEq, Eq, Structural)]
pub struct CBehaviorPreCacher;

impl CResourcePreCacher for CBehaviorPreCacher {
    fn precache<H: igHostStorage>(
        &self,
        host: &H,
        archive_loader: &CArchive,
        cdn: &CContentDeployment,
        ig_registry: &igRegistry,
        ig_file_context: &mut igFileContext,
        ig_object_stream_manager: &mut igObjectStreamManager,
        ig_ext_ref_system: &igExternalReferenceSystem,
        ig_metadata_manager: &igMetadataManager,
    )
        ensures
            *final(ig_object_stream_manager) == *old(ig_object_stream_manager),
            *final(ig_file_context) == *old(ig_file_context),
    {
        proof {
            lemma_progress_reflexive(
                ig_object_stream_manager,
                ig_object_stream_manager.directories@.len() as int,
                ig_object_stream_manager.objects@.len() as int,
            );
        }
    }
}

/// The precacher of behavior graph data. It caches nothing yet.
#[derive(Clone, Copy, Debug, PartialEq, Eq, Structural)]
pub struct CBehaviorGraphDataPreCacher;

impl CResourcePreCacher for CBehaviorGraphDataPreCacher {
    fn precache<H: igHostStorage>(
        &self,
        host: &H,
        archive_loader: &CArchive,
        cdn: &CContentDeployment,
        ig_registry: &igRegistry,
        ig_file_context: &mut igFileContext,
        ig_object_stream_manager: &mut igObjectStreamManager,
        ig_ext_ref_system: &igExternalReferenceSystem,
        ig_metadata_manager: &igMetadataManager,
    )
        ensures
            *final(ig_object_stream_manager) == *old(ig_object_stream_manager),
            *final(ig_file_context) == *old(ig_file_context),
    {
        proof {
            lemma_progress_reflexive(
                ig_object_stream_manager,
                ig_object_stream_manager.directories@.len() as int,
                ig_object_stream_manager.objects@.len() as int,
            );
        }
    }
}

/// The precacher of behavior events. It caches nothing yet.
#[derive(Clone, Copy, Debug, PartialEq, Eq, Structural)]
pub struct CBehaviorEventPreCacher;

impl CResourcePreCacher for CBehaviorEventPreCacher {
    fn precache<H: igHostStorage>(
        &self,
        host: &H,
        archive_loader: &CArchive,
        cdn: &CContentDeployment,
        ig_registry: &igRegistry,
        ig_file_context: &mut igFileContext,
        ig_object_stream_manager: &mut igObjectStreamManager,
        ig_ext_ref_system: &igExternalReferenceSystem,
        ig_metadata_manager: &igMetadataManager,
    )
        ensures
            *final(ig_object_stream_manager) == *old(ig_object_stream_manager),
            *final(ig_file_context) == *old(ig_file_context),
    {
        proof {
            lemma_progress_reflexive(
                ig_object_stream_manager,
                ig_object_stream_manager.directories@.len() as int,
                ig_object_stream_manager.objects@.len() as int,
            );
        }
    }
}

/// The precacher of behavior assets. It caches nothing yet.
#[derive(Clone, Copy, Debug, PartialEq, Eq, Structural)]
pub struct CBehaviorAssetPreCacher;

impl CResourcePreCacher for CBehaviorAssetPreCacher {
    fn precache<H: igHostStorage>(
        &self,
        host: &H,
        archive_loader: &CArchive,
        cdn: &CContentDeployment,
        ig_registry: &igRegistry,
        ig_file_context: &mut igFileContext,
        ig_object_stream_manager: &mut igObjectStreamManager,
        ig_ext_ref_system: &igExternalReferenceSystem,
        ig_metadata_manager: &igMetadataManager,
    )
        ensures
            *final(ig_object_stream_manager) == *old(ig_object_stream_manager),
            *final(ig_file_context) == *old(ig_file_context),
    {
        proof {
            lemma_progress_reflexive(
                ig_object_stream_manager,
                ig_object_stream_manager.directories@.len() as int,
                ig_object_stream_manager.objects@.len() as int,
            );
        }
    }
}

/// The precacher of navigation meshes. It caches nothing yet.
#[derive(Clone, Copy, Debug, PartialEq, Eq, Structural)]
pub struct CNavMeshPreCacher;

impl CResourcePreCacher for CNavMeshPreCacher {
    fn precache<H: igHostStorage>(
        &self,
        host: &H,
        archive_loader: &CArchive,
        cdn: &CContentDeployment,
        ig_registry: &igRegistry,
        ig_file_context: &mut igFileContext,
        ig_object_stream_manager: &mut igObjectStreamManager,
        ig_ext_ref_system: &igExternalReferenceSystem,
        ig_metadata_manager: &igMetadataManager,
    )
        ensures
            *final(ig_object_stream_manager) == *old(ig_object_stream_manager),
            *final(ig_file_context) == *old(ig_file_context),
    {
        proof {
            lemma_progress_reflexive(
                ig_object_stream_manager,
                ig_object_stream_manager.directories@.len() as int,
                ig_object_stream_manager.objects@.len() as int,
            );
        }
    }
}

/// The precacher of scripts. It caches nothing yet.
#[derive(Clone, Copy, Debug, PartialEq, Eq, Structural)]
pub struct CScriptPreCacher;

impl CResourcePreCacher for CScriptPreCacher {
    fn precache<H: igHostStorage>(
        &self,
        host: &H,
        archive_loader: &CArchive,
        cdn: &CContentDeployment,
        ig_registry: &igRegistry,
        ig_file_context: &mut igFileContext,
        ig_object_stream_manager: &mut igObjectStreamManager,
        ig_ext_ref_system: &igExternalReferenceSystem,
        ig_metadata_manager: &igMetadataManager,
    )
        ensures
            *final(ig_object_stream_manager) == *old(ig_object_stream_manager),
            *final(ig_file_context) == *old(ig_file_context),
    {
        proof {
            lemma_progress_reflexive(
                ig_object_stream_manager,
                ig_object_stream_manager.directories@.len() as int,
                ig_object_stream_manager.objects@.len() as int,
            );
        }
    }
}

/// A precacher of any of the resource types.
#[derive(Clone, Copy, Debug, PartialEq, Eq, Structural)]
pub enum CPreCacher {
    OtherPackage(COtherPackagePreCacher),
    CharacterData(CCharacterDataPreCacher),
    Skin(CSkinPreCacher),
    HavokAnimDB(CHavokAnimDBPreCacher),
    HavokPhysicsSystem(CHavokPhysicsSystemPreCacher),
    Texture(CTexturePreCacher),
    Vfx(CVfxPreCacher),
    Shader(CShaderPreCacher),
    MotionPath(CMotionPathPreCacher),
    IgFile(CIgFilePreCacher),
    Material(CMaterialPreCacher),
    Entity(CEntityPreCacher),
    GuiProject(CGuiProjectPreCacher),
    Font(CFontPreCacher),
    LanguageFile(CLanguageFilePreCacher),
    Model(CModelPreCacher),
    Behavior(CBehaviorPreCacher),
    BehaviorGraphData(CBehaviorGraphDataPreCacher),
    BehaviorEvent(CBehaviorEventPreCacher),
    BehaviorAsset(CBehaviorAssetPreCacher),
    NavMesh(CNavMeshPreCacher),
    Script(CScriptPreCacher),
}

impl CPreCacher {
    /// Brings a resource into the cache, as the precacher of its type does.
    pub fn precache<H: igHostStorage>(
        &self,
        host: &H,
        archive_loader: &CArchive,
        cdn: &CContentDeployment,
        ig_registry: &igRegistry,
        ig_file_context: &mut igFileContext,
        ig_object_stream_manager: &mut igObjectStreamManager,
        ig_ext_ref_system: &igExternalReferenceSystem,
        ig_metadata_manager: &igMetadataManager,
    )
        requires
            old(ig_object_stream_manager).wf(),
        ensures
            final(ig_object_stream_manager).wf(),
            old(ig_object_stream_manager).spec_extends(final(ig_object_stream_manager)),
            *final(ig_object_stream_manager) == *old(ig_object_stream_manager),
            *final(ig_file_context) == *old(ig_file_context),
    {
        match self {
            CPreCacher::OtherPackage(p) => p.precache(
                host,
                archive_loader,
                cdn,
                ig_registry,
                ig_file_context,
                ig_object_stream_manager,
                ig_ext_ref_system,
                ig_metadata_manager,
            ),
            CPreCacher::CharacterData(p) => p.precache(
                host,
                archive_loader,
                cdn,
                ig_registry,
                ig_file_context,
                ig_object_stream_manager,
                ig_ext_ref_system,
                ig_metadata_manager,
            ),
            CPreCacher::Skin(p) => p.precache(
                host,
                archive_loader,
                cdn,
                ig_registry,
                ig_file_context,
                ig_object_stream_manager,
                ig_ext_ref_system,
                ig_metadata_manager,
            ),
            CPreCacher::HavokAnimDB(p) => p.precache(
                host,
                archive_loader,
                cdn,
                ig_registry,
                ig_file_context,
                ig_object_stream_manager,
                ig_ext_ref_system,
                ig_metadata_manager,
            ),
            CPreCacher::HavokPhysicsSystem(p) => p.precache(
                host,
                archive_loader,
                cdn,
                ig_registry,
                ig_file_context,
                ig_object_stream_manager,
                ig_ext_ref_system,
                ig_metadata_manager,
            ),
            CPreCacher::Texture(p) => p.precache(
                host,
                archive_loader,
                cdn,
                ig_registry,
                ig_file_context,
                ig_object_stream_manager,
                ig_ext_ref_system,
                ig_metadata_manager,
            ),
            CPreCacher::Vfx(p) => p.precache(
                host,
                archive_loader,
                cdn,
                ig_registry,
                ig_file_context,
                ig_object_stream_manager,
                ig_ext_ref_system,
                ig_metadata_manager,
            ),
            CPreCacher::Shader(p) => p.precache(
                host,
                archive_loader,
                cdn,
                ig_registry,
                ig_file_context,
                ig_object_stream_manager,
                ig_ext_ref_system,
                ig_metadata_manager,
            ),
            CPreCacher::MotionPath(p) => p.precache(
                host,
                archive_loader,
                cdn,
                ig_registry,
                ig_file_context,
                ig_object_stream_manager,
                ig_ext_ref_system,
                ig_metadata_manager,
            ),
            CPreCacher::IgFile(p) => p.precache(
                host,
                archive_loader,
                cdn,
                ig_registry,
                ig_file_context,
                ig_object_stream_manager,
                ig_ext_ref_system,
                ig_metadata_manager,
            ),
            CPreCacher::Material(p) => p.precache(
                host,
                archive_loader,
                cdn,
                ig_registry,
                ig_file_context,
                ig_object_stream_manager,
                ig_ext_ref_system,
                ig_metadata_manager,
            ),
            CPreCacher::Entity(p) => p.precache(
                host,
                archive_loader,
                cdn,
                ig_registry,
                ig_file_context,
                ig_object_stream_manager,
                ig_ext_ref_system,
                ig_metadata_manager,
            ),
            CPreCacher::GuiProject(p) => p.precache(
                host,
                archive_loader,
                cdn,
                ig_registry,
                ig_file_context,
                ig_object_stream_manager,
                ig_ext_ref_system,
                ig_metadata_manager,
            ),
            CPreCacher::Font(p) => p.precache(
                host,
                archive_loader,
                cdn,
                ig_registry,
                ig_file_context,
                ig_object_stream_manager,
                ig_ext_ref_system,
                ig_metadata_manager,
            ),
            CPreCacher::LanguageFile(p) => p.precache(
                host,
                archive_loader,
                cdn,
                ig_registry,
                ig_file_context,
                ig_object_stream_manager,
                ig_ext_ref_system,
                ig_metadata_manager,
            ),
            CPreCacher::Model(p) => p.precache(
                host,
                archive_loader,
                cdn,
                ig_registry,
                ig_file_context,
                ig_object_stream_manager,
                ig_ext_ref_system,
                ig_metadata_manager,
            ),
            CPreCacher::Behavior(p) => p.precache(
                host,
                archive_loader,
                cdn,
                ig_registry,
                ig_file_context,
                ig_object_stream_manager,
                ig_ext_ref_system,
                ig_metadata_manager,
            ),
            CPreCacher::BehaviorGraphData(p) => p.precache(
                host,
                archive_loader,
                cdn,
                ig_registry,
                ig_file_context,
                ig_object_stream_manager,
                ig_ext_ref_system,
                ig_metadata_manager,
            ),
            CPreCacher::BehaviorEvent(p) => p.precache(
                host,
                archive_loader,
                cdn,
                ig_registry,
                ig_file_context,
                ig_object_stream_manager,
                ig_ext_ref_system,
                ig_metadata_manager,
            ),
            CPreCacher::BehaviorAsset(p) => p.precache(
                host,
                archive_loader,
                cdn,
                ig_registry,
                ig_file_context,
                ig_object_stream_manager,
                ig_ext_ref_system,
                ig_metadata_manager,
            ),
            CPreCacher::NavMesh(p) => p.precache(
                host,
                archive_loader,
                cdn,
                ig_registry,
                ig_file_context,
                ig_object_stream_manager,
                ig_ext_ref_system,
                ig_metadata_manager,
            ),
            CPreCacher::Script(p) => p.precache(
                host,
                archive_loader,
                cdn,
                ig_registry,
                ig_file_context,
                ig_object_stream_manager,
                ig_ext_ref_system,
                ig_metadata_manager,
            ),
        }
    }
}

/// The precacher that is registered for a type tag at start. Where a tag
/// is listed twice, the later entry counts.
pub open spec fn spec_default_precacher(tag: Seq<char>) -> Option<CPreCacher> {
    if tag == "script"@ {
        Some(CPreCacher::Script(CScriptPreCacher))
    } else if tag == "navmesh"@ {
        Some(CPreCacher::NavMesh(CNavMeshPreCacher))
    } else if tag == "hkc_character"@ {
        Some(CPreCacher::BehaviorAsset(CBehaviorAssetPreCacher))
    } else if tag == "hkb_behavior"@ {
        Some(CPreCacher::BehaviorAsset(CBehaviorAssetPreCacher))
    } else if tag == "asset_behavior"@ {
        Some(CPreCacher::BehaviorAsset(CBehaviorAssetPreCacher))
    } else if tag == "events_behavior"@ {
        Some(CPreCacher::BehaviorEvent(CBehaviorEventPreCacher))
    } else if tag == "graphdata_behavior"@ {
        Some(CPreCacher::BehaviorGraphData(CBehaviorGraphDataPreCacher))
    } else if tag == "behavior"@ {
        Some(CPreCacher::Behavior(CBehaviorPreCacher))
    } else if tag == "sky_model"@ {
        Some(CPreCacher::Model(CModelPreCacher))
    } else if tag == "model"@ {
        Some(CPreCacher::Model(CModelPreCacher))
    } else if tag == "spawnmesh"@ {
        Some(CPreCacher::IgFile(CIgFilePreCacher))
    } else if tag == "lang_file"@ {
        Some(CPreCacher::LanguageFile(CLanguageFilePreCacher))
    } else if tag == "font"@ {
        Some(CPreCacher::Font(CFontPreCacher))
    } else if tag == "gui_project"@ {
        Some(CPreCacher::GuiProject(CGuiProjectPreCacher))
    } else if tag == "igx_entities"@ {
        Some(CPreCacher::Entity(CEntityPreCacher))
    } else if tag == "material_instances"@ {
        Some(CPreCacher::Material(CMaterialPreCacher))
    } else if tag == "igx_file"@ {
        Some(CPreCacher::IgFile(CIgFilePreCacher))
    } else if tag == "motionpath"@ {
        Some(CPreCacher::MotionPath(CMotionPathPreCacher))
    } else if tag == "shader"@ {
        Some(CPreCacher::Shader(CShaderPreCacher))
    } else if tag == "effect"@ {
        Some(CPreCacher::Vfx(CVfxPreCacher))
    } else if tag == "texture"@ {
        Some(CPreCacher::Texture(CTexturePreCacher))
    } else if tag == "havokphysicssystem"@ {
        Some(CPreCacher::HavokPhysicsSystem(CHavokPhysicsSystemPreCacher))
    } else if tag == "havokrigidbody"@ {
        Some(CPreCacher::HavokPhysicsSystem(CHavokPhysicsSystemPreCacher))
    } else if tag == "havokanimdb"@ {
        Some(CPreCacher::HavokAnimDB(CHavokAnimDBPreCacher))
    } else if tag == "actorskin"@ {
        Some(CPreCacher::Skin(CSkinPreCacher))
    } else if tag == "character_data"@ {
        Some(CPreCacher::CharacterData(CCharacterDataPreCacher))
    } else if tag == "pkg"@ {
        Some(CPreCacher::OtherPackage(COtherPackagePreCacher))
    } else {
        None
    }
}

/// What became of a request to precache a package.
#[derive(Clone, Copy, Debug, PartialEq, Eq, Structural)]
pub enum igPrecached {
    /// The package is listed as cached in the pool; nothing was done.
    AlreadyCached,
    /// The package was loaded into this directory.
    Loaded(igObjectDirectoryId),
    /// No build tool is chosen, so the layout of packages is not known;
    /// nothing was done.
    NoBuildTool,
}

/// Why a package could not be precached.
#[derive(Clone, Copy, Debug, PartialEq, Eq, Structural)]
pub enum igPrecacheError {
    /// The name of the package names no file.
    BadPackageName,
    /// The file system did not produce the archive of the package.
    ArchiveUnavailable,
    /// The package, or its level, could not be loaded.
    LoadFailed(igLoadError),
    /// The first root object of the package is no list of strings.
    NotAPackage,
}

/// A text without the repetitions of `suffix` at its end.
pub open spec fn spec_trim_suffix(s: Seq<char>, suffix: Seq<char>) -> Seq<char>
    decreases s.len(),
{
    if suffix.len() > 0 && ends_with(s, suffix) {
        spec_trim_suffix(s.subrange(0, s.len() - suffix.len()), suffix)
    } else {
        s
    }
}

/// The path of the container of a package whose name, in lowercase, is
/// `lower`: the name below `packages/`, unless it is there already, and
/// ending in `_pkg.igz`.
pub open spec fn spec_package_path_of(lower: Seq<char>) -> Seq<char> {
    let below = if starts_with(lower, "packages/"@) {
        lower
    } else {
        "packages/"@ + lower
    };
    if ends_with(below, "_pkg.igz"@) {
        below
    } else {
        below + "_pkg.igz"@
    }
}

/// The path of the container of a package: the name in lowercase, below
/// `packages/` unless it is there already, and ending in `_pkg.igz`.
pub open spec fn spec_package_path(name: Seq<char>) -> Seq<char> {
    spec_package_path_of(lowercase_of(name))
}

/// The name of the archive of a package: the file name of its path without
/// `_pkg.igz` and without extension.
pub open spec fn spec_package_stem(name: Seq<char>) -> Option<Seq<char>> {
    spec_file_stem(spec_trim_suffix(spec_package_path(name), "_pkg.igz"@))
}

/// The path of the level of a package of the other engine: the name and
/// `/level.bld`.
pub open spec fn spec_level_path(name: Seq<char>) -> Seq<char> {
    name + "/level.bld"@
}

/// The path of the container of a package whose name, in lowercase, is
/// `lower`.
pub fn package_path_of(lower: &str) -> (path: String)
    ensures
        path@ == spec_package_path_of(lower@),
{
    let mut path = lower.to_owned();
    let chars = chars_of(path.as_str());
    if !has_prefix(&chars, &chars_of("packages/")) {
        path = concat("packages/", path.as_str());
    }
    let chars = chars_of(path.as_str());
    if !has_suffix(&chars, &chars_of("_pkg.igz")) {
        path = concat(path.as_str(), "_pkg.igz");
    }
    path
}

/// The path of the container of a package.
pub fn package_path(package_name: &str) -> (path: String)
    ensures
        path@ == spec_package_path(package_name@),
{
    let lower = to_lowercase(package_name);
    package_path_of(lower.as_str())
}

/// Removes the repetitions of `suffix` at the end of `s`.
pub fn trim_suffix(s: &str, suffix: &str) -> (trimmed: String)
    ensures
        trimmed@ == spec_trim_suffix(s@, suffix@),
{
    let chars = chars_of(s);
    let tail = chars_of(suffix);
    let mut n: usize = chars.len();
    assert(chars@.subrange(0, n as int) =~= chars@);
    if tail.len() == 0 {
        return string_of_range(&chars, 0, n);
    }
    while n >= tail.len() && crate::util::text::matches_at(&chars, &tail, n - tail.len())
        invariant
            n <= chars.len(),
            tail.len() > 0,
            tail@ == suffix@,
            spec_trim_suffix(s@, suffix@) == spec_trim_suffix(
                chars@.subrange(0, n as int),
                suffix@,
            ),
        decreases n,
    {
        let ghost cur = chars@.subrange(0, n as int);
        assert(cur.subrange(cur.len() - tail.len(), cur.len() as int) =~= chars@.subrange(
            n - tail.len(),
            n as int,
        ));
        assert(cur.subrange(0, cur.len() - tail.len()) =~= chars@.subrange(0, n - tail.len()));
        n = n - tail.len();
    }
    proof {
        let cur = chars@.subrange(0, n as int);
        if n >= tail.len() {
            assert(cur.subrange(cur.len() - tail.len(), cur.len() as int) =~= chars@.subrange(
                n - tail.len(),
                n as int,
            ));
        }
    }
    string_of_range(&chars, 0, n)
}

/// The registry of precachers and the lists of cached packages.
pub struct CPrecacheManager {
    /// The registered precachers, in the order of registration.
    pub resource_pre_cachers: Vec<CPreCacher>,
    /// For every registered type tag, the position of its precacher.
    pub resource_pre_cacher_lookup: StringHashMap<usize>,
    /// For every pool, by its position, the packages cached in it.
    pub pool_package_lookup: Vec<Vec<String>>,
}

impl CPrecacheManager {
    /// Every pool has its list of packages, and every registered tag leads
    /// to a precacher.
    pub open spec fn wf(&self) -> bool {
        &&& self.pool_package_lookup@.len() == MP_POOL_COUNT
        &&& forall|tag: Seq<char>| #[trigger]
            self.resource_pre_cacher_lookup@.contains_key(tag)
                ==> self.resource_pre_cacher_lookup@[tag] < self.resource_pre_cachers@.len()
    }

    /// The precacher registered for a type tag, if any.
    pub open spec fn spec_precacher(&self, tag: Seq<char>) -> Option<CPreCacher> {
        if self.resource_pre_cacher_lookup@.contains_key(tag) {
            Some(self.resource_pre_cachers@[self.resource_pre_cacher_lookup@[tag] as int])
        } else {
            None
        }
    }

    /// Every tag that has a precacher at start is registered for it.
    pub open spec fn spec_registered_defaults(&self) -> bool {
        forall|tag: Seq<char>| #[trigger]
            spec_default_precacher(tag).is_some() ==> self.spec_precacher(tag)
                == spec_default_precacher(tag)
    }

    /// Whether a package is listed as cached in a pool: its name, in
    /// lowercase, is in the list of the pool.
    pub open spec fn spec_package_cached(&self, package_name: Seq<char>, pool_id: EMemoryPoolID)
        -> bool {
        exists|i: int|
            0 <= i < self.pool_package_lookup@[pool_id.spec_index()]@.len() && (
            #[trigger] self.pool_package_lookup@[pool_id.spec_index()]@[i])@ == lowercase_of(
                package_name,
            )
    }

    /// A manager without precachers, with an empty list of packages for
    /// every pool.
    pub fn new() -> (manager: CPrecacheManager)
        ensures
            manager.wf(),
            manager.resource_pre_cachers@.len() == 0,
            manager.resource_pre_cacher_lookup@ == Map::<Seq<char>, usize>::empty(),
            forall|i: int| 0 <= i < MP_POOL_COUNT
                ==> (#[trigger] manager.pool_package_lookup@[i])@.len() == 0,
    {
        let mut pool_package_lookup: Vec<Vec<String>> = Vec::new();
        let mut i: usize = 0;
        while i < MP_POOL_COUNT
            invariant
                i <= MP_POOL_COUNT,
                pool_package_lookup@.len() == i,
                forall|k: int| 0 <= k < i ==> (#[trigger] pool_package_lookup@[k])@.len() == 0,
            decreases MP_POOL_COUNT - i,
        {
            pool_package_lookup.push(Vec::new());
            i = i + 1;
        }
        CPrecacheManager {
            resource_pre_cachers: Vec::new(),
            resource_pre_cacher_lookup: StringHashMap::new(),
            pool_package_lookup,
        }
    }

    /// Registers a precacher for a type tag, in place of the one that may
    /// be registered for it.
    pub fn register(&mut self, name: &str, resource_pre_cacher: CPreCacher)
        requires
            old(self).wf(),
        ensures
            final(self).wf(),
            final(self).resource_pre_cachers@ == old(self).resource_pre_cachers@.push(
                resource_pre_cacher,
            ),
            final(self).resource_pre_cacher_lookup@ == old(self).resource_pre_cacher_lookup@.insert(
                name@,
                old(self).resource_pre_cachers@.len() as usize,
            ),
            final(self).pool_package_lookup == old(self).pool_package_lookup,
            final(self).spec_precacher(name@) == Some(resource_pre_cacher),
            forall|tag: Seq<char>|
                tag != name@
                    ==> #[trigger] final(self).spec_precacher(tag) == old(self).spec_precacher(tag),
    {
        let position: usize = self.resource_pre_cachers.len();
        self.resource_pre_cachers.push(resource_pre_cacher);
        self.resource_pre_cacher_lookup.insert(name.to_owned(), position);
    }

    /// Registers the precacher of every resource type.
    pub fn register_pre_cachers(&mut self)
        requires
            old(self).wf(),
        ensures
            final(self).wf(),
            final(self).spec_registered_defaults(),
            final(self).resource_pre_cachers@.len() == old(self).resource_pre_cachers@.len() + 27,
            final(self).pool_package_lookup == old(self).pool_package_lookup,
            forall|tag: Seq<char>|
                spec_default_precacher(tag).is_none() ==> #[trigger] final(self).spec_precacher(
                    tag,
                ) == old(self).spec_precacher(tag),
    {
        self.register("pkg", CPreCacher::OtherPackage(COtherPackagePreCacher));
        self.register("character_data", CPreCacher::CharacterData(CCharacterDataPreCacher));
        self.register("actorskin", CPreCacher::Skin(CSkinPreCacher));
        self.register("havokanimdb", CPreCacher::HavokAnimDB(CHavokAnimDBPreCacher));
        self.register(
            "havokrigidbody",
            CPreCacher::HavokPhysicsSystem(CHavokPhysicsSystemPreCacher),
        );
        self.register(
            "havokphysicssystem",
            CPreCacher::HavokPhysicsSystem(CHavokPhysicsSystemPreCacher),
        );
        self.register("texture", CPreCacher::Texture(CTexturePreCacher));
        self.register("effect", CPreCacher::Vfx(CVfxPreCacher));
        self.register("shader", CPreCacher::Shader(CShaderPreCacher));
        self.register("motionpath", CPreCacher::MotionPath(CMotionPathPreCacher));
        self.register("igx_file", CPreCacher::IgFile(CIgFilePreCacher));
        self.register("material_instances", CPreCacher::Material(CMaterialPreCacher));
        self.register("igx_entities", CPreCacher::Entity(CEntityPreCacher));
        self.register("gui_project", CPreCacher::GuiProject(CGuiProjectPreCacher));
        self.register("font", CPreCacher::Font(CFontPreCacher));
        self.register("lang_file", CPreCacher::LanguageFile(CLanguageFilePreCacher));
        self.register("spawnmesh", CPreCacher::IgFile(CIgFilePreCacher));
        self.register("model", CPreCacher::Model(CModelPreCacher));
        self.register("sky_model", CPreCacher::Model(CModelPreCacher));
        self.register("behavior", CPreCacher::Behavior(CBehaviorPreCacher));
        self.register(
            "graphdata_behavior",
            CPreCacher::BehaviorGraphData(CBehaviorGraphDataPreCacher),
        );
        self.register("events_behavior", CPreCacher::BehaviorEvent(CBehaviorEventPreCacher));
        self.register("asset_behavior", CPreCacher::BehaviorAsset(CBehaviorAssetPreCacher));
        self.register("hkb_behavior", CPreCacher::BehaviorAsset(CBehaviorAssetPreCacher));
        self.register("hkc_character", CPreCacher::BehaviorAsset(CBehaviorAssetPreCacher));
        self.register("navmesh", CPreCacher::NavMesh(CNavMeshPreCacher));
        self.register("script", CPreCacher::Script(CScriptPreCacher));
    }

    /// Whether a package is listed as cached in a pool.
    pub fn package_cached(&self, package_name: &str, pool_id: EMemoryPoolID) -> (cached: bool)
        requires
            self.wf(),
        ensures
            cached == self.spec_package_cached(package_name@, pool_id),
    {
        let pool_packages = &self.pool_package_lookup[pool_id.index()];
        let wanted = to_lowercase(package_name);
        let mut i: usize = 0;
        while i < pool_packages.len()
            invariant
                i <= pool_packages.len(),
                pool_packages@ == self.pool_package_lookup@[pool_id.spec_index()]@,
                wanted@ == lowercase_of(package_name@),
                forall|k: int| 0 <= k < i ==> (#[trigger] pool_packages@[k])@ != wanted@,
            decreases pool_packages.len() - i,
        {
            if text_equal(pool_packages[i].as_str(), wanted.as_str()) {
                return true;
            }
            i = i + 1;
        }
        false
    }

    /// The files among the first `pairs` pairs of a manifest that are handed
    /// to a precacher, in the order of the manifest: each with the precacher
    /// that is registered for the type tag in front of it, and the position
    /// of its name in the manifest.
    pub open spec fn spec_handed_files(&self, manifest: Seq<String>, pairs: nat) -> Seq<
        (CPreCacher, usize),
    >
        decreases pairs,
    {
        if pairs == 0 {
            Seq::empty()
        } else {
            let before = self.spec_handed_files(manifest, (pairs - 1) as nat);
            match self.spec_precacher(manifest[2 * (pairs - 1)]@) {
                Some(precacher) => before.push((precacher, (2 * (pairs - 1) + 1) as usize)),
                None => before,
            }
        }
    }

    /// Hands every file of a package to the precacher of its type, and
    /// tells which files went to which precacher.
    ///
    /// The manifest lists type tags and file names in turn; a tag without a
    /// registered precacher is passed over, and so is a tag at the end that
    /// no file name follows. The precachers leave the store and the file
    /// system as they are.
    pub fn precache_files<H: igHostStorage>(
        &self,
        host: &H,
        archive_loader: &CArchive,
        cdn: &CContentDeployment,
        ig_registry: &igRegistry,
        ig_file_context: &mut igFileContext,
        ig_object_stream_manager: &mut igObjectStreamManager,
        ig_ext_ref_system: &igExternalReferenceSystem,
        ig_metadata_manager: &igMetadataManager,
        manifest: &Vec<String>,
    ) -> (handed: Vec<(CPreCacher, usize)>)
        requires
            self.wf(),
            old(ig_object_stream_manager).wf(),
        ensures
            *final(ig_object_stream_manager) == *old(ig_object_stream_manager),
            *final(ig_file_context) == *old(ig_file_context),
            handed@ == self.spec_handed_files(manifest@, (manifest@.len() / 2) as nat),
    {
        let mut handed: Vec<(CPreCacher, usize)> = Vec::new();
        let mut i: usize = 0;
        while i < manifest.len() && manifest.len() - i >= 2
            invariant
                i <= manifest.len(),
                i % 2 == 0,
                self.wf(),
                *ig_object_stream_manager == *old(ig_object_stream_manager),
                *ig_file_context == *old(ig_file_context),
                ig_object_stream_manager.wf(),
                handed@ == self.spec_handed_files(manifest@, (i / 2) as nat),
            decreases manifest.len() - i,
        {
            assert((i + 2) / 2 == i / 2 + 1 && 2 * (i / 2) == i);
            match self.resource_pre_cacher_lookup.get(manifest[i].as_str()) {
                Some(position) => {
                    let precacher = self.resource_pre_cachers[*position];
                    precacher.precache(
                        host,
                        archive_loader,
                        cdn,
                        ig_registry,
                        ig_file_context,
                        ig_object_stream_manager,
                        ig_ext_ref_system,
                        ig_metadata_manager,
                    );
                    handed.push((precacher, i + 1));
                },
                None => {},
            }
            i = i + 2;
        }
        assert(i / 2 == manifest@.len() / 2);
        handed
    }

    /// Precaches a package into a pool.
    ///
    /// Without a build tool nothing is done. For the laboratory engine the
    /// name is turned into the path of the package's container; a package
    /// that is listed as cached in the pool is passed over; otherwise the
    /// archive of the package is mounted, the container is loaded, and the
    /// files that its manifest lists are handed to their precachers. For the
    /// other engine the archive named like the package is mounted, if it
    /// can be, and the level of the package is loaded.
    pub fn precache_package<H: igHostStorage>(
        &self,
        host: &H,
        archive_loader: &CArchive,
        cdn: &CContentDeployment,
        ig_registry: &igRegistry,
        ig_file_context: &mut igFileContext,
        ig_object_stream_manager: &mut igObjectStreamManager,
        ig_ext_ref_system: &igExternalReferenceSystem,
        ig_object_handle_manager: &mut igObjectHandleManager,
        ig_metadata_manager: &igMetadataManager,
        package_name: String,
        pool_id: EMemoryPoolID,
    ) -> (r: Result<igPrecached, igPrecacheError>)
        requires
            self.wf(),
            old(ig_object_stream_manager).wf(),
        ensures
            final(ig_object_stream_manager).wf(),
            old(ig_object_stream_manager).spec_extends(final(ig_object_stream_manager)),
            final(ig_file_context)._root == old(ig_file_context)._root,
            spec_package_precached(
                self,
                ig_registry.build_tool,
                package_name@,
                pool_id,
                old(ig_file_context),
                final(ig_file_context),
                old(ig_object_stream_manager),
                final(ig_object_stream_manager),
                old(ig_object_handle_manager),
                final(ig_object_handle_manager),
                r,
            ),
            match ig_registry.build_tool {
                BuildTool::NoTool => r == Ok::<igPrecached, igPrecacheError>(
                    igPrecached::NoBuildTool,
                ) && *final(ig_object_stream_manager)
                    == *old(ig_object_stream_manager)
                    && *final(ig_file_context) == *old(ig_file_context),
                BuildTool::AlchemyLaboratory => if self.spec_package_cached(
                    spec_package_path(package_name@),
                    pool_id,
                ) {
                    r == Ok::<igPrecached, igPrecacheError>(igPrecached::AlreadyCached)
                        && *final(ig_object_stream_manager) == *old(ig_object_stream_manager)
                        && *final(ig_file_context) == *old(ig_file_context)
                } else {
                    &&& spec_package_stem(package_name@).is_none() ==> r == Err::<
                        igPrecached,
                        igPrecacheError,
                    >(igPrecacheError::BadPackageName)
                    &&& r matches Ok(done) ==> done matches igPrecached::Loaded(d) && Some(d)
                        == final(ig_object_stream_manager).spec_cached(
                        spec_package_path(package_name@),
                    )
                    &&& r matches Err(igPrecacheError::LoadFailed(_))
                        ==> final(ig_object_stream_manager).spec_cached(
                            spec_package_path(package_name@),
                        ).is_some()
                },
                BuildTool::TfbTool => {
                    &&& r.is_ok()
                        ==> r->Ok_0 is Loaded
                        && Some(r->Ok_0->Loaded_0) == final(ig_object_stream_manager).spec_cached(
                            spec_level_path(package_name@),
                        )
                    &&& r.is_err() ==> r->Err_0 is LoadFailed
                    &&& final(ig_object_stream_manager).spec_cached(
                        spec_level_path(package_name@),
                    ).is_some()
                },
            },
    {
        proof {
            lemma_progress_reflexive(
                ig_object_stream_manager,
                ig_object_stream_manager.directories@.len() as int,
                ig_object_stream_manager.objects@.len() as int,
            );
        }
        assert(ig_file_context.archive_manager._archives@.subrange(
            0,
            ig_file_context.archive_manager._archives@.len() as int,
        ) =~= ig_file_context.archive_manager._archives@);
        match ig_registry.build_tool {
            BuildTool::AlchemyLaboratory => {
                let path = package_path(package_name.as_str());
                if self.package_cached(path.as_str(), pool_id) {
                    return Ok(igPrecached::AlreadyCached);
                }
                let trimmed = trim_suffix(path.as_str(), "_pkg.igz");
                let stem = match get_file_name(trimmed.as_str()) {
                    Some(stem) => stem,
                    None => {
                        return Err(igPrecacheError::BadPackageName);
                    },
                };
                if !archive_loader.open(host, cdn, ig_file_context, ig_registry, stem.as_str(), 0) {
                    return package_outcome(false, None, false);
                }
                assert(ig_file_context.archive_manager._archives@.subrange(
                    0,
                    old(ig_file_context).archive_manager._archives@.len() as int,
                ) =~= ig_file_context.archive_manager._archives@.drop_last());
                let loaded = ig_object_stream_manager.load(
                    host,
                    ig_file_context,
                    ig_registry,
                    ig_metadata_manager,
                    ig_ext_ref_system,
                    ig_object_handle_manager,
                    path,
                );
                let has_manifest = match loaded {
                    Ok(pkg_dir) => match package_manifest(ig_object_stream_manager, pkg_dir) {
                        Some(manifest) => {
                            let _handed = self.precache_files(
                                host,
                                archive_loader,
                                cdn,
                                ig_registry,
                                ig_file_context,
                                ig_object_stream_manager,
                                ig_ext_ref_system,
                                ig_metadata_manager,
                                &manifest,
                            );
                            true
                        },
                        None => false,
                    },
                    Err(_) => false,
                };
                package_outcome(true, Some(loaded), has_manifest)
            },
            BuildTool::TfbTool => {
                let _mounted = ig_file_context.load_archive(
                    host,
                    ig_registry,
                    package_name.as_str(),
                );
                assert(ig_file_context.archive_manager._archives@.subrange(
                    0,
                    old(ig_file_context).archive_manager._archives@.len() as int,
                ) =~= old(ig_file_context).archive_manager._archives@);
                let level = concat(package_name.as_str(), "/level.bld");
                match ig_object_stream_manager.load(
                    host,
                    ig_file_context,
                    ig_registry,
                    ig_metadata_manager,
                    ig_ext_ref_system,
                    ig_object_handle_manager,
                    level,
                ) {
                    Ok(dir) => Ok(igPrecached::Loaded(dir)),
                    Err(e) => Err(igPrecacheError::LoadFailed(e)),
                }
            },
            BuildTool::NoTool => Ok(igPrecached::NoBuildTool),
        }
    }
}

/// Whether the file system of `after` is that of `before` with archives
/// mounted behind those that were mounted: nothing else has changed.
pub open spec fn spec_archives_grown(before: &igFileContext, after: &igFileContext) -> bool {
    &&& after._root == before._root
    &&& after.update_provider == before.update_provider
    &&& after.storage_device == before.storage_device
    &&& after.archive_manager._patch_archives@ == before.archive_manager._patch_archives@
    &&& before.archive_manager._archives@.len() <= after.archive_manager._archives@.len()
    &&& after.archive_manager._archives@.subrange(
        0,
        before.archive_manager._archives@.len() as int,
    ) == before.archive_manager._archives@
}

/// Whether an archive that was mounted from `path` is among the archives.
pub open spec fn spec_archive_mounted(ctx: &igFileContext, path: Seq<char>) -> bool {
    exists|j: int|
        0 <= j < ctx.archive_manager._archives@.len() && (
        #[trigger] ctx.archive_manager._archives@[j])._path@ == path
}

/// What becomes of a package of the laboratory engine, from what the file
/// system and the loader answered: without its archive nothing is loaded; a
/// container that does not load fails the package with the loader's error;
/// one that loads is a package if it has a manifest.
pub open spec fn spec_package_outcome(
    mounted: bool,
    loaded: Option<Result<igObjectDirectoryId, igLoadError>>,
    has_manifest: bool,
) -> Result<igPrecached, igPrecacheError> {
    if !mounted {
        Err(igPrecacheError::ArchiveUnavailable)
    } else {
        match loaded {
            Some(Ok(dir)) => if has_manifest {
                Ok(igPrecached::Loaded(dir))
            } else {
                Err(igPrecacheError::NotAPackage)
            },
            Some(Err(e)) => Err(igPrecacheError::LoadFailed(e)),
            None => Err(igPrecacheError::ArchiveUnavailable),
        }
    }
}

/// What becomes of a package of the laboratory engine, from what the file
/// system and the loader answered.
pub fn package_outcome(
    mounted: bool,
    loaded: Option<Result<igObjectDirectoryId, igLoadError>>,
    has_manifest: bool,
) -> (r: Result<igPrecached, igPrecacheError>)
    ensures
        r == spec_package_outcome(mounted, loaded, has_manifest),
{
    if !mounted {
        return Err(igPrecacheError::ArchiveUnavailable);
    }
    match loaded {
        Some(Ok(dir)) => if has_manifest {
            Ok(igPrecached::Loaded(dir))
        } else {
            Err(igPrecacheError::NotAPackage)
        },
        Some(Err(e)) => Err(igPrecacheError::LoadFailed(e)),
        None => Err(igPrecacheError::ArchiveUnavailable),
    }
}

/// What precaching the package `package_name` into the pool `pool_id` does,
/// with the build tool `tool`.
///
/// Without a build tool nothing is done, and nothing for a package of the
/// laboratory engine that is listed as cached. Any other package of that
/// engine fails with `BadPackageName` exactly when its name names no file,
/// and with `ArchiveUnavailable` leaves everything as it was; in every
/// other case the archive of the package was mounted behind the others, and
/// the container of the package is cached for its path: a success gives
/// that directory, which has a manifest; `NotAPackage` says that it has
/// none. With the other tool the level of the package is cached for its
/// path whatever the result.
pub open spec fn spec_package_precached(
    manager: &CPrecacheManager,
    tool: BuildTool,
    package_name: Seq<char>,
    pool_id: EMemoryPoolID,
    ctx_before: &igFileContext,
    ctx_after: &igFileContext,
    mgr_before: &igObjectStreamManager,
    mgr_after: &igObjectStreamManager,
    handles_before: &igObjectHandleManager,
    handles_after: &igObjectHandleManager,
    r: Result<igPrecached, igPrecacheError>,
) -> bool {
    let path = spec_package_path(package_name);
    let stem = spec_package_stem(package_name);
    &&& mgr_before.spec_extends(mgr_after)
    &&& spec_archives_grown(ctx_before, ctx_after)
    &&& match tool {
        BuildTool::NoTool => r == Ok::<igPrecached, igPrecacheError>(igPrecached::NoBuildTool)
            && *mgr_after == *mgr_before && *ctx_after == *ctx_before && *handles_after
            == *handles_before,
        BuildTool::AlchemyLaboratory => if manager.spec_package_cached(path, pool_id) {
            r == Ok::<igPrecached, igPrecacheError>(igPrecached::AlreadyCached) && *mgr_after
                == *mgr_before && *ctx_after == *ctx_before && *handles_after == *handles_before
        } else {
            &&& r == Err::<igPrecached, igPrecacheError>(igPrecacheError::BadPackageName)
                <==> stem.is_none()
            &&& stem.is_none() || r == Err::<igPrecached, igPrecacheError>(
                igPrecacheError::ArchiveUnavailable,
            ) ==> *mgr_after == *mgr_before && *ctx_after == *ctx_before && *handles_after
                == *handles_before
            &&& stem.is_some() && r != Err::<igPrecached, igPrecacheError>(
                igPrecacheError::ArchiveUnavailable,
            ) ==> {
                &&& ctx_after.archive_manager._archives@.len()
                    == ctx_before.archive_manager._archives@.len() + 1
                &&& ctx_after.archive_manager._archives@.last()._path@
                    == crate::client::archive::spec_archive_path(stem->0)
                &&& mgr_after.spec_cached(path).is_some()
                &&& r.is_ok() ==> r->Ok_0 is Loaded && Some(r->Ok_0->Loaded_0)
                    == mgr_after.spec_cached(path) && spec_package_manifest(
                    mgr_after,
                    r->Ok_0->Loaded_0 as int,
                ).is_some()
                &&& r == Err::<igPrecached, igPrecacheError>(igPrecacheError::NotAPackage)
                    ==> spec_package_manifest(
                    mgr_after,
                    mgr_after.spec_cached(path)->0 as int,
                ).is_none()
                &&& r.is_err() ==> r->Err_0 is LoadFailed || r->Err_0 is NotAPackage
            }
        },
        BuildTool::TfbTool => {
            &&& r.is_ok() ==> r->Ok_0 is Loaded && Some(r->Ok_0->Loaded_0)
                == mgr_after.spec_cached(spec_level_path(package_name))
            &&& r.is_err() ==> r->Err_0 is LoadFailed
            &&& mgr_after.spec_cached(spec_level_path(package_name)).is_some()
        },
    }
}

/// The manifest of a package: the strings of the first root object of its
/// directory, if that is a list of strings.
pub open spec fn spec_package_manifest(mgr: &igObjectStreamManager, dir: int) -> Option<
    Seq<String>,
> {
    if mgr.spec_objects_of(dir).len() == 0 {
        None
    } else {
        match mgr.spec_objects_of(dir)[0] {
            Some(first) => if first < mgr.objects@.len() {
                match mgr.objects@[first as int].content {
                    igObjectContent::StringRefList(list) => Some(list@),
                    _ => None,
                }
            } else {
                None
            },
            None => None,
        }
    }
}

/// The manifest of a package.
pub fn package_manifest(mgr: &igObjectStreamManager, dir: igObjectDirectoryId) -> (manifest:
    Option<Vec<String>>)
    requires
        dir < mgr.directories@.len(),
    ensures
        match manifest {
            Some(list) => spec_package_manifest(mgr, dir as int).is_some()
                && crate::vfs::ig_memory_storage::spec_texts(list@)
                == crate::vfs::ig_memory_storage::spec_texts(
                spec_package_manifest(mgr, dir as int)->0,
            ),
            None => spec_package_manifest(mgr, dir as int).is_none(),
        },
{
    let objects = match mgr.objects_of(dir) {
        Some(objects) => objects,
        None => {
            return None;
        },
    };
    if objects.len() == 0 {
        return None;
    }
    let first: usize = match objects[0] {
        Some(first) => first,
        None => {
            return None;
        },
    };
    if first >= mgr.objects.len() {
        return None;
    }
    match &mgr.objects[first].content {
        igObjectContent::StringRefList(list) => {
            let mut copy: Vec<String> = Vec::new();
            let mut i: usize = 0;
            while i < list.len()
                invariant
                    i <= list.len(),
                    copy@.len() == i,
                    forall|k: int| 0 <= k < i ==> (#[trigger] copy@[k])@ == list@[k]@,
                decreases list.len() - i,
            {
                copy.push(list[i].clone());
                i = i + 1;
            }
            assert(crate::vfs::ig_memory_storage::spec_texts(copy@)
                =~= crate::vfs::ig_memory_storage::spec_texts(list@));
            Some(copy)
        },
        _ => None,
    }
}

/// What the lines of an init script ask for, until the next task line.
#[derive(Clone, Copy, Debug, PartialEq, Eq, Structural)]
pub enum LoaderTask {
    /// A task line with an unknown name: the lines that follow are passed
    /// over.
    Unknown,
    /// Mount the archive at the path of the line.
    LooseIga,
    /// Precache the package that the line names.
    FullPackage,
    /// Mount the archive of the package that the line names.
    LoosePackage,
    /// Set the build tool to the one that the line names.
    EngineType,
    /// Nothing: a task that is switched off.
    NoOp,
}

/// The task that a task line introduces: the name between the brackets
/// decides. Full packages are switched off in a weak load.
pub open spec fn spec_parse_task(line: Seq<char>, is_weakly_loaded: bool) -> LoaderTask {
    if line.len() < 2 {
        LoaderTask::Unknown
    } else if line.subrange(1, line.len() - 1) == "loose_package"@ {
        LoaderTask::LoosePackage
    } else if line.subrange(1, line.len() - 1) == "loose_pak"@ {
        LoaderTask::LooseIga
    } else if line.subrange(1, line.len() - 1) == "full_package"@ {
        if is_weakly_loaded {
            LoaderTask::NoOp
        } else {
            LoaderTask::FullPackage
        }
    } else if line.subrange(1, line.len() - 1) == "engine_type"@ {
        LoaderTask::EngineType
    } else {
        LoaderTask::Unknown
    }
}

/// Reads the task of a task line.
pub fn parse_task(line: String, is_weakly_loaded: bool) -> (task: LoaderTask)
    ensures
        task == spec_parse_task(line@, is_weakly_loaded),
{
    let chars = chars_of(line.as_str());
    if chars.len() < 2 {
        return LoaderTask::Unknown;
    }
    let name = string_of_range(&chars, 1, chars.len() - 1);
    if text_equal(name.as_str(), "loose_package") {
        LoaderTask::LoosePackage
    } else if text_equal(name.as_str(), "loose_pak") {
        LoaderTask::LooseIga
    } else if text_equal(name.as_str(), "full_package") {
        if is_weakly_loaded {
            LoaderTask::NoOp
        } else {
            LoaderTask::FullPackage
        }
    } else if text_equal(name.as_str(), "engine_type") {
        LoaderTask::EngineType
    } else {
        LoaderTask::Unknown
    }
}

/// What a token of an init script stands for: `platform_string` is the
/// name of the platform, where it has one; no other token is known.
pub open spec fn spec_token_value(token: Seq<char>, platform: IG_CORE_PLATFORM) -> Option<
    Seq<char>,
> {
    if token == "platform_string"@ {
        spec_platform_string(platform)
    } else {
        None
    }
}

/// A text in front of what may be a text.
pub open spec fn spec_prepend(front: Seq<char>, rest: Option<Seq<char>>) -> Option<Seq<char>> {
    match rest {
        Some(r) => Some(front + r),
        None => None,
    }
}

/// The line of an init script from position `pos` on, with every token put
/// in.
///
/// A token is written `${name}`. A dollar sign that is not followed by an
/// opening brace, a token that is not closed and a token that is not known
/// make the line malformed; a dollar sign at the very end is dropped.
pub open spec fn spec_substitute(line: Seq<char>, pos: int, platform: IG_CORE_PLATFORM) -> Option<
    Seq<char>,
>
    decreases line.len() - pos,
{
    if pos < 0 || pos >= line.len() {
        Some(Seq::empty())
    } else if line[pos] != '$' {
        spec_prepend(seq![line[pos]], spec_substitute(line, pos + 1, platform))
    } else if pos + 1 >= line.len() {
        Some(Seq::empty())
    } else if line[pos + 1] != '{' {
        None
    } else {
        let close = pos + 2 + first_index_of(line.subrange(pos + 2, line.len() as int), '}');
        if close >= line.len() || close < pos + 2 {
            None
        } else {
            match spec_token_value(line.subrange(pos + 2, close), platform) {
                Some(value) => spec_prepend(value, spec_substitute(line, close + 1, platform)),
                None => None,
            }
        }
    }
}

/// Puts the tokens into a path line of an init script.
pub fn parse_file_path(line: String, ig_registry: &igRegistry) -> (path: Option<String>)
    ensures
        match path {
            Some(p) => spec_substitute(line@, 0, ig_registry.platform) == Some(p@),
            None => spec_substitute(line@, 0, ig_registry.platform).is_none(),
        },
{
    let chars = chars_of(line.as_str());
    let platform = ig_registry.platform;
    let mut processed: Vec<char> = Vec::new();
    let mut pos: usize = 0;
    while pos < chars.len()
        invariant
            pos <= chars.len(),
            chars@ == line@,
            platform == ig_registry.platform,
            spec_substitute(chars@, 0, platform) == spec_prepend(
                processed@,
                spec_substitute(chars@, pos as int, platform),
            ),
        decreases chars.len() - pos,
    {
        let ghost before = processed@;
        let c = chars[pos];
        if c != '$' {
            processed.push(c);
            proof {
                let rest = spec_substitute(chars@, pos + 1, platform);
                if rest.is_some() {
                    assert(before + (seq![c] + rest->0) =~= before.push(c) + rest->0);
                }
            }
            pos = pos + 1;
        } else if pos + 1 >= chars.len() {
            assert(before + Seq::<char>::empty() =~= before);
            return Some(string_of(&processed));
        } else if chars[pos + 1] != '{' {
            return None;
        } else {
            let start: usize = pos + 2;
            let mut close: usize = start;
            let ghost tail = chars@.subrange(start as int, chars.len() as int);
            while close < chars.len() && chars[close] != '}'
                invariant
                    start <= close <= chars.len(),
                    tail == chars@.subrange(start as int, chars.len() as int),
                    forall|j: int| 0 <= j < close - start ==> tail[j] != '}',
                decreases chars.len() - close,
            {
                close = close + 1;
            }
            proof {
                lemma_first_index_of_unique(tail, '}', close - start);
            }
            if close >= chars.len() {
                return None;
            }
            let token = string_of_range(&chars, start, close);
            if !text_equal(token.as_str(), "platform_string") || !has_platform_string(platform) {
                return None;
            }
            let value = chars_of(get_platform_string(platform).as_str());
            let mut k: usize = 0;
            while k < value.len()
                invariant
                    k <= value.len(),
                    processed@ == before + value@.subrange(0, k as int),
                decreases value.len() - k,
            {
                processed.push(value[k]);
                assert(value@.subrange(0, k + 1) =~= value@.subrange(0, k as int).push(
                    value@[k as int],
                ));
                k = k + 1;
            }
            proof {
                assert(value@.subrange(0, value.len() as int) =~= value@);
                let rest = spec_substitute(chars@, close + 1, platform);
                if rest.is_some() {
                    assert(before + (value@ + rest->0) =~= (before + value@) + rest->0);
                }
            }
            pos = close + 1;
        }
    }
    assert(processed@ + Seq::<char>::empty() =~= processed@);
    Some(string_of(&processed))
}

/// The build tool that a line of the engine-type task names.
pub open spec fn spec_engine_type(line: Seq<char>) -> Option<BuildTool> {
    if line == "None"@ {
        Some(BuildTool::NoTool)
    } else if line == "AlchemyLaboratory"@ {
        Some(BuildTool::AlchemyLaboratory)
    } else if line == "TfbTool"@ {
        Some(BuildTool::TfbTool)
    } else {
        None
    }
}

/// The build tool that a line of the engine-type task names.
pub fn engine_type(line: &str) -> (tool: Option<BuildTool>)
    ensures
        tool == spec_engine_type(line@),
{
    if text_equal(line, "None") {
        Some(BuildTool::NoTool)
    } else if text_equal(line, "AlchemyLaboratory") {
        Some(BuildTool::AlchemyLaboratory)
    } else if text_equal(line, "TfbTool") {
        Some(BuildTool::TfbTool)
    } else {
        None
    }
}

/// What became of one line of a task.
#[derive(Clone, Copy, Debug, PartialEq, Eq, Structural)]
pub enum igTaskResult {
    /// The line was carried out, or asked for nothing.
    Done,
    /// The archive that the line names could not be mounted.
    ArchiveNotMounted,
    /// The package that the line names was precached.
    Precached(igPrecached),
    /// The package that the line names could not be precached.
    PrecacheFailed(igPrecacheError),
    /// The line names no build tool.
    InvalidEngineType,
}

/// The result of precaching that the result of a full-package line stands
/// for.
pub open spec fn spec_precache_of(r: igTaskResult) -> Result<igPrecached, igPrecacheError> {
    match r {
        igTaskResult::Precached(done) => Ok(done),
        igTaskResult::PrecacheFailed(e) => Err(e),
        _ => Ok(igPrecached::NoBuildTool),
    }
}

/// Carries out one line of a task.
///
/// A loose archive is mounted from the path of the line, the archive of a
/// loose package from `app:/archives/`, the line and `.pak`. A full package
/// is precached into the default pool. An engine type sets the build tool;
/// a line that names none leaves it as it is. The switched-off and the
/// unknown task do nothing.
pub fn process_task<H: igHostStorage>(
    host: &H,
    client: &CClient,
    ig_file_context: &mut igFileContext,
    ig_registry: &mut igRegistry,
    ig_object_stream_manager: &mut igObjectStreamManager,
    ig_ext_ref_system: &igExternalReferenceSystem,
    ig_object_handle_manager: &mut igObjectHandleManager,
    ig_metadata_manager: &igMetadataManager,
    task: LoaderTask,
    line: String,
) -> (r: igTaskResult)
    requires
        client.precache_manager.wf(),
        old(ig_object_stream_manager).wf(),
    ensures
        final(ig_object_stream_manager).wf(),
        old(ig_object_stream_manager).spec_extends(final(ig_object_stream_manager)),
        final(ig_registry).platform == old(ig_registry).platform,
        final(ig_file_context)._root == old(ig_file_context)._root,
        match task {
            LoaderTask::EngineType => {
                &&& *final(ig_object_stream_manager) == *old(ig_object_stream_manager)
                &&& *final(ig_file_context) == *old(ig_file_context)
                &&& *final(ig_object_handle_manager) == *old(ig_object_handle_manager)
                &&& match spec_engine_type(line@) {
                    Some(tool) => final(ig_registry).build_tool == tool && r == igTaskResult::Done,
                    None => final(ig_registry).build_tool == old(ig_registry).build_tool && r
                        == igTaskResult::InvalidEngineType,
                }
            },
            LoaderTask::NoOp | LoaderTask::Unknown => {
                &&& r == igTaskResult::Done
                &&& *final(ig_registry) == *old(ig_registry)
                &&& *final(ig_object_stream_manager) == *old(ig_object_stream_manager)
                &&& *final(ig_file_context) == *old(ig_file_context)
                &&& *final(ig_object_handle_manager) == *old(ig_object_handle_manager)
            },
            LoaderTask::LooseIga | LoaderTask::LoosePackage => {
                &&& *final(ig_registry) == *old(ig_registry)
                &&& *final(ig_object_stream_manager) == *old(ig_object_stream_manager)
                &&& *final(ig_object_handle_manager) == *old(ig_object_handle_manager)
                &&& if r == igTaskResult::Done {
                    final(ig_file_context).archive_manager._archives@.len()
                        == old(ig_file_context).archive_manager._archives@.len() + 1
                        && final(ig_file_context).archive_manager._archives@.last()._path@
                            == (if task == LoaderTask::LooseIga {
                        line@
                    } else {
                        crate::client::archive::spec_archive_path(line@)
                    })
                } else {
                    r == igTaskResult::ArchiveNotMounted
                        && *final(ig_file_context) == *old(ig_file_context)
                }
            },
            LoaderTask::FullPackage => {
                &&& *final(ig_registry) == *old(ig_registry)
                &&& r is Precached || r is PrecacheFailed
                &&& spec_package_precached(
                    &client.precache_manager,
                    old(ig_registry).build_tool,
                    line@,
                    EMemoryPoolID::MP_DEFAULT,
                    old(ig_file_context),
                    final(ig_file_context),
                    old(ig_object_stream_manager),
                    final(ig_object_stream_manager),
                    old(ig_object_handle_manager),
                    final(ig_object_handle_manager),
                    spec_precache_of(r),
                )
            },
        },
        spec_archives_grown(old(ig_file_context), final(ig_file_context)),
{
    assert(ig_file_context.archive_manager._archives@.subrange(
        0,
        ig_file_context.archive_manager._archives@.len() as int,
    ) =~= ig_file_context.archive_manager._archives@);
    proof {
        lemma_progress_reflexive(
            ig_object_stream_manager,
            ig_object_stream_manager.directories@.len() as int,
            ig_object_stream_manager.objects@.len() as int,
        );
    }
    match task {
        LoaderTask::LooseIga => {
            if ig_file_context.load_archive(host, ig_registry, line.as_str()) {
                assert(ig_file_context.archive_manager._archives@.subrange(
                    0,
                    old(ig_file_context).archive_manager._archives@.len() as int,
                ) =~= ig_file_context.archive_manager._archives@.drop_last());
                igTaskResult::Done
            } else {
                igTaskResult::ArchiveNotMounted
            }
        },
        LoaderTask::FullPackage => {
            match client.precache_manager.precache_package(
                host,
                &client.archive_loader,
                &client.content_deployment,
                ig_registry,
                ig_file_context,
                ig_object_stream_manager,
                ig_ext_ref_system,
                ig_object_handle_manager,
                ig_metadata_manager,
                line,
                EMemoryPoolID::MP_DEFAULT,
            ) {
                Ok(done) => igTaskResult::Precached(done),
                Err(e) => igTaskResult::PrecacheFailed(e),
            }
        },
        LoaderTask::LoosePackage => {
            let full_path = archive_path(line.as_str());
            if ig_file_context.load_archive(host, ig_registry, full_path.as_str()) {
                assert(ig_file_context.archive_manager._archives@.subrange(
                    0,
                    old(ig_file_context).archive_manager._archives@.len() as int,
                ) =~= ig_file_context.archive_manager._archives@.drop_last());
                igTaskResult::Done
            } else {
                igTaskResult::ArchiveNotMounted
            }
        },
        LoaderTask::EngineType => match engine_type(line.as_str()) {
            Some(tool) => {
                ig_registry.build_tool = tool;
                igTaskResult::Done
            },
            None => igTaskResult::InvalidEngineType,
        },
        LoaderTask::NoOp | LoaderTask::Unknown => igTaskResult::Done,
    }
}

/// What a line of an init script is.
#[derive(Clone, Copy, Debug, PartialEq, Eq, Structural)]
pub enum igScriptLine {
    /// An empty line.
    Empty,
    /// A task line: it begins with `[` and ends with `]`.
    Task,
    /// A line that begins with `[` and does not end with `]`.
    UnterminatedTask,
    /// Any other line: a path.
    Path,
}

/// What a line of an init script is.
pub open spec fn spec_script_line(line: Seq<char>) -> igScriptLine {
    if line.len() == 0 {
        igScriptLine::Empty
    } else if line[0] != '[' {
        igScriptLine::Path
    } else if line.last() == ']' {
        igScriptLine::Task
    } else {
        igScriptLine::UnterminatedTask
    }
}

/// Tells what a line of an init script is.
pub fn script_line(line: &str) -> (kind: igScriptLine)
    ensures
        kind == spec_script_line(line@),
{
    let chars = chars_of(line);
    if chars.len() == 0 {
        igScriptLine::Empty
    } else if chars[0] != '[' {
        igScriptLine::Path
    } else if chars[chars.len() - 1] == ']' {
        igScriptLine::Task
    } else {
        igScriptLine::UnterminatedTask
    }
}

/// What is wrong with a line of an init script.
#[derive(Clone, Copy, Debug, PartialEq, Eq, Structural)]
pub enum igScriptProblem {
    /// A task line is not closed. The script ends here.
    UnterminatedTask,
    /// A task line names no task.
    UnknownTask,
    /// A path line is malformed.
    MalformedPath,
    /// The line could not be carried out.
    Failed(igTaskResult),
}

/// A problem and the number of the line it was found on, counted from 1.
#[derive(Clone, Copy, Debug, PartialEq, Eq, Structural)]
pub struct igScriptDiagnostic {
    pub line_number: usize,
    pub problem: igScriptProblem,
}

/// Where a run of an init script stands: the current task, whether an
/// unterminated task line has ended the script, and the build tool.
pub struct igScriptState {
    pub task: LoaderTask,
    pub ended: bool,
    pub tool: BuildTool,
}

/// The state of a run after one more line.
///
/// Once the script has ended nothing changes. An empty line changes
/// nothing; an unterminated task line ends the script; a task line sets the
/// task. A path line is carried out under the current task, which changes
/// the state only under the engine-type task, and only if the line, with
/// its tokens put in, names a build tool.
pub open spec fn spec_script_step(
    state: igScriptState,
    line: Seq<char>,
    is_weakly_loaded: bool,
    platform: IG_CORE_PLATFORM,
) -> igScriptState {
    if state.ended {
        state
    } else {
        match spec_script_line(line) {
            igScriptLine::Empty => state,
            igScriptLine::UnterminatedTask => igScriptState { ended: true, ..state },
            igScriptLine::Task => igScriptState {
                task: spec_parse_task(line, is_weakly_loaded),
                ..state
            },
            igScriptLine::Path => match spec_substitute(line, 0, platform) {
                Some(path) => if state.task == LoaderTask::EngineType && spec_engine_type(
                    path,
                ).is_some() {
                    igScriptState { tool: spec_engine_type(path)->0, ..state }
                } else {
                    state
                },
                None => state,
            },
        }
    }
}

/// The state of a run after the first `n` lines of a script that starts in
/// the loose-archive task with the build tool `tool`.
pub open spec fn spec_script_state(
    lines: Seq<String>,
    is_weakly_loaded: bool,
    platform: IG_CORE_PLATFORM,
    tool: BuildTool,
    n: nat,
) -> igScriptState
    decreases n,
{
    if n == 0 {
        igScriptState { task: LoaderTask::LooseIga, ended: false, tool }
    } else {
        spec_script_step(
            spec_script_state(lines, is_weakly_loaded, platform, tool, (n - 1) as nat),
            lines[n - 1]@,
            is_weakly_loaded,
            platform,
        )
    }
}

/// A script that has ended stays as it is, whatever lines follow.
pub proof fn lemma_script_ended(
    lines: Seq<String>,
    is_weakly_loaded: bool,
    platform: IG_CORE_PLATFORM,
    tool: BuildTool,
    n: nat,
    m: nat,
)
    requires
        n <= m,
        spec_script_state(lines, is_weakly_loaded, platform, tool, n).ended,
    ensures
        spec_script_state(lines, is_weakly_loaded, platform, tool, m) == spec_script_state(
            lines,
            is_weakly_loaded,
            platform,
            tool,
            n,
        ),
    decreases m,
{
    if n < m {
        lemma_script_ended(lines, is_weakly_loaded, platform, tool, n, (m - 1) as nat);
    }
}

/// The problem that line `k` of a script has by its text alone, if it has
/// one: a task line that is not closed or names no task, or a path line that
/// is malformed. Lines behind the end of the script have none.
pub open spec fn spec_line_problem(
    lines: Seq<String>,
    is_weakly_loaded: bool,
    platform: IG_CORE_PLATFORM,
    tool: BuildTool,
    k: int,
) -> Option<igScriptProblem> {
    if spec_script_state(lines, is_weakly_loaded, platform, tool, k as nat).ended {
        None
    } else {
        match spec_script_line(lines[k]@) {
            igScriptLine::Empty => None,
            igScriptLine::UnterminatedTask => Some(igScriptProblem::UnterminatedTask),
            igScriptLine::Task => if spec_parse_task(lines[k]@, is_weakly_loaded)
                == LoaderTask::Unknown {
                Some(igScriptProblem::UnknownTask)
            } else {
                None
            },
            igScriptLine::Path => if spec_substitute(lines[k]@, 0, platform).is_none() {
                Some(igScriptProblem::MalformedPath)
            } else {
                None
            },
        }
    }
}

/// Whether the result of a line is a problem.
pub open spec fn spec_is_failure(r: igTaskResult) -> bool {
    r == igTaskResult::ArchiveNotMounted || r == igTaskResult::InvalidEngineType || r
        is PrecacheFailed
}

/// Whether `r` is a failure that a line of the task `task` can end with:
/// an archive line fails where its archive is not mounted; an engine-type
/// line fails exactly where it names no build tool; a full-package line
/// fails where precaching fails, which it does not without a build tool.
pub open spec fn spec_failure_fits(task: LoaderTask, tool: BuildTool, path: Seq<char>, r: igTaskResult)
    -> bool {
    match task {
        LoaderTask::LooseIga | LoaderTask::LoosePackage => r == igTaskResult::ArchiveNotMounted,
        LoaderTask::EngineType => r == igTaskResult::InvalidEngineType && spec_engine_type(
            path,
        ).is_none(),
        LoaderTask::FullPackage => r is PrecacheFailed && tool != BuildTool::NoTool,
        _ => false,
    }
}

/// Whether a script can have the problem `found` where it is reported: a
/// problem of the text is the one that the line has, and a line that could
/// not be carried out is a well-formed path line before the end of the
/// script.
pub open spec fn spec_problem_founded(
    lines: Seq<String>,
    is_weakly_loaded: bool,
    platform: IG_CORE_PLATFORM,
    tool: BuildTool,
    found: igScriptDiagnostic,
) -> bool {
    let k = found.line_number - 1;
    &&& 1 <= found.line_number <= lines.len()
    &&& match found.problem {
        igScriptProblem::Failed(r) => {
            &&& !spec_script_state(lines, is_weakly_loaded, platform, tool, k as nat).ended
            &&& spec_script_line(lines[k]@) == igScriptLine::Path
            &&& spec_substitute(lines[k]@, 0, platform).is_some()
            &&& spec_is_failure(r)
            &&& spec_failure_fits(
                spec_script_state(lines, is_weakly_loaded, platform, tool, k as nat).task,
                spec_script_state(lines, is_weakly_loaded, platform, tool, k as nat).tool,
                spec_substitute(lines[k]@, 0, platform)->0,
                r,
            )
        },
        problem => spec_line_problem(lines, is_weakly_loaded, platform, tool, k) == Some(problem),
    }
}

/// Whether the problem that line `k` has by its text alone, if it has one,
/// is among `problems`.
pub open spec fn spec_problem_reported(
    lines: Seq<String>,
    is_weakly_loaded: bool,
    platform: IG_CORE_PLATFORM,
    tool: BuildTool,
    problems: Seq<igScriptDiagnostic>,
    k: int,
) -> bool {
    spec_line_problem(lines, is_weakly_loaded, platform, tool, k) matches Some(problem)
        ==> exists|j: int|
        0 <= j < problems.len() && #[trigger] problems[j] == (igScriptDiagnostic {
            line_number: (k + 1) as usize,
            problem,
        })
}

/// Whether one of the first `n` lines of a script asks for a package: a
/// path line of the full-package task before the end of the script.
pub open spec fn spec_package_asked(
    lines: Seq<String>,
    is_weakly_loaded: bool,
    platform: IG_CORE_PLATFORM,
    tool: BuildTool,
    n: nat,
) -> bool
    decreases n,
{
    n > 0 && (spec_package_asked(lines, is_weakly_loaded, platform, tool, (n - 1) as nat) || (
    !spec_script_state(lines, is_weakly_loaded, platform, tool, (n - 1) as nat).ended
        && spec_script_state(lines, is_weakly_loaded, platform, tool, (n - 1) as nat).task
        == LoaderTask::FullPackage && spec_script_line(lines[n - 1]@) == igScriptLine::Path))
}

/// Lines behind the end of a script ask for nothing.
pub proof fn lemma_package_asked_ended(
    lines: Seq<String>,
    is_weakly_loaded: bool,
    platform: IG_CORE_PLATFORM,
    tool: BuildTool,
    n: nat,
    m: nat,
)
    requires
        n <= m,
        spec_script_state(lines, is_weakly_loaded, platform, tool, n).ended,
    ensures
        spec_package_asked(lines, is_weakly_loaded, platform, tool, m) == spec_package_asked(
            lines,
            is_weakly_loaded,
            platform,
            tool,
            n,
        ),
    decreases m,
{
    if n < m {
        lemma_package_asked_ended(lines, is_weakly_loaded, platform, tool, n, (m - 1) as nat);
        lemma_script_ended(lines, is_weakly_loaded, platform, tool, n, (m - 1) as nat);
    }
}

/// What a path line that was carried out leaves behind: a loose archive
/// and the archive of a loose package are mounted; a full package of the
/// laboratory engine is listed as cached or its container is cached for its
/// path; with the other tool the level of the package is cached for its
/// path. An engine-type line names a build tool. Lines of the other tasks
/// leave nothing of their own.
pub open spec fn spec_line_effect(
    after: &igAlchemy,
    task: LoaderTask,
    tool: BuildTool,
    path: Seq<char>,
) -> bool {
    match task {
        LoaderTask::LooseIga => spec_archive_mounted(&after.file_context, path),
        LoaderTask::LoosePackage => spec_archive_mounted(
            &after.file_context,
            crate::client::archive::spec_archive_path(path),
        ),
        LoaderTask::FullPackage => match tool {
            BuildTool::NoTool => true,
            BuildTool::AlchemyLaboratory => after.client.precache_manager.spec_package_cached(
                spec_package_path(path),
                EMemoryPoolID::MP_DEFAULT,
            ) || after.object_stream_manager.spec_cached(spec_package_path(path)).is_some(),
            BuildTool::TfbTool => after.object_stream_manager.spec_cached(
                spec_level_path(path),
            ).is_some(),
        },
        LoaderTask::EngineType => spec_engine_type(path).is_some(),
        _ => true,
    }
}

/// Whether line `k` of a script was carried out: a well-formed path line
/// before the end of the script has left its effect, under the task and the
/// build tool of its place, or is reported as failed.
pub open spec fn spec_line_carried(
    lines: Seq<String>,
    is_weakly_loaded: bool,
    platform: IG_CORE_PLATFORM,
    tool: BuildTool,
    after: &igAlchemy,
    problems: Seq<igScriptDiagnostic>,
    k: int,
) -> bool {
    let state = spec_script_state(lines, is_weakly_loaded, platform, tool, k as nat);
    !state.ended && spec_script_line(lines[k]@) == igScriptLine::Path && spec_substitute(
        lines[k]@,
        0,
        platform,
    ).is_some() ==> spec_line_effect(
        after,
        state.task,
        state.tool,
        spec_substitute(lines[k]@, 0, platform)->0,
    ) || exists|j: int|
        0 <= j < problems.len() && (#[trigger] problems[j]).line_number == k + 1
            && problems[j].problem is Failed
}

/// A line that was carried out stays carried out while archives are
/// mounted, containers are loaded and problems are reported.
pub proof fn lemma_line_carried_kept(
    lines: Seq<String>,
    is_weakly_loaded: bool,
    platform: IG_CORE_PLATFORM,
    tool: BuildTool,
    before: &igAlchemy,
    after: &igAlchemy,
    known: Seq<igScriptDiagnostic>,
    problems: Seq<igScriptDiagnostic>,
    k: int,
)
    requires
        spec_line_carried(lines, is_weakly_loaded, platform, tool, before, known, k),
        spec_archives_grown(&before.file_context, &after.file_context),
        before.object_stream_manager.spec_extends(&after.object_stream_manager),
        after.client == before.client,
        known.len() <= problems.len(),
        problems.subrange(0, known.len() as int) == known,
    ensures
        spec_line_carried(lines, is_weakly_loaded, platform, tool, after, problems, k),
{
    let state = spec_script_state(lines, is_weakly_loaded, platform, tool, k as nat);
    if !state.ended && spec_script_line(lines[k]@) == igScriptLine::Path && spec_substitute(
        lines[k]@,
        0,
        platform,
    ).is_some() {
        let path = spec_substitute(lines[k]@, 0, platform)->0;
        if exists|j: int|
            0 <= j < known.len() && (#[trigger] known[j]).line_number == k + 1
                && known[j].problem is Failed {
            let j = choose|j: int|
                0 <= j < known.len() && (#[trigger] known[j]).line_number == k + 1
                    && known[j].problem is Failed;
            assert(problems[j] == problems.subrange(0, known.len() as int)[j]);
        } else {
            assert(spec_line_effect(before, state.task, state.tool, path));
            let archives = before.file_context.archive_manager._archives@;
            let later = after.file_context.archive_manager._archives@;
            assert forall|mounted: Seq<char>|
                spec_archive_mounted(
                    &before.file_context,
                    mounted,
                ) implies #[trigger] spec_archive_mounted(&after.file_context, mounted) by {
                let j = choose|j: int|
                    0 <= j < archives.len() && (#[trigger] archives[j])._path@ == mounted;
                assert(later[j] == later.subrange(0, archives.len() as int)[j]);
            }
            if before.object_stream_manager.spec_cached(spec_package_path(path)).is_some() {
                crate::object::ig_objects::lemma_cached_stays(
                    &before.object_stream_manager,
                    &after.object_stream_manager,
                    spec_package_path(path),
                );
            }
            if before.object_stream_manager.spec_cached(spec_level_path(path)).is_some() {
                crate::object::ig_objects::lemma_cached_stays(
                    &before.object_stream_manager,
                    &after.object_stream_manager,
                    spec_level_path(path),
                );
            }
        }
    }
}

/// Runs the lines of an init script.
///
/// The script starts in the loose-archive task. Empty lines are passed
/// over. A task line changes the task; one that is not closed ends the
/// script. Every other line is a path: its tokens are put in and it is
/// carried out under the current task; a malformed path is passed over.
/// The problems are returned in the order of their lines. The build tool
/// ends up as the engine-type lines of the script say.
#[verifier::rlimit(80)]
pub fn load_init_script<H: igHostStorage>(
    host: &H,
    lines: &Vec<String>,
    is_weakly_loaded: bool,
    ig_alchemy: &mut igAlchemy,
) -> (problems: Vec<igScriptDiagnostic>)
    requires
        old(ig_alchemy).client.precache_manager.wf(),
        old(ig_alchemy).object_stream_manager.wf(),
    ensures
        final(ig_alchemy).object_stream_manager.wf(),
        final(ig_alchemy).client.precache_manager.wf(),
        old(ig_alchemy).object_stream_manager.spec_extends(
            &final(ig_alchemy).object_stream_manager,
        ),
        final(ig_alchemy).registry.platform == old(ig_alchemy).registry.platform,
        final(ig_alchemy).registry.build_tool == spec_script_state(
            lines@,
            is_weakly_loaded,
            old(ig_alchemy).registry.platform,
            old(ig_alchemy).registry.build_tool,
            lines@.len(),
        ).tool,
        final(ig_alchemy).file_context._root == old(ig_alchemy).file_context._root,
        problems@.len() <= lines@.len(),
        forall|k: int|
            0 <= k < problems@.len() ==> 1 <= (#[trigger] problems@[k]).line_number <= lines@.len(),
        forall|k: int, j: int|
            0 <= k < j < problems@.len() ==> (#[trigger] problems@[k]).line_number < (
            #[trigger] problems@[j]).line_number,
        lines@.len() == 0 ==> *final(ig_alchemy) == *old(ig_alchemy),
        forall|j: int|
            0 <= j < problems@.len() ==> spec_problem_founded(
                lines@,
                is_weakly_loaded,
                old(ig_alchemy).registry.platform,
                old(ig_alchemy).registry.build_tool,
                #[trigger] problems@[j],
            ),
        forall|k: int|
            0 <= k < lines@.len() ==> #[trigger] spec_problem_reported(
                lines@,
                is_weakly_loaded,
                old(ig_alchemy).registry.platform,
                old(ig_alchemy).registry.build_tool,
                problems@,
                k,
            ),
        final(ig_alchemy).client == old(ig_alchemy).client,
        spec_archives_grown(&old(ig_alchemy).file_context, &final(ig_alchemy).file_context),
        !spec_package_asked(
            lines@,
            is_weakly_loaded,
            old(ig_alchemy).registry.platform,
            old(ig_alchemy).registry.build_tool,
            lines@.len(),
        ) ==> final(ig_alchemy).object_stream_manager == old(ig_alchemy).object_stream_manager
            && final(ig_alchemy).ig_object_handle_manager
            == old(ig_alchemy).ig_object_handle_manager,
        forall|k: int|
            0 <= k < lines@.len() ==> #[trigger] spec_line_carried(
                lines@,
                is_weakly_loaded,
                old(ig_alchemy).registry.platform,
                old(ig_alchemy).registry.build_tool,
                final(ig_alchemy),
                problems@,
                k,
            ),
{
    assert(ig_alchemy.file_context.archive_manager._archives@.subrange(
        0,
        ig_alchemy.file_context.archive_manager._archives@.len() as int,
    ) =~= ig_alchemy.file_context.archive_manager._archives@);
    let mut problems: Vec<igScriptDiagnostic> = Vec::new();
    let mut task = LoaderTask::LooseIga;
    let ghost start = ig_alchemy.object_stream_manager;
    proof {
        lemma_progress_reflexive(
            &ig_alchemy.object_stream_manager,
            ig_alchemy.object_stream_manager.directories@.len() as int,
            ig_alchemy.object_stream_manager.objects@.len() as int,
        );
    }
    let mut i: usize = 0;
    while i < lines.len()
        invariant
            i <= lines.len(),
            start == old(ig_alchemy).object_stream_manager,
            ig_alchemy.object_stream_manager.wf(),
            ig_alchemy.client.precache_manager.wf(),
            start.spec_extends(&ig_alchemy.object_stream_manager),
            ig_alchemy.registry.platform == old(ig_alchemy).registry.platform,
            spec_script_state(
                lines@,
                is_weakly_loaded,
                old(ig_alchemy).registry.platform,
                old(ig_alchemy).registry.build_tool,
                i as nat,
            ) == (igScriptState { task, ended: false, tool: ig_alchemy.registry.build_tool }),
            ig_alchemy.file_context._root == old(ig_alchemy).file_context._root,
            problems@.len() <= i,
            forall|k: int| 0 <= k < problems@.len() ==> 1 <= (#[trigger] problems@[k]).line_number
                <= i,
            forall|k: int, j: int|
                0 <= k < j < problems@.len() ==> (#[trigger] problems@[k]).line_number < (
                #[trigger] problems@[j]).line_number,
            i == 0 ==> *ig_alchemy == *old(ig_alchemy),
            forall|j: int|
                0 <= j < problems@.len() ==> spec_problem_founded(
                    lines@,
                    is_weakly_loaded,
                    old(ig_alchemy).registry.platform,
                    old(ig_alchemy).registry.build_tool,
                    #[trigger] problems@[j],
                ),
            forall|k: int|
                0 <= k < i ==> #[trigger] spec_problem_reported(
                    lines@,
                    is_weakly_loaded,
                    old(ig_alchemy).registry.platform,
                    old(ig_alchemy).registry.build_tool,
                    problems@,
                    k,
                ),
            ig_alchemy.client == old(ig_alchemy).client,
            spec_archives_grown(&old(ig_alchemy).file_context, &ig_alchemy.file_context),
            !spec_package_asked(
                lines@,
                is_weakly_loaded,
                old(ig_alchemy).registry.platform,
                old(ig_alchemy).registry.build_tool,
                i as nat,
            ) ==> ig_alchemy.object_stream_manager == old(ig_alchemy).object_stream_manager
                && ig_alchemy.ig_object_handle_manager
                == old(ig_alchemy).ig_object_handle_manager,
            forall|k: int|
                0 <= k < i ==> #[trigger] spec_line_carried(
                    lines@,
                    is_weakly_loaded,
                    old(ig_alchemy).registry.platform,
                    old(ig_alchemy).registry.build_tool,
                    ig_alchemy,
                    problems@,
                    k,
                ),
        decreases lines.len() - i,
    {
        let line_number: usize = i + 1;
        let ghost known = problems@;
        let ghost reached = *ig_alchemy;
        proof {
            lemma_progress_reflexive(
                &reached.object_stream_manager,
                reached.object_stream_manager.directories@.len() as int,
                reached.object_stream_manager.objects@.len() as int,
            );
            assert(reached.file_context.archive_manager._archives@.subrange(
                0,
                reached.file_context.archive_manager._archives@.len() as int,
            ) =~= reached.file_context.archive_manager._archives@);
        }
        match script_line(lines[i].as_str()) {
            igScriptLine::Empty => {},
            igScriptLine::UnterminatedTask => {
                problems.push(
                    igScriptDiagnostic { line_number, problem: igScriptProblem::UnterminatedTask },
                );
                proof {
                    lemma_script_ended(
                        lines@,
                        is_weakly_loaded,
                        old(ig_alchemy).registry.platform,
                        old(ig_alchemy).registry.build_tool,
                        (i + 1) as nat,
                        lines@.len(),
                    );
                    assert(problems@.last().line_number == i + 1);
                    assert(problems@.subrange(0, known.len() as int) =~= known);
                    lemma_package_asked_ended(
                        lines@,
                        is_weakly_loaded,
                        old(ig_alchemy).registry.platform,
                        old(ig_alchemy).registry.build_tool,
                        (i + 1) as nat,
                        lines@.len(),
                    );
                    assert forall|k: int| 0 <= k < lines@.len() implies #[trigger] spec_line_carried(
                        lines@,
                        is_weakly_loaded,
                        old(ig_alchemy).registry.platform,
                        old(ig_alchemy).registry.build_tool,
                        ig_alchemy,
                        problems@,
                        k,
                    ) by {
                        if k < i {
                            lemma_line_carried_kept(
                                lines@,
                                is_weakly_loaded,
                                old(ig_alchemy).registry.platform,
                                old(ig_alchemy).registry.build_tool,
                                &reached,
                                ig_alchemy,
                                known,
                                problems@,
                                k,
                            );
                        } else if k > i {
                            lemma_script_ended(
                                lines@,
                                is_weakly_loaded,
                                old(ig_alchemy).registry.platform,
                                old(ig_alchemy).registry.build_tool,
                                (i + 1) as nat,
                                k as nat,
                            );
                        }
                    }
                    assert forall|k: int|
                        0 <= k < lines@.len() implies #[trigger] spec_problem_reported(
                        lines@,
                        is_weakly_loaded,
                        old(ig_alchemy).registry.platform,
                        old(ig_alchemy).registry.build_tool,
                        problems@,
                        k,
                    ) by {
                        if k < i {
                            assert(spec_problem_reported(
                                lines@,
                                is_weakly_loaded,
                                old(ig_alchemy).registry.platform,
                                old(ig_alchemy).registry.build_tool,
                                known,
                                k,
                            ));
                            if spec_line_problem(
                                lines@,
                                is_weakly_loaded,
                                old(ig_alchemy).registry.platform,
                                old(ig_alchemy).registry.build_tool,
                                k,
                            ).is_some() {
                                let j = choose|j: int|
                                    0 <= j < known.len() && #[trigger] known[j] == (
                                    igScriptDiagnostic {
                                        line_number: (k + 1) as usize,
                                        problem: spec_line_problem(
                                            lines@,
                                            is_weakly_loaded,
                                            old(ig_alchemy).registry.platform,
                                            old(ig_alchemy).registry.build_tool,
                                            k,
                                        )->0,
                                    });
                                assert(problems@[j] == known[j]);
                            }
                        } else if k > i {
                            lemma_script_ended(
                                lines@,
                                is_weakly_loaded,
                                old(ig_alchemy).registry.platform,
                                old(ig_alchemy).registry.build_tool,
                                (i + 1) as nat,
                                k as nat,
                            );
                        } else {
                            assert(problems@[problems@.len() - 1] == (igScriptDiagnostic {
                                line_number: (i + 1) as usize,
                                problem: igScriptProblem::UnterminatedTask,
                            }));
                        }
                    }
                }
                return problems;
            },
            igScriptLine::Task => {
                task = parse_task(lines[i].clone(), is_weakly_loaded);
                if task == LoaderTask::Unknown {
                    problems.push(
                        igScriptDiagnostic { line_number, problem: igScriptProblem::UnknownTask },
                    );
                }
            },
            igScriptLine::Path => {
                match parse_file_path(lines[i].clone(), &ig_alchemy.registry) {
                    Some(path) => {
                        let ghost before = ig_alchemy.object_stream_manager;
                        let r = process_task(
                            host,
                            &ig_alchemy.client,
                            &mut ig_alchemy.file_context,
                            &mut ig_alchemy.registry,
                            &mut ig_alchemy.object_stream_manager,
                            &ig_alchemy.ig_ext_ref_system,
                            &mut ig_alchemy.ig_object_handle_manager,
                            &ig_alchemy.ark_core.metadata_manager,
                            task,
                            path,
                        );
                        proof {
                            let first = start.objects@.len() as int;
                            let dirs = start.directories@.len() as int;
                            crate::object::ig_objects::lemma_extends_is_progress(
                                &before,
                                &ig_alchemy.object_stream_manager,
                                dirs,
                                first,
                            );
                            lemma_progress_transitive(
                                &start,
                                &before,
                                &ig_alchemy.object_stream_manager,
                                dirs,
                                first,
                            );
                        }
                        match r {
                            igTaskResult::ArchiveNotMounted
                            | igTaskResult::InvalidEngineType
                            | igTaskResult::PrecacheFailed(_) => {
                                problems.push(
                                    igScriptDiagnostic {
                                        line_number,
                                        problem: igScriptProblem::Failed(r),
                                    },
                                );
                            },
                            _ => {},
                        }
                    },
                    None => {
                        problems.push(
                            igScriptDiagnostic {
                                line_number,
                                problem: igScriptProblem::MalformedPath,
                            },
                        );
                    },
                }
            },
        }
        proof {
            assert(problems@.subrange(0, known.len() as int) =~= known);
            assert(spec_archives_grown(&reached.file_context, &ig_alchemy.file_context));
            assert(reached.object_stream_manager.spec_extends(&ig_alchemy.object_stream_manager));
            assert(ig_alchemy.file_context.archive_manager._archives@.subrange(
                0,
                old(ig_alchemy).file_context.archive_manager._archives@.len() as int,
            ) =~= reached.file_context.archive_manager._archives@.subrange(
                0,
                old(ig_alchemy).file_context.archive_manager._archives@.len() as int,
            ));
            assert forall|k: int| 0 <= k < i + 1 implies #[trigger] spec_line_carried(
                lines@,
                is_weakly_loaded,
                old(ig_alchemy).registry.platform,
                old(ig_alchemy).registry.build_tool,
                ig_alchemy,
                problems@,
                k,
            ) by {
                if k < i {
                    lemma_line_carried_kept(
                        lines@,
                        is_weakly_loaded,
                        old(ig_alchemy).registry.platform,
                        old(ig_alchemy).registry.build_tool,
                        &reached,
                        ig_alchemy,
                        known,
                        problems@,
                        k,
                    );
                } else if problems@.len() > known.len() {
                    assert(problems@[problems@.len() - 1].line_number == i + 1);
                }
            }
            assert forall|k: int| 0 <= k < i + 1 implies #[trigger] spec_problem_reported(
                lines@,
                is_weakly_loaded,
                old(ig_alchemy).registry.platform,
                old(ig_alchemy).registry.build_tool,
                problems@,
                k,
            ) by {
                if k < i {
                    assert(spec_problem_reported(
                        lines@,
                        is_weakly_loaded,
                        old(ig_alchemy).registry.platform,
                        old(ig_alchemy).registry.build_tool,
                        known,
                        k,
                    ));
                    if spec_line_problem(
                        lines@,
                        is_weakly_loaded,
                        old(ig_alchemy).registry.platform,
                        old(ig_alchemy).registry.build_tool,
                        k,
                    ).is_some() {
                        let j = choose|j: int|
                            0 <= j < known.len() && #[trigger] known[j] == (igScriptDiagnostic {
                                line_number: (k + 1) as usize,
                                problem: spec_line_problem(
                                    lines@,
                                    is_weakly_loaded,
                                    old(ig_alchemy).registry.platform,
                                    old(ig_alchemy).registry.build_tool,
                                    k,
                                )->0,
                            });
                        assert(problems@[j] == known[j]);
                    }
                } else if problems@.len() > known.len() {
                    assert(problems@[problems@.len() - 1].line_number == i + 1);
                }
            }
        }
        i = i + 1;
    }
    problems
}

} // verus!
