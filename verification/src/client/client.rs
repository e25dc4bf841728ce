//! The client: what a game needs besides its objects.

use crate::base::ig_registry::igRegistry;
use crate::client::archive::CArchive;
use crate::client::cdn::CContentDeployment;
use crate::client::precache::CPrecacheManager;
use vstd::prelude::*;

verus! {

/// The client of one game.
pub struct CClient {
    pub precache_manager: CPrecacheManager,
    pub archive_loader: CArchive,
    pub content_deployment: CContentDeployment,
}

impl CClient {
    /// A client whose precache manager knows the precachers of every
    /// resource type.
    pub fn init(ig_registry: &igRegistry) -> (client: CClient)
        ensures
            client.precache_manager.wf(),
            client.precache_manager.spec_registered_defaults(),
    {
        let mut precache_manager = CPrecacheManager::new();
        precache_manager.register_pre_cachers();
        CClient {
            precache_manager,
            archive_loader: CArchive,
            content_deployment: CContentDeployment,
        }
    }
}

} // verus!
