//! The archives that hold the files of packages.

use crate::base::ig_registry::igRegistry;
use crate::client::cdn::CContentDeployment;
use crate::util::text::concat;
use crate::vfs::ig_file_context::igFileContext;
use crate::vfs::ig_fs::igHostStorage;
use vstd::prelude::*;

verus! {

/// The logical path of the archive of a package: `app:/archives/`, the name
/// and `.pak`.
pub open spec fn spec_archive_path(name: Seq<char>) -> Seq<char> {
    "app:/archives/"@ + name + ".pak"@
}

/// The logical path of the archive of a package.
pub fn archive_path(name: &str) -> (path: String)
    ensures
        path@ == spec_archive_path(name@),
{
    let front = concat("app:/archives/", name);
    concat(front.as_str(), ".pak")
}

/// The loader of package archives.
#[derive(Clone, Copy, Debug)]
pub struct CArchive;

impl CArchive {
    /// Mounts the archive of the package `name`. Tells whether the file
    /// system produced the archive.
    pub fn open<H: igHostStorage>(
        &self,
        host: &H,
        cdn: &CContentDeployment,
        ig_file_context: &mut igFileContext,
        ig_registry: &igRegistry,
        name: &str,
        flags: u32,
    ) -> (mounted: bool)
        ensures
            final(ig_file_context)._root == old(ig_file_context)._root,
            final(ig_file_context).update_provider == old(ig_file_context).update_provider,
            final(ig_file_context).storage_device == old(ig_file_context).storage_device,
            final(ig_file_context).archive_manager._patch_archives@
                == old(ig_file_context).archive_manager._patch_archives@,
            mounted
                ==> final(ig_file_context).archive_manager._archives@.len()
                    == old(ig_file_context).archive_manager._archives@.len() + 1
                && final(ig_file_context).archive_manager._archives@.drop_last()
                    == old(ig_file_context).archive_manager._archives@
                && final(ig_file_context).archive_manager._archives@.last()._path@
                    == spec_archive_path(name@),
            !mounted
                ==> final(ig_file_context).archive_manager == old(ig_file_context).archive_manager,
    {
        let path = archive_path(name);
        ig_file_context.load_archive(host, ig_registry, path.as_str())
    }
}

} // verus!
