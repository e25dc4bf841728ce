//! The loaders by file extension.

use crate::load::ig_igz_loader::igIGZObjectLoader;
use crate::util::text::{chars_of, ends_with, has_suffix};
use vstd::prelude::*;

verus! {

/// What every loader of containers tells of itself.
pub trait igObjectLoader {
    /// Whether the loader reads the file of that name.
    fn can_read(&self, file_name: &str) -> bool;

    /// Internal name of the loader.
    fn get_name(&self) -> &'static str;

    /// The provider of the loader.
    fn get_type(&self) -> &'static str;
}

/// Whether the IGZ loader reads a file: its name ends in `.igz`, `.bld` or
/// `.lng`.
pub open spec fn spec_can_read(file_name: Seq<char>) -> bool {
    ends_with(file_name, ".igz"@) || ends_with(file_name, ".bld"@) || ends_with(
        file_name,
        ".lng"@,
    )
}

impl igObjectLoader for igIGZObjectLoader {
    fn can_read(&self, file_name: &str) -> (readable: bool)
        ensures
            readable == spec_can_read(file_name@),
    {
        let name = chars_of(file_name);
        has_suffix(&name, &chars_of(".igz")) || has_suffix(&name, &chars_of(".bld")) || has_suffix(
            &name,
            &chars_of(".lng"),
        )
    }

    fn get_name(&self) -> (name: &'static str)
        ensures
            name@ == "Alchemy Platform"@,
    {
        "Alchemy Platform"
    }

    fn get_type(&self) -> (provider: &'static str)
        ensures
            provider@ == "Alchemy"@,
    {
        "Alchemy"
    }
}

/// The loader that reads the file at `file_path`, if there is one.
pub fn get_loader(file_path: &str) -> (loader: Option<igIGZObjectLoader>)
    ensures
        loader.is_some() == spec_can_read(file_path@),
{
    let loader = igIGZObjectLoader;
    if loader.can_read(file_path) {
        Some(loader)
    } else {
        None
    }
}

} // verus!
