//! Why a container could not be loaded.

use crate::load::packed_ints::PackedIntError;
use vstd::prelude::*;

verus! {

/// A terminal error of one container load. The load stops; the caches of
/// other containers are untouched.
#[derive(Clone, Copy, Debug, PartialEq, Eq, Structural)]
pub enum igLoadError {
    /// No processor of the file system produced the file.
    FileNotFound,
    /// The first four bytes are not the IGZ magic in either byte order.
    BadMagic,
    /// The file ends inside a value that the format requires.
    UnexpectedEof,
    /// The version is none of 5 to 9.
    UnsupportedVersion,
    /// The platform number of the header stands for no platform.
    UnknownPlatform,
    /// A section names a memory pool that does not exist.
    UnknownPool,
    /// A type name of the container is not registered.
    UnknownType,
    /// A type descriptor disagrees with the shape it claims.
    TypeMismatch,
    /// A default value could not be installed in a new object.
    SetupDefaultFields,
    /// An index or an offset points outside the table it indexes.
    BadIndex,
    /// A packed offset stream ends inside a group.
    PackedTruncated,
    /// A packed offset stream produces an offset beyond 32 bits.
    PackedOverflow,
    /// An object reference is not null and no fixup says what it is.
    UnresolvedReference,
    /// The container names its root objects, but has not one name for each.
    NameListMismatch,
}

/// The load error that a failed offset stream stands for.
pub open spec fn spec_from_packed_error(e: PackedIntError) -> igLoadError {
    match e {
        PackedIntError::Truncated => igLoadError::PackedTruncated,
        PackedIntError::Overflow => igLoadError::PackedOverflow,
    }
}

/// The load error that a failed offset stream stands for.
pub fn from_packed_error(e: PackedIntError) -> (err: igLoadError)
    ensures
        err == spec_from_packed_error(e),
{
    match e {
        PackedIntError::Truncated => igLoadError::PackedTruncated,
        PackedIntError::Overflow => igLoadError::PackedOverflow,
    }
}

} // verus!
