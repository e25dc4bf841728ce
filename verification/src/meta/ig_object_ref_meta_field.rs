//! The object reference, the most delicate kind of field.
//!
//! What the stored number means depends on where the field lies in the
//! file: the runtime fixups list the places of references to local objects,
//! to objects of other containers by name, and to objects of other
//! containers by hash.

use crate::base::ig_core_platform::Endian;
use crate::load::ig_igz_loader::{IgzLoaderContext, RuntimeFields};
use crate::load::ig_load_error::igLoadError;
use crate::object::ig_handle::{igHandle, spec_resolved};
use crate::object::ig_objects::{igObject, igObjectStreamManager};
use crate::util::byteorder_fixes::{read_ptr, spec_ptr_width, spec_uint, ByteCursor};
use crate::util::sorted::contains_sorted;
use vstd::prelude::*;

verus! {

/// What an object reference turns out to be.
#[derive(Clone, Copy, Debug, PartialEq, Eq, Structural)]
pub enum igObjectRefKind {
    /// A reference to an object of the same container.
    Offset,
    /// A reference by name to an object of another container.
    NamedExternal,
    /// A reference by hash to an object of another container.
    External,
    /// No object.
    Null,
    /// A number that is not null at a place that no fixup lists.
    Inconsistent,
}

/// The kind of the reference that lies at `location` and holds `raw`: the
/// first of the three lists that has the place decides; a place in none of
/// them holds null, or is inconsistent.
pub open spec fn spec_classify(fields: RuntimeFields, location: u64, raw: u64) -> igObjectRefKind {
    if fields.offsets@.contains(location) {
        igObjectRefKind::Offset
    } else if fields.named_externals@.contains(location) {
        igObjectRefKind::NamedExternal
    } else if fields.externals@.contains(location) {
        igObjectRefKind::External
    } else if raw == 0 {
        igObjectRefKind::Null
    } else {
        igObjectRefKind::Inconsistent
    }
}

/// How many of the four tests of a reference succeed: the place is listed as
/// a local reference, as a named external, as an external, or the number is
/// zero.
pub open spec fn spec_tests_passed(fields: RuntimeFields, location: u64, raw: u64) -> int {
    (if fields.offsets@.contains(location) {
        1int
    } else {
        0int
    }) + (if fields.named_externals@.contains(location) {
        1int
    } else {
        0int
    }) + (if fields.externals@.contains(location) {
        1int
    } else {
        0int
    }) + (if raw == 0 {
        1int
    } else {
        0int
    })
}

/// A reference is inconsistent exactly when none of the four tests succeeds,
/// and where exactly one succeeds, that one decides what the reference is.
pub proof fn lemma_classify_by_tests(fields: RuntimeFields, location: u64, raw: u64)
    ensures
        spec_classify(fields, location, raw) == igObjectRefKind::Inconsistent
            <==> spec_tests_passed(fields, location, raw) == 0,
        spec_tests_passed(fields, location, raw) == 1 ==> {
            &&& spec_classify(fields, location, raw) == igObjectRefKind::Offset
                <==> fields.offsets@.contains(location)
            &&& spec_classify(fields, location, raw) == igObjectRefKind::NamedExternal
                <==> fields.named_externals@.contains(location)
            &&& spec_classify(fields, location, raw) == igObjectRefKind::External
                <==> fields.externals@.contains(location)
            &&& spec_classify(fields, location, raw) == igObjectRefKind::Null <==> raw == 0
        },
{
}

/// Tells what the reference at `location` with the number `raw` is.
pub fn classify(fields: &RuntimeFields, location: u64, raw: u64) -> (kind: igObjectRefKind)
    requires
        fields.wf(),
    ensures
        kind == spec_classify(*fields, location, raw),
{
    if contains_sorted(&fields.offsets, location) {
        igObjectRefKind::Offset
    } else if contains_sorted(&fields.named_externals, location) {
        igObjectRefKind::NamedExternal
    } else if contains_sorted(&fields.externals, location) {
        igObjectRefKind::External
    } else if raw == 0 {
        igObjectRefKind::Null
    } else {
        igObjectRefKind::Inconsistent
    }
}

/// The low 31 bits of a stored number: the index it carries.
pub open spec fn spec_index_of(raw: u64) -> u64 {
    raw & 0x7FFF_FFFF
}

/// The value of a reference that holds `raw` and is of kind `kind`, and the
/// list of unresolved handles as the decoding leaves it.
///
/// A local reference is the object created for the serialized offset `raw`.
/// A named external is entry `raw & 0x7FFFFFFF` of the list of named
/// externals. An external is what handle `raw & 0x7FFFFFFF` resolves to; the
/// handle keeps what it found. A table without the entry is an error, and so
/// is an inconsistent reference.
pub open spec fn spec_reference_value(
    ctx: IgzLoaderContext,
    mgr: igObjectStreamManager,
    kind: igObjectRefKind,
    raw: u64,
) -> Result<Option<igObject>, igLoadError> {
    match kind {
        igObjectRefKind::Offset => if ctx.offset_object_list@.contains_key(raw) {
            Ok(Some(ctx.offset_object_list@[raw]))
        } else {
            Err(igLoadError::BadIndex)
        },
        igObjectRefKind::NamedExternal => if spec_index_of(raw) < ctx.named_external_list@.len() {
            Ok(ctx.named_external_list@[spec_index_of(raw) as int])
        } else {
            Err(igLoadError::BadIndex)
        },
        igObjectRefKind::External => if spec_index_of(raw) < ctx.external_list@.len() {
            Ok(spec_resolved(ctx.external_list@[spec_index_of(raw) as int], mgr))
        } else {
            Err(igLoadError::BadIndex)
        },
        igObjectRefKind::Null => Ok(None),
        igObjectRefKind::Inconsistent => Err(igLoadError::UnresolvedReference),
    }
}

/// The list of unresolved handles after a reference of kind `kind` with the
/// number `raw` was decoded: the handle of an external has taken what it
/// resolved to.
pub open spec fn spec_externals_after(
    ctx: IgzLoaderContext,
    mgr: igObjectStreamManager,
    kind: igObjectRefKind,
    raw: u64,
) -> Seq<igHandle> {
    if kind == igObjectRefKind::External && spec_index_of(raw) < ctx.external_list@.len() {
        ctx.external_list@.update(
            spec_index_of(raw) as int,
            igHandle {
                object: spec_resolved(ctx.external_list@[spec_index_of(raw) as int], mgr),
                ..ctx.external_list@[spec_index_of(raw) as int]
            },
        )
    } else {
        ctx.external_list@
    }
}

/// The field kind of object references.
#[derive(Clone, Copy, Debug)]
pub struct igObjectRefMetaField;

impl igObjectRefMetaField {
    /// Decodes the object reference at the cursor.
    ///
    /// The field holds a number as wide as a pointer of the platform. Where
    /// the file ends before it, the decoding fails with `UnexpectedEof` and
    /// nothing changes. Otherwise the cursor moves behind the number, and the
    /// place of the field decides what the number means.
    pub fn value_from_igz(
        &self,
        object_stream_manager: &igObjectStreamManager,
        handle: &mut ByteCursor,
        endian: Endian,
        ctx: &mut IgzLoaderContext,
    ) -> (r: Result<Option<igObject>, igLoadError>)
        requires
            old(ctx).runtime_fields.wf(),
            object_stream_manager.wf(),
        ensures
            final(handle).data == old(handle).data,
            old(ctx).spec_fields_decoded(final(ctx)),
            final(ctx).named_handle_list == old(ctx).named_handle_list,
            old(handle).spec_remaining() < spec_ptr_width(old(ctx).platform) ==> {
                &&& r == Err::<Option<igObject>, igLoadError>(igLoadError::UnexpectedEof)
                &&& final(handle).position == old(handle).position
                &&& final(ctx).external_list == old(ctx).external_list
            },
            old(handle).spec_remaining() >= spec_ptr_width(old(ctx).platform) ==> {
                let raw = spec_uint(
                    old(handle).data@,
                    old(handle).position as int,
                    spec_ptr_width(old(ctx).platform),
                    endian,
                ) as u64;
                let kind = spec_classify(old(ctx).runtime_fields, old(handle).position, raw);
                &&& final(handle).position == old(handle).position + spec_ptr_width(
                    old(ctx).platform,
                )
                &&& r == spec_reference_value(*old(ctx), *object_stream_manager, kind, raw)
                &&& final(ctx).external_list@ == spec_externals_after(
                    *old(ctx),
                    *object_stream_manager,
                    kind,
                    raw,
                )
            },
    {
        let base_offset: u64 = handle.position();
        let raw: u64 = match read_ptr(handle, ctx.platform, endian) {
            Ok(raw) => raw,
            Err(_) => {
                return Err(igLoadError::UnexpectedEof);
            },
        };
        let index_bits: u64 = raw & 0x7FFF_FFFF;
        match classify(&ctx.runtime_fields, base_offset, raw) {
            igObjectRefKind::Offset => match ctx.offset_object_list.get(&raw) {
                Some(object) => Ok(Some(*object)),
                None => Err(igLoadError::BadIndex),
            },
            igObjectRefKind::NamedExternal => {
                if index_bits < ctx.named_external_list.len() as u64 {
                    Ok(ctx.named_external_list[index_bits as usize])
                } else {
                    Err(igLoadError::BadIndex)
                }
            },
            igObjectRefKind::External => {
                if index_bits < ctx.external_list.len() as u64 {
                    let index: usize = index_bits as usize;
                    let mut external = ctx.external_list[index].duplicate();
                    let object = external.get_object_alias(object_stream_manager);
                    ctx.external_list.set(index, external);
                    Ok(object)
                } else {
                    Err(igLoadError::BadIndex)
                }
            },
            igObjectRefKind::Null => Ok(None),
            igObjectRefKind::Inconsistent => Err(igLoadError::UnresolvedReference),
        }
    }
}

} // verus!
