//! References through named handles, and references to memory.
//!
//! Like an object reference, each holds a number whose meaning depends on
//! where the field lies in the file: the runtime fixups list the places of
//! handles and of memory references.

use crate::base::ig_core_platform::Endian;
use crate::load::ig_igz_loader::IgzLoaderContext;
use crate::load::ig_load_error::igLoadError;
use crate::meta::ig_object_ref_meta_field::spec_index_of;
use crate::object::ig_handle::{igHandle, spec_resolved};
use crate::object::ig_objects::{igObject, igObjectStreamManager};
use crate::util::byteorder_fixes::{read_ptr, spec_ptr_width, spec_uint, ByteCursor};
use crate::util::sorted::contains_sorted;
use vstd::prelude::*;

verus! {

/// The object that a handle field at `location` with the number `raw`
/// stands for.
///
/// At a place that the fixup of handles lists, the number carries, in its
/// low 31 bits, the position of a handle in the list of named handles: the
/// field is what that handle resolves to. Elsewhere the field is null if the
/// number is zero, and nothing that can be resolved if not.
pub open spec fn spec_handle_value(
    ctx: IgzLoaderContext,
    mgr: igObjectStreamManager,
    location: u64,
    raw: u64,
) -> Result<Option<igObject>, igLoadError> {
    if ctx.runtime_fields.handles@.contains(location) {
        if spec_index_of(raw) < ctx.named_handle_list@.len() {
            Ok(spec_resolved(ctx.named_handle_list@[spec_index_of(raw) as int], mgr))
        } else {
            Err(igLoadError::BadIndex)
        }
    } else if raw == 0 {
        Ok(None)
    } else {
        Err(igLoadError::UnresolvedReference)
    }
}

/// The list of named handles after a handle field at `location` with the
/// number `raw` was decoded: the handle it names has taken what it resolved
/// to.
pub open spec fn spec_handles_after(
    ctx: IgzLoaderContext,
    mgr: igObjectStreamManager,
    location: u64,
    raw: u64,
) -> Seq<igHandle> {
    if ctx.runtime_fields.handles@.contains(location) && spec_index_of(raw)
        < ctx.named_handle_list@.len() {
        ctx.named_handle_list@.update(
            spec_index_of(raw) as int,
            igHandle {
                object: spec_resolved(ctx.named_handle_list@[spec_index_of(raw) as int], mgr),
                ..ctx.named_handle_list@[spec_index_of(raw) as int]
            },
        )
    } else {
        ctx.named_handle_list@
    }
}

/// The block of memory, as size and position, that a memory field at
/// `location` with the number `raw` stands for.
///
/// At a place that the fixup of memory handles lists, the number carries,
/// in its low 31 bits, the position of a block in the list that the
/// thumbnail fixup brought. Elsewhere the field is null if the number is
/// zero, and nothing that can be resolved if not.
pub open spec fn spec_memory_value(ctx: IgzLoaderContext, location: u64, raw: u64) -> Result<
    Option<(u64, u64)>,
    igLoadError,
> {
    if ctx.runtime_fields.memory_handles@.contains(location) {
        if spec_index_of(raw) < ctx.thumbnails@.len() {
            Ok(Some(ctx.thumbnails@[spec_index_of(raw) as int]))
        } else {
            Err(igLoadError::BadIndex)
        }
    } else if raw == 0 {
        Ok(None)
    } else {
        Err(igLoadError::UnresolvedReference)
    }
}

/// The field kind of references through named handles.
#[derive(Clone, Copy, Debug)]
pub struct igHandleMetaField;

impl igHandleMetaField {
    /// Decodes the handle field at the cursor.
    ///
    /// The field holds a number as wide as a pointer of the platform. Where
    /// the file ends before it, the decoding fails with `UnexpectedEof` and
    /// nothing changes. Otherwise the cursor moves behind the number, and
    /// the place of the field decides what the number means.
    pub fn value_from_igz(
        &self,
        object_stream_manager: &igObjectStreamManager,
        handle: &mut ByteCursor,
        endian: Endian,
        ctx: &mut IgzLoaderContext,
    ) -> (r: Result<Option<igObject>, igLoadError>)
        requires
            old(ctx).runtime_fields.wf(),
            object_stream_manager.wf(),
        ensures
            final(handle).data == old(handle).data,
            old(ctx).spec_fields_decoded(final(ctx)),
            final(ctx).external_list == old(ctx).external_list,
            old(handle).spec_remaining() < spec_ptr_width(old(ctx).platform) ==> {
                &&& r == Err::<Option<igObject>, igLoadError>(igLoadError::UnexpectedEof)
                &&& final(handle).position == old(handle).position
                &&& final(ctx).named_handle_list == old(ctx).named_handle_list
            },
            old(handle).spec_remaining() >= spec_ptr_width(old(ctx).platform) ==> {
                let raw = spec_uint(
                    old(handle).data@,
                    old(handle).position as int,
                    spec_ptr_width(old(ctx).platform),
                    endian,
                ) as u64;
                &&& final(handle).position == old(handle).position + spec_ptr_width(
                    old(ctx).platform,
                )
                &&& r == spec_handle_value(
                    *old(ctx),
                    *object_stream_manager,
                    old(handle).position,
                    raw,
                )
                &&& final(ctx).named_handle_list@ == spec_handles_after(
                    *old(ctx),
                    *object_stream_manager,
                    old(handle).position,
                    raw,
                )
            },
    {
        let base_offset: u64 = handle.position();
        let raw: u64 = match read_ptr(handle, ctx.platform, endian) {
            Ok(raw) => raw,
            Err(_) => {
                return Err(igLoadError::UnexpectedEof);
            },
        };
        let index_bits: u64 = raw & 0x7FFF_FFFF;
        if contains_sorted(&ctx.runtime_fields.handles, base_offset) {
            if index_bits < ctx.named_handle_list.len() as u64 {
                let index: usize = index_bits as usize;
                let mut named = ctx.named_handle_list[index].duplicate();
                let object = named.get_object_alias(object_stream_manager);
                ctx.named_handle_list.set(index, named);
                Ok(object)
            } else {
                Err(igLoadError::BadIndex)
            }
        } else if raw == 0 {
            Ok(None)
        } else {
            Err(igLoadError::UnresolvedReference)
        }
    }
}

/// The field kind of references to memory.
#[derive(Clone, Copy, Debug)]
pub struct igMemoryRefMetaField;

impl igMemoryRefMetaField {
    /// Decodes the memory field at the cursor.
    ///
    /// The field holds a number as wide as a pointer of the platform. Where
    /// the file ends before it, the decoding fails with `UnexpectedEof`.
    /// Otherwise the cursor moves behind the number, and the place of the
    /// field decides what the number means.
    pub fn value_from_igz(&self, handle: &mut ByteCursor, endian: Endian, ctx: &IgzLoaderContext)
        -> (r: Result<Option<(u64, u64)>, igLoadError>)
        requires
            ctx.runtime_fields.wf(),
        ensures
            final(handle).data == old(handle).data,
            old(handle).spec_remaining() < spec_ptr_width(ctx.platform) ==> r == Err::<
                Option<(u64, u64)>,
                igLoadError,
            >(igLoadError::UnexpectedEof) && final(handle).position == old(handle).position,
            old(handle).spec_remaining() >= spec_ptr_width(ctx.platform)
                ==> final(handle).position == old(handle).position + spec_ptr_width(ctx.platform)
                && r
                == spec_memory_value(
                *ctx,
                old(handle).position,
                spec_uint(
                    old(handle).data@,
                    old(handle).position as int,
                    spec_ptr_width(ctx.platform),
                    endian,
                ) as u64,
            ),
    {
        let base_offset: u64 = handle.position();
        let raw: u64 = match read_ptr(handle, ctx.platform, endian) {
            Ok(raw) => raw,
            Err(_) => {
                return Err(igLoadError::UnexpectedEof);
            },
        };
        let index_bits: u64 = raw & 0x7FFF_FFFF;
        if contains_sorted(&ctx.runtime_fields.memory_handles, base_offset) {
            if index_bits < ctx.thumbnails.len() as u64 {
                Ok(Some(ctx.thumbnails[index_bits as usize]))
            } else {
                Err(igLoadError::BadIndex)
            }
        } else if raw == 0 {
            Ok(None)
        } else {
            Err(igLoadError::UnresolvedReference)
        }
    }
}

} // verus!
