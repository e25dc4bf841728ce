//! The fixup handlers: each reads the payload of one kind of fixup and
//! applies it to the state of the load.

use crate::base::ig_core_platform::Endian;
use crate::load::ig_igz_loader::{
    spec_unpack_compressed_ints, unpack_compressed_ints, Fixup, IgzLoaderContext,
};
use crate::load::ig_load_error::igLoadError;
use crate::meta::ig_metadata_manager::{
    igMetaInstantiationError, igMetadataManager, spec_find_meta, spec_string_at, string_at,
};
use crate::object::ig_external_ref::{
    find_named, igExternalReferenceSystem, igReferenceResolverContext, spec_find_named,
};
use crate::object::ig_handle::{
    igHandle, igHandleName, igObjectHandleManager, lemma_handle_key_injective, spec_handle_key,
    spec_interned, spec_keyed,
};
use crate::object::ig_objects::{
    igObject, igObjectContent, igObjectDirectoryId, igObjectStreamManager,
    lemma_progress_reflexive,
};
use crate::util::byteorder_fixes::{
    lemma_terminator, lemma_uint_bound, read_ptr, read_string, read_struct_array_u8, read_u32,
    read_u64, spec_ptr_width, spec_terminator, spec_text, spec_uint, ByteCursor,
};
use crate::util::ig_name::igName;
use crate::base::ig_registry::igRegistry;
use crate::object::ig_objects::{lemma_extends_is_progress, lemma_progress_transitive};
use crate::util::sorted::{is_sorted, sort_ascending};
use crate::util::text::{chars_of, has_prefix, starts_with};
use crate::vfs::ig_file_context::igFileContext;
use crate::vfs::ig_fs::igHostStorage;
use vstd::prelude::*;

verus! {

/// The fields of the load state that no fixup changes.
pub open spec fn spec_header_kept(before: &IgzLoaderContext, after: &IgzLoaderContext) -> bool {
    &&& after.version == before.version
    &&& after.meta_object_version == before.meta_object_version
    &&& after.platform == before.platform
    &&& after.section_count == before.section_count
    &&& after.fixup_count == before.fixup_count
    &&& after.loaded_pools == before.loaded_pools
    &&& after.loaded_pointers == before.loaded_pointers
    &&& after.fixup_offset == before.fixup_offset
    &&& after.read_dependencies == before.read_dependencies
}

/// What a fixup of kind `fixup` leaves of the load state as it was:
/// everything that is not its own to fill.
pub open spec fn spec_lists_kept(before: &IgzLoaderContext, after: &IgzLoaderContext, fixup: Fixup)
    -> bool {
    &&& spec_header_kept(before, after)
    &&& after.runtime_fields.wf()
    &&& fixup != Fixup::T_METADATA ==> after.vtbl_list == before.vtbl_list
    &&& fixup != Fixup::T_STRING_LIST ==> after.string_list == before.string_list
    &&& fixup != Fixup::EXTERNAL_DEPENDENCIES_BY_ID ==> after.external_list == before.external_list
    &&& fixup != Fixup::EXTERNAL_DEPENDENCIES_BY_NAME ==> after.named_external_list
        == before.named_external_list && after.named_handle_list == before.named_handle_list
    &&& fixup != Fixup::THUMBNAIL ==> after.thumbnails == before.thumbnails
    &&& fixup != Fixup::RUNTIME_V_TABLES ==> after.runtime_fields.vtables
        == before.runtime_fields.vtables && after.offset_object_list == before.offset_object_list
    &&& fixup != Fixup::RUNTIME_OBJECT_LISTS ==> after.runtime_fields.object_lists
        == before.runtime_fields.object_lists
    &&& fixup != Fixup::RUNTIME_OFFSETS ==> after.runtime_fields.offsets
        == before.runtime_fields.offsets
    &&& fixup != Fixup::RUNTIME_POOL_IDS ==> after.runtime_fields.pool_ids
        == before.runtime_fields.pool_ids
    &&& fixup != Fixup::RUNTIME_STRING_TABLES ==> after.runtime_fields.string_tables
        == before.runtime_fields.string_tables
    &&& fixup != Fixup::RUNTIME_STRING_REFERENCES ==> after.runtime_fields.string_references
        == before.runtime_fields.string_references
    &&& fixup != Fixup::RUNTIME_MEMORY_HANDLES ==> after.runtime_fields.memory_handles
        == before.runtime_fields.memory_handles
    &&& fixup != Fixup::RUNTIME_EXTERNALS ==> after.runtime_fields.externals
        == before.runtime_fields.externals
    &&& fixup != Fixup::RUNTIME_NAMED_EXTERNALS ==> after.runtime_fields.named_externals
        == before.runtime_fields.named_externals
    &&& fixup != Fixup::RUNTIME_HANDLES ==> after.runtime_fields.handles
        == before.runtime_fields.handles
    &&& fixup != Fixup::OPTION_NAMED_LIST ==> after.use_name_list == before.use_name_list
}

/// Whether a string entry can be read at `pos`: a zero byte ends it inside
/// the file, at a position that leaves room for a cursor behind its padding.
pub open spec fn spec_entry_readable(bytes: Seq<u8>, pos: int) -> bool {
    0 <= pos < bytes.len() && spec_terminator(bytes, pos) < bytes.len() && spec_terminator(
        bytes,
        pos,
    ) + 2 <= u64::MAX
}

/// The text of the string entry at `pos`.
pub open spec fn spec_entry_text(bytes: Seq<u8>, pos: int) -> Seq<char> {
    spec_text(bytes, pos, spec_terminator(bytes, pos))
}

/// Where the entry behind the string entry at `pos` starts: behind the
/// terminator, and with `even` set behind one more byte if that makes the
/// length of the entry even.
pub open spec fn spec_entry_end(bytes: Seq<u8>, pos: int, even: bool) -> int {
    let taken = spec_terminator(bytes, pos) - pos + 1;
    if even && taken % 2 == 1 {
        pos + taken + 1
    } else {
        pos + taken
    }
}

/// Where string entry `i` of a run that starts at `start` starts.
pub open spec fn spec_entry_pos(bytes: Seq<u8>, start: int, even: bool, i: nat) -> int
    decreases i,
{
    if i == 0 {
        start
    } else {
        spec_entry_end(bytes, spec_entry_pos(bytes, start, even, (i - 1) as nat), even)
    }
}

/// Whether the first `n` string entries of a run can be read.
pub open spec fn spec_entries_readable(bytes: Seq<u8>, start: int, even: bool, n: nat) -> bool
    decreases n,
{
    n == 0 || (spec_entries_readable(bytes, start, even, (n - 1) as nat) && spec_entry_readable(
        bytes,
        spec_entry_pos(bytes, start, even, (n - 1) as nat),
    ))
}

/// Whether the first `n` type names of a run can be read and are
/// registered.
pub open spec fn spec_types_known(
    imm: &igMetadataManager,
    bytes: Seq<u8>,
    start: int,
    even: bool,
    n: nat,
) -> bool
    decreases n,
{
    n == 0 || (spec_types_known(imm, bytes, start, even, (n - 1) as nat) && spec_entry_readable(
        bytes,
        spec_entry_pos(bytes, start, even, (n - 1) as nat),
    ) && spec_type_at(imm, bytes, start, even, (n - 1) as nat) < imm.meta_objects@.len())
}

/// The position in the registry of the type that entry `i` names.
pub open spec fn spec_type_at(
    imm: &igMetadataManager,
    bytes: Seq<u8>,
    start: int,
    even: bool,
    i: nat,
)
    -> int {
    spec_find_meta(
        imm.meta_objects@,
        spec_entry_text(bytes, spec_entry_pos(bytes, start, even, i)),
        0,
    )
}

/// Whether string entries are padded to an even length in a version.
pub open spec fn spec_even_entries(version: u32) -> bool {
    version > 7
}

/// Reads one string entry and moves behind its padding.
pub fn read_entry(handle: &mut ByteCursor, even: bool) -> (r: Option<String>)
    ensures
        final(handle).data == old(handle).data,
        match r {
            Some(text) => {
                &&& spec_entry_readable(old(handle).data@, old(handle).position as int)
                &&& text@ == spec_entry_text(old(handle).data@, old(handle).position as int)
                &&& final(handle).position == spec_entry_end(
                    old(handle).data@,
                    old(handle).position as int,
                    even,
                )
            },
            None => !spec_entry_readable(old(handle).data@, old(handle).position as int)
                && final(handle).position == old(handle).position,
        },
{
    let base: u64 = handle.position();
    proof {
        if 0 <= base < handle.data@.len() {
            lemma_terminator(handle.data@, base as int);
        }
    }
    let text = match read_string(handle) {
        Ok(text) => text,
        Err(_) => {
            return None;
        },
    };
    if handle.position() == u64::MAX {
        handle.set_position(base);
        return None;
    }
    let taken: u64 = handle.position() - base;
    if even && taken % 2 == 1 {
        let next: u64 = handle.position() + 1;
        handle.set_position(next);
    }
    Some(text)
}

/// What the string fixup does.
///
/// It reads `count` strings at the cursor and appends them to the string
/// table. It succeeds exactly when all of them can be read; then the cursor
/// stands behind the last. A failure is `UnexpectedEof`, and leaves in the
/// table the strings that could be read.
pub open spec fn spec_string_list_applied(
    data: Seq<u8>,
    start: int,
    count: u32,
    before: &IgzLoaderContext,
    after: &IgzLoaderContext,
    end: int,
    r: Result<(), igLoadError>,
) -> bool {
    let even = spec_even_entries(before.version);
    &&& r.is_ok() <==> spec_entries_readable(data, start, even, count as nat)
    &&& r.is_err() ==> r == Err::<(), igLoadError>(igLoadError::UnexpectedEof)
    &&& before.string_list@.len() <= after.string_list@.len() <= before.string_list@.len()
        + count
    &&& after.string_list@.subrange(0, before.string_list@.len() as int) == before.string_list@
    &&& forall|j: int|
        0 <= j < after.string_list@.len() - before.string_list@.len() ==> (
        #[trigger] after.string_list@[before.string_list@.len() + j])@ == spec_entry_text(
            data,
            spec_entry_pos(data, start, even, j as nat),
        )
    &&& r.is_ok() ==> after.string_list@.len() == before.string_list@.len() + count && end
        == spec_entry_pos(data, start, even, count as nat)
}

/// Applies a string fixup.
pub fn fix_string_list(handle: &mut ByteCursor, count: u32, ctx: &mut IgzLoaderContext) -> (r:
    Result<(), igLoadError>)
    requires
        old(ctx).runtime_fields.wf(),
    ensures
        final(handle).data == old(handle).data,
        spec_lists_kept(old(ctx), final(ctx), Fixup::T_STRING_LIST),
        spec_string_list_applied(
            old(handle).data@,
            old(handle).position as int,
            count,
            old(ctx),
            final(ctx),
            final(handle).position as int,
            r,
        ),
{
    let even: bool = ctx.version > 7;
    let ghost data = handle.data@;
    let ghost start = handle.position as int;
    let ghost before = ctx.string_list@;
    let mut i: u32 = 0;
    assert(ctx.string_list@.subrange(0, before.len() as int) =~= before);
    while i < count
        invariant
            i <= count,
            even == spec_even_entries(old(ctx).version),
            handle.data == old(handle).data,
            data == handle.data@,
            start == old(handle).position,
            before == old(ctx).string_list@,
            spec_lists_kept(old(ctx), ctx, Fixup::T_STRING_LIST),
            handle.position == spec_entry_pos(data, start, even, i as nat),
            spec_entries_readable(data, start, even, i as nat),
            ctx.string_list@.len() == before.len() + i,
            ctx.string_list@.subrange(0, before.len() as int) == before,
            forall|j: int|
                0 <= j < i ==> (#[trigger] ctx.string_list@[before.len() + j])@
                    == spec_entry_text(data, spec_entry_pos(data, start, even, j as nat)),
        decreases count - i,
    {
        let text = match read_entry(handle, even) {
            Some(text) => text,
            None => {
                proof {
                    lemma_unreadable_stays(data, start, even, (i + 1) as nat, count as nat);
                }
                return Err(igLoadError::UnexpectedEof);
            },
        };
        let ghost list = ctx.string_list@;
        ctx.string_list.push(text);
        assert(ctx.string_list@.subrange(0, before.len() as int) =~= list.subrange(
            0,
            before.len() as int,
        ));
        i = i + 1;
    }
    Ok(())
}

/// Entries that cannot all be read cannot all be read when more are asked
/// for.
pub proof fn lemma_unreadable_stays(bytes: Seq<u8>, start: int, even: bool, n: nat, m: nat)
    requires
        n <= m,
        !spec_entries_readable(bytes, start, even, n),
    ensures
        !spec_entries_readable(bytes, start, even, m),
    decreases m,
{
    if n < m {
        lemma_unreadable_stays(bytes, start, even, n, (m - 1) as nat);
    }
}

/// Type names that are not all known are not all known when more are asked
/// for.
pub proof fn lemma_unknown_stays(
    imm: &igMetadataManager,
    bytes: Seq<u8>,
    start: int,
    even: bool,
    n: nat,
    m: nat,
)
    requires
        n <= m,
        !spec_types_known(imm, bytes, start, even, n),
    ensures
        !spec_types_known(imm, bytes, start, even, m),
    decreases m,
{
    if n < m {
        lemma_unknown_stays(imm, bytes, start, even, n, (m - 1) as nat);
    }
}

/// What the type fixup does.
///
/// It reads `count` type names at the cursor and appends the position of
/// each in the registry to the type table. It succeeds exactly when every
/// name can be read and is registered. It fails with `UnexpectedEof` at the
/// first name that cannot be read and with `UnknownType` at the first that
/// is not registered, whichever comes first, and leaves in the table the
/// types of the names before it.
pub open spec fn spec_metadata_applied(
    imm: &igMetadataManager,
    data: Seq<u8>,
    start: int,
    count: u32,
    before: &IgzLoaderContext,
    after: &IgzLoaderContext,
    end: int,
    r: Result<(), igLoadError>,
) -> bool {
    let even = spec_even_entries(before.version);
    let added = after.vtbl_list@.len() - before.vtbl_list@.len();
    &&& r.is_ok() <==> spec_types_known(imm, data, start, even, count as nat)
    &&& 0 <= added <= count
    &&& spec_types_known(imm, data, start, even, added as nat)
    &&& after.vtbl_list@.subrange(0, before.vtbl_list@.len() as int) == before.vtbl_list@
    &&& forall|j: int|
        0 <= j < added ==> #[trigger] after.vtbl_list@[before.vtbl_list@.len() + j]
            == spec_type_at(imm, data, start, even, j as nat)
    &&& r.is_ok() ==> added == count && end == spec_entry_pos(data, start, even, count as nat)
    &&& r.is_err() ==> added < count && (if spec_entry_readable(
        data,
        spec_entry_pos(data, start, even, added as nat),
    ) {
        r == Err::<(), igLoadError>(igLoadError::UnknownType)
    } else {
        r == Err::<(), igLoadError>(igLoadError::UnexpectedEof)
    })
}

/// Applies a type fixup.
pub fn fix_metadata(
    handle: &mut ByteCursor,
    imm: &igMetadataManager,
    count: u32,
    ctx: &mut IgzLoaderContext,
) -> (r: Result<(), igLoadError>)
    requires
        old(ctx).runtime_fields.wf(),
    ensures
        final(handle).data == old(handle).data,
        spec_lists_kept(old(ctx), final(ctx), Fixup::T_METADATA),
        spec_metadata_applied(
            imm,
            old(handle).data@,
            old(handle).position as int,
            count,
            old(ctx),
            final(ctx),
            final(handle).position as int,
            r,
        ),
{
    let even: bool = ctx.version > 7;
    let ghost data = handle.data@;
    let ghost start = handle.position as int;
    let ghost before = ctx.vtbl_list@;
    let mut i: u32 = 0;
    assert(ctx.vtbl_list@.subrange(0, before.len() as int) =~= before);
    while i < count
        invariant
            i <= count,
            even == spec_even_entries(old(ctx).version),
            handle.data == old(handle).data,
            data == handle.data@,
            start == old(handle).position,
            before == old(ctx).vtbl_list@,
            spec_lists_kept(old(ctx), ctx, Fixup::T_METADATA),
            handle.position == spec_entry_pos(data, start, even, i as nat),
            spec_types_known(imm, data, start, even, i as nat),
            ctx.vtbl_list@.len() == before.len() + i,
            ctx.vtbl_list@.subrange(0, before.len() as int) == before,
            forall|j: int|
                0 <= j < i ==> #[trigger] ctx.vtbl_list@[before.len() + j] == spec_type_at(
                    imm,
                    data,
                    start,
                    even,
                    j as nat,
                ),
        decreases count - i,
    {
        let name = match read_entry(handle, even) {
            Some(name) => name,
            None => {
                proof {
                    lemma_unknown_stays(imm, data, start, even, (i + 1) as nat, count as nat);
                }
                return Err(igLoadError::UnexpectedEof);
            },
        };
        let meta = match imm.get_or_create_meta(name.as_str()) {
            Some(meta) => meta,
            None => {
                proof {
                    lemma_unknown_stays(imm, data, start, even, (i + 1) as nat, count as nat);
                }
                return Err(igLoadError::UnknownType);
            },
        };
        let ghost list = ctx.vtbl_list@;
        ctx.vtbl_list.push(meta);
        assert(ctx.vtbl_list@.subrange(0, before.len() as int) =~= list.subrange(
            0,
            before.len() as int,
        ));
        i = i + 1;
    }
    Ok(())
}

/// What the thumbnail fixup does.
///
/// It reads `count` pairs of a size and a position, each as wide as a
/// pointer of the platform, and appends them to the list of thumbnails. It
/// succeeds exactly when the file holds all the pairs; a failure is
/// `UnexpectedEof` and leaves in the list the pairs that were complete.
pub open spec fn spec_thumbnails_applied(
    data: Seq<u8>,
    start: int,
    endian: Endian,
    count: u32,
    before: &IgzLoaderContext,
    after: &IgzLoaderContext,
    r: Result<(), igLoadError>,
) -> bool {
    let width = spec_ptr_width(before.platform);
    let added = after.thumbnails@.len() - before.thumbnails@.len();
    &&& r.is_ok() <==> count == 0 || (start <= data.len() && start + 2 * width * count
        <= data.len())
    &&& r.is_err() ==> r == Err::<(), igLoadError>(igLoadError::UnexpectedEof)
    &&& 0 <= added <= count
    &&& r.is_ok() ==> added == count
    &&& after.thumbnails@.subrange(0, before.thumbnails@.len() as int) == before.thumbnails@
    &&& forall|j: int|
        0 <= j < added ==> #[trigger] after.thumbnails@[before.thumbnails@.len() + j] == (
            spec_uint(data, start + 2 * width * j, width, endian) as u64,
            spec_uint(data, start + 2 * width * j + width, width, endian) as u64,
        )
}

/// Applies a thumbnail fixup.
pub fn fix_thumbnail(
    handle: &mut ByteCursor,
    endian: Endian,
    count: u32,
    ctx: &mut IgzLoaderContext,
)
    -> (r: Result<(), igLoadError>)
    requires
        old(ctx).runtime_fields.wf(),
    ensures
        final(handle).data == old(handle).data,
        spec_lists_kept(old(ctx), final(ctx), Fixup::THUMBNAIL),
        spec_thumbnails_applied(
            old(handle).data@,
            old(handle).position as int,
            endian,
            count,
            old(ctx),
            final(ctx),
            r,
        ),
{
    let ghost data = handle.data@;
    let ghost start = handle.position as int;
    let ghost before = ctx.thumbnails@;
    let ghost width = spec_ptr_width(ctx.platform);
    let mut i: u32 = 0;
    assert(ctx.thumbnails@.subrange(0, before.len() as int) =~= before);
    while i < count
        invariant
            i <= count,
            handle.data == old(handle).data,
            data == handle.data@,
            start == old(handle).position,
            before == old(ctx).thumbnails@,
            width == spec_ptr_width(old(ctx).platform),
            width == 4 || width == 8,
            spec_lists_kept(old(ctx), ctx, Fixup::THUMBNAIL),
            handle.position == start + 2 * width * i,
            i > 0 ==> start + 2 * width * i <= data.len(),
            ctx.thumbnails@.len() == before.len() + i,
            ctx.thumbnails@.subrange(0, before.len() as int) == before,
            forall|j: int|
                0 <= j < i ==> #[trigger] ctx.thumbnails@[before.len() + j] == (
                    spec_uint(data, start + 2 * width * j, width, endian) as u64,
                    spec_uint(data, start + 2 * width * j + width, width, endian) as u64,
                ),
        decreases count - i,
    {
        proof {
            lemma_uint_bound(data, start + 2 * width * i, width, endian);
            lemma_uint_bound(data, start + 2 * width * i + width, width, endian);
            assert(2 * width * (i + 1) == 2 * width * i + 2 * width) by (nonlinear_arith);
            assert(2 * width * count >= 2 * width * (i + 1)) by (nonlinear_arith)
                requires
                    count >= i + 1,
                    width >= 0,
            ;
        }
        let size = match read_ptr(handle, ctx.platform, endian) {
            Ok(v) => v,
            Err(_) => {
                return Err(igLoadError::UnexpectedEof);
            },
        };
        let raw = match read_ptr(handle, ctx.platform, endian) {
            Ok(v) => v,
            Err(_) => {
                return Err(igLoadError::UnexpectedEof);
            },
        };
        let ghost list = ctx.thumbnails@;
        ctx.thumbnails.push((size, raw));
        assert(ctx.thumbnails@.subrange(0, before.len() as int) =~= list.subrange(
            0,
            before.len() as int,
        ));
        i = i + 1;
    }
    Ok(())
}

/// What the store looks like after a fixup, or a run of fixups, of the
/// load of directory `dir`: it is well formed; nothing that existed has
/// changed but `dir` itself, which keeps its path and namespace and does not
/// name its root objects yet.
pub open spec fn spec_store_kept(
    before: &igObjectStreamManager,
    after: &igObjectStreamManager,
    dir: igObjectDirectoryId,
) -> bool {
    &&& after.wf()
    &&& before.spec_progress(after, dir as int, before.objects@.len() as int)
    &&& dir < after.directories@.len()
    &&& !after.directories@[dir as int].use_name_list
}

/// The payload of a runtime fixup as a list of offsets.
///
/// The payload is what lies between the cursor and the end of the fixup:
/// `length - start` bytes of packed offsets, of which the first `count` are
/// taken. A fixup that starts behind its own end has no payload, and the
/// file must hold all of it.
pub open spec fn spec_runtime_list(
    ctx: IgzLoaderContext,
    data: Seq<u8>,
    pos: int,
    length: u32,
    start: u32,
    count: u32,
    deserialize: bool,
) -> Result<Seq<u64>, igLoadError> {
    if length < start {
        Err(igLoadError::BadIndex)
    } else if pos + (length - start) > data.len() {
        Err(igLoadError::UnexpectedEof)
    } else {
        spec_unpack_compressed_ints(
            ctx,
            data.subrange(pos, pos + (length - start)),
            count,
            deserialize,
        )
    }
}

/// Reads the payload of a runtime fixup.
pub fn read_runtime_list(
    handle: &mut ByteCursor,
    endian: Endian,
    length: u32,
    start: u32,
    count: u32,
    ctx: &IgzLoaderContext,
    deserialize: bool,
) -> (r: Result<Vec<u64>, igLoadError>)
    ensures
        final(handle).data == old(handle).data,
        match r {
            Ok(list) => spec_runtime_list(
                *ctx,
                old(handle).data@,
                old(handle).position as int,
                length,
                start,
                count,
                deserialize,
            ) == Ok::<Seq<u64>, igLoadError>(list@),
            Err(e) => spec_runtime_list(
                *ctx,
                old(handle).data@,
                old(handle).position as int,
                length,
                start,
                count,
                deserialize,
            ) == Err::<Seq<u64>, igLoadError>(e),
        },
{
    if length < start {
        return Err(igLoadError::BadIndex);
    }
    let payload = match read_struct_array_u8(handle, endian, (length - start) as usize) {
        Ok(payload) => payload,
        Err(_) => {
            return Err(igLoadError::UnexpectedEof);
        },
    };
    unpack_compressed_ints(ctx, payload.as_slice(), count, deserialize)
}

/// Whether a kind of fixup brings a list of byte positions.
pub open spec fn spec_is_position_list(fixup: Fixup) -> bool {
    fixup == Fixup::RUNTIME_OFFSETS || fixup == Fixup::RUNTIME_POOL_IDS || fixup
        == Fixup::RUNTIME_STRING_TABLES || fixup == Fixup::RUNTIME_STRING_REFERENCES || fixup
        == Fixup::RUNTIME_MEMORY_HANDLES || fixup == Fixup::RUNTIME_EXTERNALS || fixup
        == Fixup::RUNTIME_NAMED_EXTERNALS || fixup == Fixup::RUNTIME_HANDLES
}

/// The list that a kind of fixup fills.
pub open spec fn spec_position_list(ctx: &IgzLoaderContext, fixup: Fixup) -> Seq<u64> {
    match fixup {
        Fixup::RUNTIME_OFFSETS => ctx.runtime_fields.offsets@,
        Fixup::RUNTIME_POOL_IDS => ctx.runtime_fields.pool_ids@,
        Fixup::RUNTIME_STRING_TABLES => ctx.runtime_fields.string_tables@,
        Fixup::RUNTIME_STRING_REFERENCES => ctx.runtime_fields.string_references@,
        Fixup::RUNTIME_MEMORY_HANDLES => ctx.runtime_fields.memory_handles@,
        Fixup::RUNTIME_EXTERNALS => ctx.runtime_fields.externals@,
        Fixup::RUNTIME_NAMED_EXTERNALS => ctx.runtime_fields.named_externals@,
        Fixup::RUNTIME_HANDLES => ctx.runtime_fields.handles@,
        _ => Seq::empty(),
    }
}

/// What a fixup that brings a list of byte positions does.
///
/// The offsets of its payload are turned into positions in the file and
/// stored in ascending order: the stored list holds exactly the decoded
/// positions, each as often as it was decoded. A payload that cannot be
/// decoded fails the fixup and leaves the state as it was.
pub open spec fn spec_positions_applied(
    fixup: Fixup,
    decoded: Result<Seq<u64>, igLoadError>,
    before: &IgzLoaderContext,
    after: &IgzLoaderContext,
    r: Result<(), igLoadError>,
) -> bool {
    match decoded {
        Ok(list) => {
            &&& r.is_ok()
            &&& is_sorted(spec_position_list(after, fixup))
            &&& spec_position_list(after, fixup).to_multiset() == list.to_multiset()
        },
        Err(e) => r == Err::<(), igLoadError>(e) && spec_position_list(after, fixup)
            == spec_position_list(before, fixup),
    }
}

/// Applies a fixup that brings a list of byte positions.
pub fn fix_runtime_list(
    fixup: Fixup,
    handle: &mut ByteCursor,
    endian: Endian,
    length: u32,
    start: u32,
    count: u32,
    ctx: &mut IgzLoaderContext,
) -> (r: Result<(), igLoadError>)
    requires
        spec_is_position_list(fixup),
        old(ctx).runtime_fields.wf(),
    ensures
        final(handle).data == old(handle).data,
        spec_lists_kept(old(ctx), final(ctx), fixup),
        spec_positions_applied(
            fixup,
            spec_runtime_list(
                *old(ctx),
                old(handle).data@,
                old(handle).position as int,
                length,
                start,
                count,
                true,
            ),
            old(ctx),
            final(ctx),
            r,
        ),
{
    let decoded = match read_runtime_list(handle, endian, length, start, count, ctx, true) {
        Ok(decoded) => decoded,
        Err(e) => {
            return Err(e);
        },
    };
    let sorted = sort_ascending(&decoded);
    match fixup {
        Fixup::RUNTIME_OFFSETS => {
            ctx.runtime_fields.offsets = sorted;
        },
        Fixup::RUNTIME_POOL_IDS => {
            ctx.runtime_fields.pool_ids = sorted;
        },
        Fixup::RUNTIME_STRING_TABLES => {
            ctx.runtime_fields.string_tables = sorted;
        },
        Fixup::RUNTIME_STRING_REFERENCES => {
            ctx.runtime_fields.string_references = sorted;
        },
        Fixup::RUNTIME_MEMORY_HANDLES => {
            ctx.runtime_fields.memory_handles = sorted;
        },
        Fixup::RUNTIME_EXTERNALS => {
            ctx.runtime_fields.externals = sorted;
        },
        Fixup::RUNTIME_NAMED_EXTERNALS => {
            ctx.runtime_fields.named_externals = sorted;
        },
        _ => {
            ctx.runtime_fields.handles = sorted;
        },
    }
    Ok(())
}

/// The number that stands at the start of the object at a serialized
/// offset: the position of the object's type in the type table.
pub open spec fn spec_type_index(ctx: &IgzLoaderContext, data: Seq<u8>, endian: Endian, offset: u64)
    -> nat {
    spec_uint(
        data,
        ctx.spec_deserialize_offset(offset)->0 as int,
        spec_ptr_width(ctx.platform),
        endian,
    )
}

/// Whether the object for a serialized offset can be created: the offset
/// lies in a section, the file holds the type index, and the index names a
/// registered type of the type table.
pub open spec fn spec_instantiable(
    ctx: &IgzLoaderContext,
    imm: &igMetadataManager,
    data: Seq<u8>,
    endian: Endian,
    offset: u64,
) -> bool {
    &&& ctx.spec_deserialize_offset(offset).is_some()
    &&& ctx.spec_deserialize_offset(offset)->0 + spec_ptr_width(ctx.platform) <= data.len()
    &&& spec_type_index(ctx, data, endian, offset) < ctx.vtbl_list@.len()
    &&& ctx.vtbl_list@[spec_type_index(ctx, data, endian, offset) as int]
        < imm.meta_objects@.len()
}

/// The error with which creating the object at the serialized offset
/// `offset` fails, or `None` where the object is created.
///
/// An offset outside the sections, a type index beyond the type table and a
/// type that is not registered give `BadIndex`; a file that ends inside the
/// type index gives `UnexpectedEof`; a type that claims the shape of
/// another gives `TypeMismatch`, and one with a nameless field
/// `SetupDefaultFields`.
pub open spec fn spec_instantiate_error(
    ctx: &IgzLoaderContext,
    imm: &igMetadataManager,
    data: Seq<u8>,
    endian: Endian,
    offset: u64,
) -> Option<igLoadError> {
    let meta = imm.meta_objects@[ctx.vtbl_list@[spec_type_index(ctx, data, endian, offset) as int]
        as int];
    if ctx.spec_deserialize_offset(offset).is_none() {
        Some(igLoadError::BadIndex)
    } else if ctx.spec_deserialize_offset(offset)->0 + spec_ptr_width(ctx.platform) > data.len() {
        Some(igLoadError::UnexpectedEof)
    } else if !spec_instantiable(ctx, imm, data, endian, offset) {
        Some(igLoadError::BadIndex)
    } else if !meta.spec_shape_agrees() {
        Some(igLoadError::TypeMismatch)
    } else if crate::meta::ig_metadata_manager::spec_first_nameless(meta.fields@, 0)
        < meta.fields@.len() {
        Some(igLoadError::SetupDefaultFields)
    } else {
        None
    }
}

/// The error of the first of the first `n` offsets of the type fixup whose
/// object cannot be created, or `None` where all of them can.
pub open spec fn spec_append_error(
    ctx: &IgzLoaderContext,
    imm: &igMetadataManager,
    data: Seq<u8>,
    endian: Endian,
    n: nat,
) -> Option<igLoadError>
    decreases n,
{
    if n == 0 {
        None
    } else {
        match spec_append_error(ctx, imm, data, endian, (n - 1) as nat) {
            Some(e) => Some(e),
            None => spec_instantiate_error(
                ctx,
                imm,
                data,
                endian,
                ctx.runtime_fields.vtables@[n - 1],
            ),
        }
    }
}

/// An object that cannot be created ends the creation of the objects with
/// its error, however many offsets follow.
pub proof fn lemma_append_failed(
    ctx: &IgzLoaderContext,
    imm: &igMetadataManager,
    data: Seq<u8>,
    endian: Endian,
    n: nat,
    m: nat,
)
    requires
        n <= m,
        spec_append_error(ctx, imm, data, endian, n) is Some,
    ensures
        spec_append_error(ctx, imm, data, endian, m) == spec_append_error(
            ctx,
            imm,
            data,
            endian,
            n,
        ),
    decreases m,
{
    if n < m {
        lemma_append_failed(ctx, imm, data, endian, n, (m - 1) as nat);
    }
}

/// Which objects can be created depends on the sections and the type table
/// alone, not on the objects that were created already.
pub proof fn lemma_append_error_kept(
    before: &IgzLoaderContext,
    after: &IgzLoaderContext,
    imm: &igMetadataManager,
    data: Seq<u8>,
    endian: Endian,
    n: nat,
)
    requires
        spec_header_kept(before, after),
        after.vtbl_list == before.vtbl_list,
        after.runtime_fields.vtables == before.runtime_fields.vtables,
    ensures
        spec_append_error(after, imm, data, endian, n) == spec_append_error(
            before,
            imm,
            data,
            endian,
            n,
        ),
    decreases n,
{
    if n > 0 {
        lemma_append_error_kept(before, after, imm, data, endian, (n - 1) as nat);
    }
}

/// Whether the objects recorded under offsets that the type fixup does not
/// list are as they were.
pub open spec fn spec_other_objects_kept(before: &IgzLoaderContext, after: &IgzLoaderContext)
    -> bool {
    forall|key: u64|
        !after.runtime_fields.vtables@.contains(key) ==> (
        #[trigger] after.offset_object_list@.contains_key(key))
            == before.offset_object_list@.contains_key(key) && (
        before.offset_object_list@.contains_key(key) ==> after.offset_object_list@[key]
            == before.offset_object_list@[key])
}

/// Creates the object that the file holds at a serialized offset, in the
/// pool of the offset's section and for the directory `dir`.
///
/// An offset that is not instantiable fails with `BadIndex`, or with
/// `UnexpectedEof` where the file ends before the type index; a type that
/// cannot be instantiated fails with `TypeMismatch` or `SetupDefaultFields`.
/// A failure leaves the store as it was.
pub fn instantiate_object(
    ctx: &IgzLoaderContext,
    handle: &mut ByteCursor,
    endian: Endian,
    imm: &igMetadataManager,
    object_stream_manager: &mut igObjectStreamManager,
    dir: igObjectDirectoryId,
    offset: u64,
) -> (r: Result<igObject, igLoadError>)
    requires
        old(object_stream_manager).wf(),
    ensures
        final(handle).data == old(handle).data,
        final(object_stream_manager).wf(),
        final(object_stream_manager).directories == old(object_stream_manager).directories,
        final(object_stream_manager).name_to_directory_lookup
            == old(object_stream_manager).name_to_directory_lookup,
        final(object_stream_manager).path_to_directory_lookup
            == old(object_stream_manager).path_to_directory_lookup,
        match r {
            Ok(id) => {
                &&& spec_instantiable(ctx, imm, old(handle).data@, endian, offset)
                &&& id == old(object_stream_manager).objects@.len()
                &&& final(object_stream_manager).objects@.len() == id + 1
                &&& final(object_stream_manager).objects@.subrange(
                    0,
                    id as int,
                ) == old(object_stream_manager).objects@
                &&& final(object_stream_manager).objects@[id as int].meta == ctx.vtbl_list@[
                    spec_type_index(ctx, old(handle).data@, endian, offset) as int
                ]
                &&& final(object_stream_manager).objects@[id as int].owner == dir
                &&& Some(final(object_stream_manager).objects@[id as int].pool) == ctx.spec_pool_of(
                    offset,
                )
            },
            Err(e) => {
                &&& final(object_stream_manager).objects == old(object_stream_manager).objects
                &&& spec_instantiable(ctx, imm, old(handle).data@, endian, offset) ==> e
                    == igLoadError::TypeMismatch || e == igLoadError::SetupDefaultFields
                &&& !spec_instantiable(ctx, imm, old(handle).data@, endian, offset) ==> e
                    == igLoadError::BadIndex || e == igLoadError::UnexpectedEof
            },
        },
        match spec_instantiate_error(ctx, imm, old(handle).data@, endian, offset) {
            Some(e) => r == Err::<igObject, igLoadError>(e),
            None => r.is_ok(),
        },
{
    let position = match ctx.deserialize_offset(offset) {
        Some(position) => position,
        None => {
            return Err(igLoadError::BadIndex);
        },
    };
    handle.set_position(position);
    proof {
        lemma_uint_bound(handle.data@, position as int, spec_ptr_width(ctx.platform), endian);
    }
    let index: u64 = match read_ptr(handle, ctx.platform, endian) {
        Ok(index) => index,
        Err(_) => {
            return Err(igLoadError::UnexpectedEof);
        },
    };
    if index >= ctx.vtbl_list.len() as u64 {
        return Err(igLoadError::BadIndex);
    }
    let meta: usize = ctx.vtbl_list[index as usize];
    if meta >= imm.meta_objects.len() {
        return Err(igLoadError::BadIndex);
    }
    let pool = match ctx.get_pool_from_serialized_offset(offset) {
        Some(pool) => pool,
        None => {
            return Err(igLoadError::BadIndex);
        },
    };
    match imm.meta_objects[meta].raw_instantiate(meta, pool, dir, false) {
        Ok(object) => {
            let id = object_stream_manager.add_object(object);
            assert(object_stream_manager.objects@.subrange(0, id as int)
                =~= old(object_stream_manager).objects@);
            Ok(id)
        },
        Err(igMetaInstantiationError::TypeMismatchError(_)) => Err(igLoadError::TypeMismatch),
        Err(igMetaInstantiationError::SetupDefaultFieldsError) => Err(
            igLoadError::SetupDefaultFields,
        ),
    }
}

/// Every object that the load has recorded exists and belongs to the
/// directory, and no object is recorded under two offsets.
pub open spec fn spec_objects_recorded(
    ctx: &IgzLoaderContext,
    mgr: &igObjectStreamManager,
    dir: igObjectDirectoryId,
) -> bool {
    &&& forall|key: u64| #[trigger]
        ctx.offset_object_list@.contains_key(key) ==> ctx.offset_object_list@[key]
            < mgr.objects@.len() && mgr.objects@[ctx.offset_object_list@[key] as int].owner == dir
    &&& forall|a: u64, b: u64|
        ctx.offset_object_list@.contains_key(a) && ctx.offset_object_list@.contains_key(b)
            && #[trigger] ctx.offset_object_list@[a] == #[trigger] ctx.offset_object_list@[b] ==> a
            == b
}

/// What holds of the objects of a load at every moment: every recorded
/// object exists and belongs to the directory, under one offset only, and
/// every offset of the type fixup has its object, of the type that the file
/// names at that offset.
pub open spec fn spec_objects_known(
    ctx: &IgzLoaderContext,
    mgr: &igObjectStreamManager,
    data: Seq<u8>,
    endian: Endian,
    dir: igObjectDirectoryId,
) -> bool {
    spec_objects_recorded(ctx, mgr, dir) && spec_objects_placed(
        ctx,
        mgr,
        data,
        endian,
        dir,
        ctx.runtime_fields.vtables@.len() as int,
    )
}

/// What is known of the objects of a load stays known while the store only
/// grows, the type table only grows, and the offsets, the recorded objects
/// and the sections stay as they are.
pub proof fn lemma_objects_known_kept(
    ctx_before: &IgzLoaderContext,
    ctx_after: &IgzLoaderContext,
    mgr_before: &igObjectStreamManager,
    mgr_after: &igObjectStreamManager,
    data: Seq<u8>,
    endian: Endian,
    dir: igObjectDirectoryId,
    first: int,
)
    requires
        spec_objects_known(ctx_before, mgr_before, data, endian, dir),
        spec_header_kept(ctx_before, ctx_after),
        ctx_after.runtime_fields.vtables == ctx_before.runtime_fields.vtables,
        ctx_after.offset_object_list == ctx_before.offset_object_list,
        ctx_before.vtbl_list@.len() <= ctx_after.vtbl_list@.len(),
        ctx_after.vtbl_list@.subrange(0, ctx_before.vtbl_list@.len() as int)
            == ctx_before.vtbl_list@,
        mgr_before.spec_progress(mgr_after, dir as int, first),
    ensures
        spec_objects_known(ctx_after, mgr_after, data, endian, dir),
{
    assert forall|k: int| 0 <= k < ctx_after.runtime_fields.vtables@.len() implies {
        &&& ctx_after.offset_object_list@.contains_key(
            #[trigger] ctx_after.runtime_fields.vtables@[k],
        )
        &&& ctx_after.spec_deserialize_offset(ctx_after.runtime_fields.vtables@[k]).is_some()
        &&& spec_type_index(ctx_after, data, endian, ctx_after.runtime_fields.vtables@[k])
            < ctx_after.vtbl_list@.len()
        &&& ctx_after.offset_object_list@[ctx_after.runtime_fields.vtables@[k]]
            < mgr_after.objects@.len()
        &&& mgr_after.objects@[ctx_after.offset_object_list@[
            ctx_after.runtime_fields.vtables@[k]
        ] as int].meta == ctx_after.vtbl_list@[spec_type_index(
            ctx_after,
            data,
            endian,
            ctx_after.runtime_fields.vtables@[k],
        ) as int]
        &&& mgr_after.objects@[ctx_after.offset_object_list@[
            ctx_after.runtime_fields.vtables@[k]
        ] as int].owner == dir
        &&& Some(
            mgr_after.objects@[ctx_after.offset_object_list@[
                ctx_after.runtime_fields.vtables@[k]
            ] as int].pool,
        ) == ctx_after.spec_pool_of(ctx_after.runtime_fields.vtables@[k])
    } by {
        let key = ctx_before.runtime_fields.vtables@[k];
        let index = spec_type_index(ctx_before, data, endian, key);
        assert(ctx_before.offset_object_list@.contains_key(key));
        assert(spec_type_index(ctx_after, data, endian, key) == index);
        assert(ctx_after.vtbl_list@[index as int] == ctx_after.vtbl_list@.subrange(
            0,
            ctx_before.vtbl_list@.len() as int,
        )[index as int]);
        let object = ctx_before.offset_object_list@[key];
        assert(mgr_after.objects@[object as int].meta == mgr_before.objects@[object as int].meta);
        assert(mgr_after.objects@[object as int].pool == mgr_before.objects@[object as int].pool);
    }
    assert forall|key: u64| #[trigger]
        ctx_after.offset_object_list@.contains_key(key) implies ctx_after.offset_object_list@[key]
        < mgr_after.objects@.len()
        && mgr_after.objects@[ctx_after.offset_object_list@[key] as int].owner == dir by {
        let object = ctx_before.offset_object_list@[key];
        assert(mgr_after.objects@[object as int].owner == mgr_before.objects@[object as int].owner);
    }
}

/// Every offset of the type fixup up to position `n` has its object, of the
/// type that the file names at that offset and owned by the directory.
pub open spec fn spec_objects_placed(
    ctx: &IgzLoaderContext,
    mgr: &igObjectStreamManager,
    data: Seq<u8>,
    endian: Endian,
    dir: igObjectDirectoryId,
    n: int,
) -> bool {
    forall|k: int|
        0 <= k < n ==> {
            &&& ctx.offset_object_list@.contains_key(#[trigger] ctx.runtime_fields.vtables@[k])
            &&& ctx.spec_deserialize_offset(ctx.runtime_fields.vtables@[k]).is_some()
            &&& spec_type_index(ctx, data, endian, ctx.runtime_fields.vtables@[k])
                < ctx.vtbl_list@.len()
            &&& ctx.offset_object_list@[ctx.runtime_fields.vtables@[k]] < mgr.objects@.len()
            &&& mgr.objects@[ctx.offset_object_list@[ctx.runtime_fields.vtables@[k]] as int].meta
                == ctx.vtbl_list@[spec_type_index(
                ctx,
                data,
                endian,
                ctx.runtime_fields.vtables@[k],
            ) as int]
            &&& mgr.objects@[ctx.offset_object_list@[ctx.runtime_fields.vtables@[k]] as int].owner
                == dir
            &&& Some(
                mgr.objects@[ctx.offset_object_list@[ctx.runtime_fields.vtables@[k]] as int].pool,
            ) == ctx.spec_pool_of(ctx.runtime_fields.vtables@[k])
        }
}

/// Creates the object of every offset of the type fixup, in the order of
/// the fixup, and records it under its offset.
pub fn instantiate_and_append_objects(
    ctx: &mut IgzLoaderContext,
    handle: &mut ByteCursor,
    endian: Endian,
    imm: &igMetadataManager,
    object_stream_manager: &mut igObjectStreamManager,
    dir: igObjectDirectoryId,
) -> (r: Result<(), igLoadError>)
    requires
        spec_objects_recorded(old(ctx), old(object_stream_manager), dir),
        old(object_stream_manager).wf(),
        old(ctx).runtime_fields.wf(),
        dir < old(object_stream_manager).directories@.len(),
        !old(object_stream_manager).directories@[dir as int].use_name_list,
    ensures
        spec_objects_recorded(final(ctx), final(object_stream_manager), dir),
        final(handle).data == old(handle).data,
        spec_store_kept(old(object_stream_manager), final(object_stream_manager), dir),
        final(object_stream_manager).name_to_directory_lookup
            == old(object_stream_manager).name_to_directory_lookup,
        final(object_stream_manager).path_to_directory_lookup
            == old(object_stream_manager).path_to_directory_lookup,
        final(object_stream_manager).directories == old(object_stream_manager).directories,
        spec_header_kept(old(ctx), final(ctx)),
        final(ctx).runtime_fields == old(ctx).runtime_fields,
        final(ctx).vtbl_list == old(ctx).vtbl_list,
        final(ctx).string_list == old(ctx).string_list,
        final(ctx).external_list == old(ctx).external_list,
        final(ctx).named_external_list == old(ctx).named_external_list,
        final(ctx).named_handle_list == old(ctx).named_handle_list,
        final(ctx).thumbnails == old(ctx).thumbnails,
        final(ctx).use_name_list == old(ctx).use_name_list,
        r.is_ok() ==> spec_objects_placed(
            final(ctx),
            final(object_stream_manager),
            old(handle).data@,
            endian,
            dir,
            final(ctx).runtime_fields.vtables@.len() as int,
        ),
        match spec_append_error(
            old(ctx),
            imm,
            old(handle).data@,
            endian,
            old(ctx).runtime_fields.vtables@.len(),
        ) {
            Some(e) => r == Err::<(), igLoadError>(e),
            None => r.is_ok(),
        },
        spec_other_objects_kept(old(ctx), final(ctx)),
{
    let ghost data = handle.data@;
    let ghost start_mgr = *object_stream_manager;
    proof {
        lemma_progress_reflexive(
            object_stream_manager,
            dir as int,
            object_stream_manager.objects@.len() as int,
        );
    }
    let mut i: usize = 0;
    while i < ctx.runtime_fields.vtables.len()
        invariant
            i <= ctx.runtime_fields.vtables@.len(),
            handle.data == old(handle).data,
            data == handle.data@,
            start_mgr == *old(object_stream_manager),
            object_stream_manager.wf(),
            start_mgr.spec_progress(
                object_stream_manager,
                dir as int,
                start_mgr.objects@.len() as int,
            ),
            dir < object_stream_manager.directories@.len(),
            !object_stream_manager.directories@[dir as int].use_name_list,
            object_stream_manager.directories == start_mgr.directories,
            object_stream_manager.name_to_directory_lookup == start_mgr.name_to_directory_lookup,
            object_stream_manager.path_to_directory_lookup == start_mgr.path_to_directory_lookup,
            spec_header_kept(old(ctx), ctx),
            ctx.runtime_fields == old(ctx).runtime_fields,
            ctx.vtbl_list == old(ctx).vtbl_list,
            ctx.string_list == old(ctx).string_list,
            ctx.external_list == old(ctx).external_list,
            ctx.named_external_list == old(ctx).named_external_list,
            ctx.named_handle_list == old(ctx).named_handle_list,
            ctx.thumbnails == old(ctx).thumbnails,
            ctx.use_name_list == old(ctx).use_name_list,
            spec_objects_recorded(ctx, object_stream_manager, dir),
            spec_objects_placed(ctx, object_stream_manager, data, endian, dir, i as int),
            spec_append_error(old(ctx), imm, data, endian, i as nat).is_none(),
            spec_other_objects_kept(old(ctx), ctx),
        decreases ctx.runtime_fields.vtables@.len() - i,
    {
        let offset: u64 = ctx.runtime_fields.vtables[i];
        let ghost mgr_before = *object_stream_manager;
        let ghost map_before = ctx.offset_object_list@;
        proof {
            lemma_append_error_kept(old(ctx), ctx, imm, data, endian, (i + 1) as nat);
            lemma_append_error_kept(old(ctx), ctx, imm, data, endian, i as nat);
            assert(ctx.runtime_fields.vtables@.contains(offset));
        }
        let id = match instantiate_object(
            ctx,
            handle,
            endian,
            imm,
            object_stream_manager,
            dir,
            offset,
        ) {
            Ok(id) => id,
            Err(e) => {
                proof {
                    lemma_append_failed(
                        old(ctx),
                        imm,
                        data,
                        endian,
                        (i + 1) as nat,
                        ctx.runtime_fields.vtables@.len(),
                    );
                }
                return Err(e);
            },
        };
        ctx.offset_object_list.insert(offset, id);
        proof {
            assert forall|j: int| 0 <= j < mgr_before.objects@.len() implies
                #[trigger] object_stream_manager.objects@[j] == mgr_before.objects@[j] by {
                assert(object_stream_manager.objects@.subrange(0, id as int)[j]
                    == object_stream_manager.objects@[j]);
            }
            assert forall|k: int| 0 <= k < i + 1 implies {
                &&& ctx.offset_object_list@.contains_key(#[trigger] ctx.runtime_fields.vtables@[k])
                &&& ctx.offset_object_list@[ctx.runtime_fields.vtables@[k]]
                    < object_stream_manager.objects@.len()
                &&& object_stream_manager.objects@[ctx.offset_object_list@[
                    ctx.runtime_fields.vtables@[k]
                ] as int].meta == ctx.vtbl_list@[spec_type_index(
                    ctx,
                    data,
                    endian,
                    ctx.runtime_fields.vtables@[k],
                ) as int]
                &&& object_stream_manager.objects@[ctx.offset_object_list@[
                    ctx.runtime_fields.vtables@[k]
                ] as int].owner == dir
                &&& Some(
                    object_stream_manager.objects@[ctx.offset_object_list@[
                        ctx.runtime_fields.vtables@[k]
                    ] as int].pool,
                ) == ctx.spec_pool_of(ctx.runtime_fields.vtables@[k])
            } by {
                let key = ctx.runtime_fields.vtables@[k];
                if key != offset {
                    assert(ctx.offset_object_list@[key] == map_before[key]);
                    assert(object_stream_manager.objects@[map_before[key] as int]
                        == mgr_before.objects@[map_before[key] as int]);
                }
            }
        }
        i = i + 1;
    }
    Ok(())
}

/// What the fixup of the objects' types does.
///
/// The serialized offsets of its payload are stored as they are, and the
/// object of each is created in the order of the payload. On success every
/// offset has its object, of the type that the file names at that offset
/// and owned by the directory. A payload that cannot be decoded fails the
/// fixup and changes nothing. No directory changes.
pub open spec fn spec_vtables_applied(
    imm: &igMetadataManager,
    decoded: Result<Seq<u64>, igLoadError>,
    data: Seq<u8>,
    endian: Endian,
    dir: igObjectDirectoryId,
    mgr_before: &igObjectStreamManager,
    mgr_after: &igObjectStreamManager,
    before: &IgzLoaderContext,
    after: &IgzLoaderContext,
    r: Result<(), igLoadError>,
) -> bool {
    &&& mgr_after.directories == mgr_before.directories
    &&& match decoded {
        Ok(list) => {
            &&& after.runtime_fields.vtables@ == list
            &&& r.is_ok() ==> spec_objects_placed(
                after,
                mgr_after,
                data,
                endian,
                dir,
                list.len() as int,
            )
            &&& match spec_append_error(after, imm, data, endian, list.len()) {
                Some(e) => r == Err::<(), igLoadError>(e),
                None => r.is_ok(),
            }
            &&& forall|key: u64|
                !list.contains(key) ==> (#[trigger] after.offset_object_list@.contains_key(key))
                    == before.offset_object_list@.contains_key(key) && (
                before.offset_object_list@.contains_key(key) ==> after.offset_object_list@[key]
                    == before.offset_object_list@[key])
        },
        Err(e) => r == Err::<(), igLoadError>(e) && after.runtime_fields.vtables
            == before.runtime_fields.vtables && after.offset_object_list
            == before.offset_object_list && mgr_after.objects == mgr_before.objects,
    }
}

/// Applies the type-table fixup of the objects: stores the serialized
/// offsets of its payload as they are and creates the object of each.
///
/// On success every offset has its object, of the type that the file names
/// at that offset and owned by the directory.
pub fn fix_runtime_vtables(
    handle: &mut ByteCursor,
    endian: Endian,
    imm: &igMetadataManager,
    length: u32,
    start: u32,
    count: u32,
    dir: igObjectDirectoryId,
    object_stream_manager: &mut igObjectStreamManager,
    ctx: &mut IgzLoaderContext,
) -> (r: Result<(), igLoadError>)
    requires
        spec_objects_recorded(old(ctx), old(object_stream_manager), dir),
        old(object_stream_manager).wf(),
        old(ctx).runtime_fields.wf(),
        dir < old(object_stream_manager).directories@.len(),
        !old(object_stream_manager).directories@[dir as int].use_name_list,
    ensures
        spec_objects_recorded(final(ctx), final(object_stream_manager), dir),
        final(handle).data == old(handle).data,
        spec_store_kept(old(object_stream_manager), final(object_stream_manager), dir),
        final(object_stream_manager).name_to_directory_lookup
            == old(object_stream_manager).name_to_directory_lookup,
        final(object_stream_manager).path_to_directory_lookup
            == old(object_stream_manager).path_to_directory_lookup,
        spec_lists_kept(old(ctx), final(ctx), Fixup::RUNTIME_V_TABLES),
        spec_vtables_applied(
            imm,
            spec_runtime_list(
                *old(ctx),
                old(handle).data@,
                old(handle).position as int,
                length,
                start,
                count,
                false,
            ),
            old(handle).data@,
            endian,
            dir,
            old(object_stream_manager),
            final(object_stream_manager),
            old(ctx),
            final(ctx),
            r,
        ),
{
    let decoded = match read_runtime_list(handle, endian, length, start, count, ctx, false) {
        Ok(decoded) => decoded,
        Err(e) => {
            proof {
                lemma_progress_reflexive(
                    object_stream_manager,
                    dir as int,
                    object_stream_manager.objects@.len() as int,
                );
            }
            return Err(e);
        },
    };
    ctx.runtime_fields.vtables = decoded;
    let ghost listed = *ctx;
    let r = instantiate_and_append_objects(ctx, handle, endian, imm, object_stream_manager, dir);
    proof {
        lemma_append_error_kept(
            &listed,
            ctx,
            imm,
            handle.data@,
            endian,
            ctx.runtime_fields.vtables@.len(),
        );
    }
    r
}

/// The object recorded for the serialized offset `offset`, if it exists,
/// belongs to `dir` and holds a list of objects (`names` unset) or of names
/// (`names` set).
pub open spec fn spec_list_object(
    ctx: &IgzLoaderContext,
    mgr: &igObjectStreamManager,
    dir: igObjectDirectoryId,
    offset: u64,
    names: bool,
) -> Result<igObject, igLoadError> {
    if !ctx.offset_object_list@.contains_key(offset) || ctx.offset_object_list@[offset]
        >= mgr.objects@.len() || mgr.objects@[ctx.offset_object_list@[offset] as int].owner
        != dir {
        Err(igLoadError::BadIndex)
    } else if names {
        if mgr.objects@[ctx.offset_object_list@[offset] as int].content is NameList {
            Ok(ctx.offset_object_list@[offset])
        } else {
            Err(igLoadError::TypeMismatch)
        }
    } else {
        if mgr.objects@[ctx.offset_object_list@[offset] as int].content is ObjectList {
            Ok(ctx.offset_object_list@[offset])
        } else {
            Err(igLoadError::TypeMismatch)
        }
    }
}

/// Finds the list object recorded for a serialized offset.
pub fn list_object(
    ctx: &IgzLoaderContext,
    mgr: &igObjectStreamManager,
    dir: igObjectDirectoryId,
    offset: u64,
    names: bool,
) -> (r: Result<igObject, igLoadError>)
    ensures
        r == spec_list_object(ctx, mgr, dir, offset, names),
{
    let id: usize = match ctx.offset_object_list.get(&offset) {
        Some(id) => *id,
        None => {
            return Err(igLoadError::BadIndex);
        },
    };
    if id >= mgr.objects.len() || mgr.objects[id].owner != dir {
        return Err(igLoadError::BadIndex);
    }
    match &mgr.objects[id].content {
        igObjectContent::NameList(_) => if names {
            Ok(id)
        } else {
            Err(igLoadError::TypeMismatch)
        },
        igObjectContent::ObjectList(_) => if names {
            Err(igLoadError::TypeMismatch)
        } else {
            Ok(id)
        },
        _ => Err(igLoadError::TypeMismatch),
    }
}

/// What the root fixup does.
///
/// The serialized offsets of its payload are stored as they are, and the
/// object of the first becomes the directory's list of root objects. The
/// fixup fails with `BadIndex` where the payload is empty or the first
/// offset has no object of this load, and with `TypeMismatch` where that
/// object is no list of objects. Nothing else changes, and a failure leaves
/// the directory as it was.
pub open spec fn spec_root_applied(
    decoded: Result<Seq<u64>, igLoadError>,
    dir: igObjectDirectoryId,
    mgr_before: &igObjectStreamManager,
    mgr_after: &igObjectStreamManager,
    before: &IgzLoaderContext,
    after: &IgzLoaderContext,
    r: Result<(), igLoadError>,
) -> bool {
    &&& mgr_after.objects == mgr_before.objects
    &&& r.is_err() ==> mgr_after.directories == mgr_before.directories
    &&& mgr_after.directories@[dir as int].name_list
        == mgr_before.directories@[dir as int].name_list
    &&& mgr_after.directories@[dir as int].dependencies
        == mgr_before.directories@[dir as int].dependencies
    &&& match decoded {
        Ok(list) => {
            &&& after.runtime_fields.object_lists@ == list
            &&& if list.len() == 0 {
                r == Err::<(), igLoadError>(igLoadError::BadIndex)
            } else {
                match spec_list_object(before, mgr_before, dir, list[0], false) {
                    Ok(object) => r.is_ok() && mgr_after.directories@[dir as int].object_list
                        == Some(object),
                    Err(e) => r == Err::<(), igLoadError>(e),
                }
            }
        },
        Err(e) => r == Err::<(), igLoadError>(e) && after.runtime_fields.object_lists
            == before.runtime_fields.object_lists,
    }
}

/// Applies the root fixup: stores the serialized offsets of its payload as
/// they are and installs the object of the first as the directory's list of
/// root objects.
///
/// It fails with `BadIndex` where the payload is empty or the first offset
/// has no object of this load, and with `TypeMismatch` where that object is
/// no list of objects.
pub fn fix_runtime_object_lists(
    handle: &mut ByteCursor,
    endian: Endian,
    length: u32,
    start: u32,
    count: u32,
    dir: igObjectDirectoryId,
    object_stream_manager: &mut igObjectStreamManager,
    ctx: &mut IgzLoaderContext,
) -> (r: Result<(), igLoadError>)
    requires
        old(object_stream_manager).wf(),
        old(ctx).runtime_fields.wf(),
        dir < old(object_stream_manager).directories@.len(),
        !old(object_stream_manager).directories@[dir as int].use_name_list,
    ensures
        final(handle).data == old(handle).data,
        spec_store_kept(old(object_stream_manager), final(object_stream_manager), dir),
        final(object_stream_manager).name_to_directory_lookup
            == old(object_stream_manager).name_to_directory_lookup,
        final(object_stream_manager).path_to_directory_lookup
            == old(object_stream_manager).path_to_directory_lookup,
        spec_lists_kept(old(ctx), final(ctx), Fixup::RUNTIME_OBJECT_LISTS),
        spec_root_applied(
            spec_runtime_list(
                *old(ctx),
                old(handle).data@,
                old(handle).position as int,
                length,
                start,
                count,
                false,
            ),
            dir,
            old(object_stream_manager),
            final(object_stream_manager),
            old(ctx),
            final(ctx),
            r,
        ),
{
    proof {
        lemma_progress_reflexive(
            object_stream_manager,
            dir as int,
            object_stream_manager.objects@.len() as int,
        );
    }
    let decoded = match read_runtime_list(handle, endian, length, start, count, ctx, false) {
        Ok(decoded) => decoded,
        Err(e) => {
            return Err(e);
        },
    };
    ctx.runtime_fields.object_lists = decoded;
    if ctx.runtime_fields.object_lists.len() == 0 {
        return Err(igLoadError::BadIndex);
    }
    let first: u64 = ctx.runtime_fields.object_lists[0];
    let object = match list_object(ctx, object_stream_manager, dir, first, false) {
        Ok(object) => object,
        Err(e) => {
            return Err(e);
        },
    };
    let names = object_stream_manager.directories[dir].name_list;
    object_stream_manager.set_lists(dir, Some(object), names);
    Ok(())
}

/// What the name-list fixup does.
///
/// It reads the serialized offset of the list of names, makes its object
/// the directory's list of names and notes that the container names its
/// root objects. It fails with `UnexpectedEof` where the file ends before
/// the offset, with `BadIndex` where the offset has no object of this load,
/// and with `TypeMismatch` where that object is no list of names. Nothing
/// else changes, and a failure leaves everything as it was.
pub open spec fn spec_name_list_applied(
    data: Seq<u8>,
    start: int,
    endian: Endian,
    dir: igObjectDirectoryId,
    mgr_before: &igObjectStreamManager,
    mgr_after: &igObjectStreamManager,
    before: &IgzLoaderContext,
    after: &IgzLoaderContext,
    r: Result<(), igLoadError>,
) -> bool {
    &&& mgr_after.objects == mgr_before.objects
    &&& r.is_err() ==> mgr_after.directories == mgr_before.directories && after.use_name_list
        == before.use_name_list
    &&& mgr_after.directories@[dir as int].object_list
        == mgr_before.directories@[dir as int].object_list
    &&& mgr_after.directories@[dir as int].dependencies
        == mgr_before.directories@[dir as int].dependencies
    &&& if start < 0 || start + 4 > data.len() {
        r == Err::<(), igLoadError>(igLoadError::UnexpectedEof)
    } else {
        match spec_list_object(
            before,
            mgr_before,
            dir,
            spec_uint(data, start, 4, endian) as u64,
            true,
        ) {
            Ok(object) => r.is_ok() && after.use_name_list
                && mgr_after.directories@[dir as int].name_list == Some(object),
            Err(e) => r == Err::<(), igLoadError>(e),
        }
    }
}

/// Applies the name-list fixup: reads the serialized offset of the list of
/// names, installs its object as the directory's list of names and notes
/// that the container names its root objects.
///
/// It fails with `UnexpectedEof` where the file ends before the offset, with
/// `BadIndex` where the offset has no object of this load, and with
/// `TypeMismatch` where that object is no list of names.
pub fn fix_option_named_list(
    handle: &mut ByteCursor,
    endian: Endian,
    dir: igObjectDirectoryId,
    object_stream_manager: &mut igObjectStreamManager,
    ctx: &mut IgzLoaderContext,
) -> (r: Result<(), igLoadError>)
    requires
        old(object_stream_manager).wf(),
        old(ctx).runtime_fields.wf(),
        dir < old(object_stream_manager).directories@.len(),
        !old(object_stream_manager).directories@[dir as int].use_name_list,
    ensures
        final(handle).data == old(handle).data,
        spec_store_kept(old(object_stream_manager), final(object_stream_manager), dir),
        final(object_stream_manager).name_to_directory_lookup
            == old(object_stream_manager).name_to_directory_lookup,
        final(object_stream_manager).path_to_directory_lookup
            == old(object_stream_manager).path_to_directory_lookup,
        spec_lists_kept(old(ctx), final(ctx), Fixup::OPTION_NAMED_LIST),
        spec_name_list_applied(
            old(handle).data@,
            old(handle).position as int,
            endian,
            dir,
            old(object_stream_manager),
            final(object_stream_manager),
            old(ctx),
            final(ctx),
            r,
        ),
{
    proof {
        lemma_progress_reflexive(
            object_stream_manager,
            dir as int,
            object_stream_manager.objects@.len() as int,
        );
        lemma_uint_bound(handle.data@, handle.position as int, 4, endian);
    }
    let name_list_idx: u64 = match read_u32(handle, endian) {
        Ok(v) => v as u64,
        Err(_) => {
            return Err(igLoadError::UnexpectedEof);
        },
    };
    let object = match list_object(ctx, object_stream_manager, dir, name_list_idx, true) {
        Ok(object) => object,
        Err(e) => {
            return Err(e);
        },
    };
    let objects = object_stream_manager.directories[dir].object_list;
    object_stream_manager.set_lists(dir, objects, Some(object));
    ctx.use_name_list = true;
    Ok(())
}

/// Takes in one reference by hash.
///
/// Where the loaded directories offer an object for the namespace and the
/// alias, the reference is resolved and nothing is kept. Otherwise its
/// handle is interned and appended to the list of externals.
pub fn fix_external_by_id(
    object_stream_manager: &igObjectStreamManager,
    ig_handle_manager: &mut igObjectHandleManager,
    ctx: &mut IgzLoaderContext,
    name_hash: u32,
    namespace_hash: u32,
)
    requires
        object_stream_manager.wf(),
        old(ctx).runtime_fields.wf(),
    ensures
        spec_lists_kept(old(ctx), final(ctx), Fixup::EXTERNAL_DEPENDENCIES_BY_ID),
        match spec_find_named(*object_stream_manager, namespace_hash, name_hash) {
            Some(_) => final(ctx).external_list == old(ctx).external_list
                && final(ig_handle_manager).spec_handles() == old(ig_handle_manager).spec_handles(),
            None => {
                let interned = spec_interned(
                    old(ig_handle_manager).spec_handles(),
                    igName { string: None, hash: namespace_hash },
                    igName { string: None, hash: name_hash },
                );
                &&& final(ctx).external_list@ == old(ctx).external_list@.push(interned)
                &&& final(ig_handle_manager).spec_handles()
                    == old(ig_handle_manager).spec_handles().insert(
                    spec_handle_key(namespace_hash, name_hash),
                    interned,
                )
            },
        },
{
    match find_named(object_stream_manager, namespace_hash, name_hash) {
        Some(_) => {},
        None => {
            let dependency_name = igHandleName::new(
                igName::from_hash(name_hash),
                igName::from_hash(namespace_hash),
            );
            let interned = ig_handle_manager.lookup_handle_name(&dependency_name);
            ctx.external_list.push(interned);
        },
    }
}

/// Entry `i` of a fixup of references by hash: the alias hash and the
/// namespace hash.
pub open spec fn spec_id_entry(data: Seq<u8>, start: int, endian: Endian, i: int) -> (u32, u32) {
    (
        spec_uint(data, start + 8 * i, 4, endian) as u32,
        spec_uint(data, start + 8 * i + 4, 4, endian) as u32,
    )
}

/// How many entries of eight bytes, of `count`, the file holds from `start`
/// on.
pub open spec fn spec_entries_held(data: Seq<u8>, start: int, count: u32) -> nat {
    if start > data.len() {
        0
    } else if (data.len() - start) / 8 >= count {
        count as nat
    } else {
        ((data.len() - start) / 8) as nat
    }
}

/// The handles that the first `n` references by hash leave in the list of
/// externals, and the handle table behind them: a reference that the loaded
/// directories resolve leaves nothing; every other one interns its handle
/// and leaves it in the list.
pub open spec fn spec_ids_taken(
    mgr: igObjectStreamManager,
    handles: Map<u64, igHandle>,
    data: Seq<u8>,
    start: int,
    endian: Endian,
    n: nat,
) -> (Seq<igHandle>, Map<u64, igHandle>)
    decreases n,
{
    if n == 0 {
        (Seq::empty(), handles)
    } else {
        let before = spec_ids_taken(mgr, handles, data, start, endian, (n - 1) as nat);
        let entry = spec_id_entry(data, start, endian, n - 1);
        if spec_find_named(mgr, entry.1, entry.0).is_some() {
            before
        } else {
            let interned = spec_interned(
                before.1,
                igName { string: None, hash: entry.1 },
                igName { string: None, hash: entry.0 },
            );
            (before.0.push(interned), before.1.insert(spec_handle_key(entry.1, entry.0), interned))
        }
    }
}

/// What the fixup of references by hash does.
///
/// It takes in the entries that the file holds, in order, as
/// `spec_ids_taken` says, and succeeds exactly when the file holds all
/// `count` of them; a failure is `UnexpectedEof`.
pub open spec fn spec_externals_by_id_applied(
    mgr: &igObjectStreamManager,
    handles_before: Map<u64, igHandle>,
    handles_after: Map<u64, igHandle>,
    data: Seq<u8>,
    start: int,
    endian: Endian,
    count: u32,
    before: &IgzLoaderContext,
    after: &IgzLoaderContext,
    end: int,
    r: Result<(), igLoadError>,
) -> bool {
    let held = spec_entries_held(data, start, count);
    let taken = spec_ids_taken(*mgr, handles_before, data, start, endian, held);
    &&& r.is_ok() <==> held == count
    &&& r.is_err() ==> r == Err::<(), igLoadError>(igLoadError::UnexpectedEof)
    &&& after.external_list@ == before.external_list@ + taken.0
    &&& handles_after == taken.1
    &&& r.is_ok() ==> end == start + 8 * count
    &&& spec_keyed(handles_before)
    &&& spec_keyed(handles_after)
}

/// Whether no handle of a table holds an object.
pub open spec fn spec_unresolved(handles: Map<u64, igHandle>) -> bool {
    forall|k: u64| #[trigger] handles.contains_key(k) ==> handles[k].object.is_none()
}

/// Where the loaded directories resolve none of the first `n` references by
/// hash, every one of them leaves its handle in the list: handle `i` carries
/// the hashes of entry `i` and is the handle that the table holds under the
/// key of those hashes. Where no handle of the table held an object, none of
/// the handles left does.
pub proof fn lemma_ids_taken_unresolved(
    mgr: igObjectStreamManager,
    handles: Map<u64, igHandle>,
    data: Seq<u8>,
    start: int,
    endian: Endian,
    n: nat,
)
    requires
        spec_keyed(handles),
        forall|i: int|
            0 <= i < n ==> spec_find_named(
                mgr,
                (#[trigger] spec_id_entry(data, start, endian, i)).1,
                spec_id_entry(data, start, endian, i).0,
            ).is_none(),
    ensures
        spec_ids_taken(mgr, handles, data, start, endian, n).0.len() == n,
        spec_keyed(spec_ids_taken(mgr, handles, data, start, endian, n).1),
        spec_unresolved(handles) ==> spec_unresolved(
            spec_ids_taken(mgr, handles, data, start, endian, n).1,
        ),
        forall|i: int|
            0 <= i < n ==> {
                let entry = #[trigger] spec_id_entry(data, start, endian, i);
                let left = spec_ids_taken(mgr, handles, data, start, endian, n).0[i];
                let table = spec_ids_taken(mgr, handles, data, start, endian, n).1;
                &&& left.namespace.hash == entry.1
                &&& left.alias.hash == entry.0
                &&& table.contains_key(spec_handle_key(entry.1, entry.0))
                &&& table[spec_handle_key(entry.1, entry.0)] == left
                &&& spec_unresolved(handles) ==> left.object.is_none()
            },
    decreases n,
{
    if n > 0 {
        lemma_ids_taken_unresolved(mgr, handles, data, start, endian, (n - 1) as nat);
        let before = spec_ids_taken(mgr, handles, data, start, endian, (n - 1) as nat);
        let after = spec_ids_taken(mgr, handles, data, start, endian, n);
        let last = spec_id_entry(data, start, endian, n - 1);
        let key = spec_handle_key(last.1, last.0);
        if before.1.contains_key(key) {
            lemma_handle_key_injective(
                before.1[key].namespace.hash,
                before.1[key].alias.hash,
                last.1,
                last.0,
            );
        }
        assert forall|i: int| 0 <= i < n implies {
            let entry = #[trigger] spec_id_entry(data, start, endian, i);
            let left = after.0[i];
            &&& left.namespace.hash == entry.1
            &&& left.alias.hash == entry.0
            &&& after.1.contains_key(spec_handle_key(entry.1, entry.0))
            &&& after.1[spec_handle_key(entry.1, entry.0)] == left
            &&& spec_unresolved(handles) ==> left.object.is_none()
        } by {
            let entry = spec_id_entry(data, start, endian, i);
            if i < n - 1 {
                assert(after.0[i] == before.0[i]);
                if spec_handle_key(entry.1, entry.0) == key {
                    lemma_handle_key_injective(entry.1, entry.0, last.1, last.0);
                }
            }
        }
    }
}

/// Applies the fixup of references by hash: `count` pairs of an alias hash
/// and a namespace hash, each taken in as `fix_external_by_id` says.
pub fn fix_external_dependencies_by_id(
    handle: &mut ByteCursor,
    endian: Endian,
    count: u32,
    object_stream_manager: &igObjectStreamManager,
    ig_handle_manager: &mut igObjectHandleManager,
    ctx: &mut IgzLoaderContext,
) -> (r: Result<(), igLoadError>)
    requires
        object_stream_manager.wf(),
        old(ctx).runtime_fields.wf(),
    ensures
        final(handle).data == old(handle).data,
        spec_lists_kept(old(ctx), final(ctx), Fixup::EXTERNAL_DEPENDENCIES_BY_ID),
        spec_externals_by_id_applied(
            object_stream_manager,
            old(ig_handle_manager).spec_handles(),
            final(ig_handle_manager).spec_handles(),
            old(handle).data@,
            old(handle).position as int,
            endian,
            count,
            old(ctx),
            final(ctx),
            final(handle).position as int,
            r,
        ),
{
    proof {
        use_type_invariant(&*ig_handle_manager);
    }
    let ghost before = ctx.external_list@;
    let ghost handles = ig_handle_manager.spec_handles();
    let ghost data = handle.data@;
    let ghost start = handle.position as int;
    assert(ctx.external_list@ =~= before + Seq::<igHandle>::empty());
    let mut i: u32 = 0;
    while i < count
        invariant
            i <= count,
            handle.data == old(handle).data,
            data == handle.data@,
            start == old(handle).position,
            before == old(ctx).external_list@,
            handles == old(ig_handle_manager).spec_handles(),
            spec_keyed(handles),
            spec_keyed(ig_handle_manager.spec_handles()),
            object_stream_manager.wf(),
            spec_lists_kept(old(ctx), ctx, Fixup::EXTERNAL_DEPENDENCIES_BY_ID),
            handle.position == start + 8 * i,
            i > 0 ==> start + 8 * i <= data.len(),
            ctx.external_list@ == before + spec_ids_taken(
                *object_stream_manager,
                handles,
                data,
                start,
                endian,
                i as nat,
            ).0,
            ig_handle_manager.spec_handles() == spec_ids_taken(
                *object_stream_manager,
                handles,
                data,
                start,
                endian,
                i as nat,
            ).1,
        decreases count - i,
    {
        proof {
            lemma_uint_bound(data, handle.position as int, 4, endian);
            lemma_uint_bound(data, handle.position + 4, 4, endian);
        }
        if handle.remaining() < 8 {
            return Err(igLoadError::UnexpectedEof);
        }
        let name_hash = match read_u32(handle, endian) {
            Ok(v) => v,
            Err(_) => {
                return Err(igLoadError::UnexpectedEof);
            },
        };
        let namespace_hash = match read_u32(handle, endian) {
            Ok(v) => v,
            Err(_) => {
                return Err(igLoadError::UnexpectedEof);
            },
        };
        let ghost list = ctx.external_list@;
        let ghost taken = spec_ids_taken(
            *object_stream_manager,
            handles,
            data,
            start,
            endian,
            i as nat,
        );
        fix_external_by_id(
            object_stream_manager,
            ig_handle_manager,
            ctx,
            name_hash,
            namespace_hash,
        );
        proof {
            use_type_invariant(&*ig_handle_manager);
            let next = spec_ids_taken(
                *object_stream_manager,
                handles,
                data,
                start,
                endian,
                (i + 1) as nat,
            );
            assert(spec_id_entry(data, start, endian, i as int) == (name_hash, namespace_hash));
            if spec_find_named(*object_stream_manager, namespace_hash, name_hash).is_none() {
                assert(before + next.0 =~= (before + taken.0).push(next.0.last()));
            }
        }
        i = i + 1;
    }
    Ok(())
}

/// The index that the upper half of a reference by name carries: the string
/// of the namespace.
pub open spec fn spec_namespace_index(raw: u64) -> u64 {
    (raw >> 32) & 0x7FFF_FFFF
}

/// The index that the lower half of a reference by name carries: the string
/// of the alias.
pub open spec fn spec_alias_index(raw: u64) -> u64 {
    raw & 0x7FFF_FFFF
}

/// Whether a reference by name is to be kept as a handle: the top bit of
/// its upper half is set.
pub open spec fn spec_keeps_handle(raw: u64) -> bool {
    (raw >> 63) & 1 == 1
}

/// The object that a reference by name resolves to: what the reference
/// system finds for the two names, or else what a fresh handle of the two
/// names finds for itself.
pub open spec fn spec_named_reference(
    mgr: igObjectStreamManager,
    namespace: Seq<char>,
    alias: Seq<char>,
) -> Option<igObject> {
    let ns_hash = crate::util::ig_hash::spec_hash(namespace);
    let alias_hash = crate::util::ig_hash::spec_hash(alias);
    if spec_find_named(mgr, ns_hash, alias_hash).is_some() {
        spec_find_named(mgr, ns_hash, alias_hash)
    } else if mgr.name_to_directory_lookup@.contains_key(ns_hash) {
        crate::object::ig_handle::spec_alias_scan(
            mgr,
            mgr.name_to_directory_lookup@[ns_hash]@,
            alias_hash,
            0,
            None,
        )
    } else {
        None
    }
}

/// Takes in one reference by name.
///
/// The two halves of `raw` index the string table: the upper the namespace,
/// the lower the alias, each in its low 31 bits. A reference whose top bit
/// is set is kept as an unresolved handle in the list of named handles.
/// Every other reference is resolved at once, and what it resolves to, an
/// object or nothing, is appended to the list of named externals. An index
/// beyond the string table fails with `BadIndex` and changes nothing.
pub fn fix_external_by_name(
    object_stream_manager: &igObjectStreamManager,
    ig_ext_ref_system: &igExternalReferenceSystem,
    ctx: &mut IgzLoaderContext,
    raw: u64,
) -> (r: Result<(), igLoadError>)
    requires
        object_stream_manager.wf(),
        old(ctx).runtime_fields.wf(),
    ensures
        spec_lists_kept(old(ctx), final(ctx), Fixup::EXTERNAL_DEPENDENCIES_BY_NAME),
        match (
            spec_string_at(*old(ctx), spec_namespace_index(raw)),
            spec_string_at(*old(ctx), spec_alias_index(raw)),
        ) {
            (Some(namespace), Some(alias)) => {
                &&& r.is_ok()
                &&& if spec_keeps_handle(raw) {
                    &&& final(ctx).named_external_list == old(ctx).named_external_list
                    &&& final(ctx).named_handle_list@.len() == old(ctx).named_handle_list@.len()
                        + 1
                    &&& final(ctx).named_handle_list@.drop_last() == old(ctx).named_handle_list@
                    &&& final(ctx).named_handle_list@.last().namespace.string matches Some(s)
                        && s@ == namespace
                    &&& final(ctx).named_handle_list@.last().alias.string matches Some(s) && s@
                        == alias
                    &&& final(ctx).named_handle_list@.last().namespace.hash
                        == crate::util::ig_hash::spec_hash(namespace)
                    &&& final(ctx).named_handle_list@.last().alias.hash
                        == crate::util::ig_hash::spec_hash(alias)
                    &&& final(ctx).named_handle_list@.last().object.is_none()
                } else {
                    &&& final(ctx).named_handle_list == old(ctx).named_handle_list
                    &&& final(ctx).named_external_list@ == old(ctx).named_external_list@.push(
                        spec_named_reference(*object_stream_manager, namespace, alias),
                    )
                }
            },
            _ => r == Err::<(), igLoadError>(igLoadError::BadIndex)
                && final(ctx).named_external_list == old(ctx).named_external_list
                && final(ctx).named_handle_list == old(ctx).named_handle_list,
        },
{
    let upper: u64 = raw >> 32;
    let ns_str_index: u64 = upper & 0x7FFF_FFFF;
    let name_str_index: u64 = raw & 0x7FFF_FFFF;
    let keep: bool = (raw >> 63) & 1 == 1;
    let namespace = match string_at(ctx, ns_str_index) {
        Some(text) => text,
        None => {
            return Err(igLoadError::BadIndex);
        },
    };
    let alias = match string_at(ctx, name_str_index) {
        Some(text) => text,
        None => {
            return Err(igLoadError::BadIndex);
        },
    };
    let dependency_handle_name = igHandleName::new(igName::new(alias), igName::new(namespace));
    let mut dependency_handle = igHandle::from_handle_name(&dependency_handle_name);
    if keep {
        ctx.named_handle_list.push(dependency_handle);
        assert(ctx.named_handle_list@.drop_last() =~= old(ctx).named_handle_list@);
    } else {
        let ref_ctx = igReferenceResolverContext {
            root_objects: None,
            base_path: None,
            data: None,
        };
        let mut reference = ig_ext_ref_system.global_set.resolve_reference(
            &dependency_handle_name,
            &ref_ctx,
            object_stream_manager,
        );
        if reference.is_none() {
            reference = dependency_handle.get_object_alias(object_stream_manager);
        }
        ctx.named_external_list.push(reference);
    }
    Ok(())
}

/// Entry `i` of a fixup of references by name.
pub open spec fn spec_name_entry(data: Seq<u8>, start: int, endian: Endian, i: int) -> u64 {
    spec_uint(data, start + 8 * i, 8, endian) as u64
}

/// Whether both halves of a reference by name index the string table.
pub open spec fn spec_name_entry_ok(ctx: IgzLoaderContext, raw: u64) -> bool {
    spec_string_at(ctx, spec_namespace_index(raw)).is_some() && spec_string_at(
        ctx,
        spec_alias_index(raw),
    ).is_some()
}

/// How many of the first `n` references by name are taken in: all up to the
/// first whose halves do not both index the string table.
pub open spec fn spec_names_taken(
    ctx: IgzLoaderContext,
    data: Seq<u8>,
    start: int,
    endian: Endian,
    n: nat,
) -> nat
    decreases n,
{
    if n == 0 {
        0
    } else if spec_names_taken(ctx, data, start, endian, (n - 1) as nat) == n - 1
        && spec_name_entry_ok(ctx, spec_name_entry(data, start, endian, n - 1)) {
        n
    } else {
        spec_names_taken(ctx, data, start, endian, (n - 1) as nat)
    }
}

/// What the first `n` references by name append to the list of named
/// externals: what each reference that is not kept as a handle resolves to.
pub open spec fn spec_named_externals(
    ctx: IgzLoaderContext,
    mgr: igObjectStreamManager,
    data: Seq<u8>,
    start: int,
    endian: Endian,
    n: nat,
) -> Seq<Option<igObject>>
    decreases n,
{
    if n == 0 {
        Seq::empty()
    } else if spec_keeps_handle(spec_name_entry(data, start, endian, n - 1)) {
        spec_named_externals(ctx, mgr, data, start, endian, (n - 1) as nat)
    } else {
        spec_named_externals(ctx, mgr, data, start, endian, (n - 1) as nat).push(
            spec_named_reference(
                mgr,
                spec_string_at(
                    ctx,
                    spec_namespace_index(spec_name_entry(data, start, endian, n - 1)),
                )->0,
                spec_string_at(
                    ctx,
                    spec_alias_index(spec_name_entry(data, start, endian, n - 1)),
                )->0,
            ),
        )
    }
}

/// The namespaces and aliases of the handles that the first `n` references
/// by name append to the list of named handles.
pub open spec fn spec_named_handles(
    ctx: IgzLoaderContext,
    data: Seq<u8>,
    start: int,
    endian: Endian,
    n: nat,
) -> Seq<(Seq<char>, Seq<char>)>
    decreases n,
{
    if n == 0 {
        Seq::empty()
    } else if spec_keeps_handle(spec_name_entry(data, start, endian, n - 1)) {
        spec_named_handles(ctx, data, start, endian, (n - 1) as nat).push(
            (
                spec_string_at(
                    ctx,
                    spec_namespace_index(spec_name_entry(data, start, endian, n - 1)),
                )->0,
                spec_string_at(
                    ctx,
                    spec_alias_index(spec_name_entry(data, start, endian, n - 1)),
                )->0,
            ),
        )
    } else {
        spec_named_handles(ctx, data, start, endian, (n - 1) as nat)
    }
}

/// Whether a handle is the fresh, unresolved handle of a namespace and an
/// alias: it carries both texts and their hashes, and no object.
pub open spec fn spec_fresh_handle(handle: igHandle, names: (Seq<char>, Seq<char>)) -> bool {
    &&& handle.namespace.string.is_some()
    &&& handle.namespace.string->0@ == names.0
    &&& handle.namespace.hash == crate::util::ig_hash::spec_hash(names.0)
    &&& handle.alias.string.is_some()
    &&& handle.alias.string->0@ == names.1
    &&& handle.alias.hash == crate::util::ig_hash::spec_hash(names.1)
    &&& handle.object.is_none()
}

/// What the fixup of references by name does.
///
/// It takes in the entries in order, up to the first that the file does not
/// hold or whose halves do not both index the string table. It succeeds
/// exactly when it takes in all `count`; otherwise it fails with `BadIndex`
/// at an entry that the file holds, and with `UnexpectedEof` at one that it
/// does not. The lists grow by what the entries taken in append.
pub open spec fn spec_externals_by_name_applied(
    mgr: &igObjectStreamManager,
    data: Seq<u8>,
    start: int,
    endian: Endian,
    count: u32,
    before: &IgzLoaderContext,
    after: &IgzLoaderContext,
    end: int,
    r: Result<(), igLoadError>,
) -> bool {
    let held = spec_entries_held(data, start, count);
    let taken = spec_names_taken(*before, data, start, endian, held);
    let handles = spec_named_handles(*before, data, start, endian, taken);
    &&& r.is_ok() <==> taken == count
    &&& r.is_err() ==> (if taken < held {
        r == Err::<(), igLoadError>(igLoadError::BadIndex)
    } else {
        r == Err::<(), igLoadError>(igLoadError::UnexpectedEof)
    })
    &&& after.named_external_list@ == before.named_external_list@ + spec_named_externals(
        *before,
        *mgr,
        data,
        start,
        endian,
        taken,
    )
    &&& after.named_handle_list@.len() == before.named_handle_list@.len() + handles.len()
    &&& after.named_handle_list@.subrange(0, before.named_handle_list@.len() as int)
        == before.named_handle_list@
    &&& forall|j: int|
        0 <= j < handles.len() ==> spec_fresh_handle(
            #[trigger] after.named_handle_list@[before.named_handle_list@.len() + j],
            handles[j],
        )
    &&& r.is_ok() ==> end == start + 8 * count
}

/// Entries that are not all taken in are not all taken in when more are
/// asked for: the count stays where it stopped.
pub proof fn lemma_names_taken_stops(
    ctx: IgzLoaderContext,
    data: Seq<u8>,
    start: int,
    endian: Endian,
    n: nat,
    m: nat,
)
    requires
        n < m,
        spec_names_taken(ctx, data, start, endian, n) == n,
        !spec_name_entry_ok(ctx, spec_name_entry(data, start, endian, n as int)),
    ensures
        spec_names_taken(ctx, data, start, endian, m) == n,
    decreases m,
{
    if n + 1 < m {
        lemma_names_taken_stops(ctx, data, start, endian, n, (m - 1) as nat);
    }
}

/// Applies the fixup of references by name: `count` 64-bit numbers, each
/// taken in as `fix_external_by_name` says.
pub fn fix_external_dependencies_by_name(
    handle: &mut ByteCursor,
    endian: Endian,
    count: u32,
    object_stream_manager: &igObjectStreamManager,
    ig_ext_ref_system: &igExternalReferenceSystem,
    ctx: &mut IgzLoaderContext,
) -> (r: Result<(), igLoadError>)
    requires
        object_stream_manager.wf(),
        old(ctx).runtime_fields.wf(),
    ensures
        final(handle).data == old(handle).data,
        spec_lists_kept(old(ctx), final(ctx), Fixup::EXTERNAL_DEPENDENCIES_BY_NAME),
        spec_externals_by_name_applied(
            object_stream_manager,
            old(handle).data@,
            old(handle).position as int,
            endian,
            count,
            old(ctx),
            final(ctx),
            final(handle).position as int,
            r,
        ),
{
    let ghost externals = ctx.named_external_list@;
    let ghost handles = ctx.named_handle_list@;
    let ghost data = handle.data@;
    let ghost start = handle.position as int;
    let ghost ctx0 = *ctx;
    assert(ctx.named_external_list@ =~= externals + Seq::<Option<igObject>>::empty());
    assert(ctx.named_handle_list@.subrange(0, handles.len() as int) =~= handles);
    let mut i: u32 = 0;
    while i < count
        invariant
            i <= count,
            handle.data == old(handle).data,
            data == handle.data@,
            start == old(handle).position,
            ctx0 == *old(ctx),
            externals == ctx0.named_external_list@,
            handles == ctx0.named_handle_list@,
            ctx.string_list == ctx0.string_list,
            object_stream_manager.wf(),
            spec_lists_kept(old(ctx), ctx, Fixup::EXTERNAL_DEPENDENCIES_BY_NAME),
            handle.position == start + 8 * i,
            i > 0 ==> start + 8 * i <= data.len(),
            spec_names_taken(ctx0, data, start, endian, i as nat) == i,
            ctx.named_external_list@ == externals + spec_named_externals(
                ctx0,
                *object_stream_manager,
                data,
                start,
                endian,
                i as nat,
            ),
            ctx.named_handle_list@.len() == handles.len() + spec_named_handles(
                ctx0,
                data,
                start,
                endian,
                i as nat,
            ).len(),
            ctx.named_handle_list@.subrange(0, handles.len() as int) == handles,
            forall|j: int|
                0 <= j < spec_named_handles(ctx0, data, start, endian, i as nat).len()
                    ==> spec_fresh_handle(
                    #[trigger] ctx.named_handle_list@[handles.len() + j],
                    spec_named_handles(ctx0, data, start, endian, i as nat)[j],
                ),
        decreases count - i,
    {
        proof {
            lemma_uint_bound(data, handle.position as int, 8, endian);
        }
        let raw_handle = match read_u64(handle, endian) {
            Ok(v) => v,
            Err(_) => {
                return Err(igLoadError::UnexpectedEof);
            },
        };
        assert(raw_handle == spec_name_entry(data, start, endian, i as int));
        let ghost list_e = ctx.named_external_list@;
        let ghost list_h = ctx.named_handle_list@;
        let ghost names_before = spec_named_handles(ctx0, data, start, endian, i as nat);
        let ghost ctx_before = *ctx;
        assert(spec_string_at(ctx_before, spec_namespace_index(raw_handle)) == spec_string_at(
            ctx0,
            spec_namespace_index(raw_handle),
        ));
        assert(spec_string_at(ctx_before, spec_alias_index(raw_handle)) == spec_string_at(
            ctx0,
            spec_alias_index(raw_handle),
        ));
        match fix_external_by_name(object_stream_manager, ig_ext_ref_system, ctx, raw_handle) {
            Ok(_) => {},
            Err(e) => {
                proof {
                    let held = spec_entries_held(data, start, count);
                    assert(i < held);
                    lemma_names_taken_stops(ctx0, data, start, endian, i as nat, held);
                }
                return Err(e);
            },
        }
        proof {
            let names_after = spec_named_handles(ctx0, data, start, endian, (i + 1) as nat);
            let ext_before = spec_named_externals(
                ctx0,
                *object_stream_manager,
                data,
                start,
                endian,
                i as nat,
            );
            let ext_after = spec_named_externals(
                ctx0,
                *object_stream_manager,
                data,
                start,
                endian,
                (i + 1) as nat,
            );
            if spec_keeps_handle(raw_handle) {
                assert(ctx.named_handle_list@.drop_last() == list_h);
                assert(ctx.named_handle_list@.subrange(0, handles.len() as int)
                    =~= list_h.subrange(0, handles.len() as int));
                assert forall|j: int| 0 <= j < names_after.len() implies spec_fresh_handle(
                    #[trigger] ctx.named_handle_list@[handles.len() + j],
                    names_after[j],
                ) by {
                    if j < names_before.len() {
                        assert(ctx.named_handle_list@[handles.len() + j]
                            == ctx.named_handle_list@.drop_last()[handles.len() + j]);
                        assert(names_after[j] == names_before[j]);
                    }
                }
            } else {
                assert(externals + ext_after =~= (externals + ext_before).push(ext_after.last()));
            }
        }
        i = i + 1;
    }
    Ok(())
}

/// Whether the path of each of the first `n` dependency entries of a run
/// marks a build product, which is never loaded.
pub open spec fn spec_all_build(data: Seq<u8>, start: int, n: nat) -> bool
    decreases n,
{
    n == 0 || (spec_all_build(data, start, (n - 1) as nat) && starts_with(
        spec_entry_text(data, spec_entry_pos(data, start, false, (2 * (n - 1) + 1) as nat)),
        "<build>"@,
    ))
}

/// If all of more entries mark build products, all of fewer do.
pub proof fn lemma_all_build_prefix(data: Seq<u8>, start: int, n: nat, m: nat)
    requires
        n <= m,
        spec_all_build(data, start, m),
    ensures
        spec_all_build(data, start, n),
    decreases m,
{
    if n < m {
        lemma_all_build_prefix(data, start, n, (m - 1) as nat);
    }
}

/// The path of dependency `i` of the fixup of dependencies at `start`.
pub open spec fn spec_dependency_path(data: Seq<u8>, start: int, i: nat) -> Seq<char> {
    spec_entry_text(data, spec_entry_pos(data, start, false, (2 * i + 1) as nat))
}

/// Whether `added` are the dependencies that the first `n` entries of the
/// fixup of dependencies add to the list `before`, in the order of the
/// entries and none twice.
///
/// An entry of a build product adds nothing. The directory of every other
/// entry is cached for the path of the entry afterwards. It is added behind
/// the dependencies so far unless it is among them already; an entry whose
/// path was not cached when the fixup began may have failed to load, and
/// then adds nothing.
pub open spec fn spec_dependencies_follow(
    data: Seq<u8>,
    start: int,
    mgr_before: &igObjectStreamManager,
    mgr_after: &igObjectStreamManager,
    before: Seq<igObjectDirectoryId>,
    added: Seq<igObjectDirectoryId>,
    n: nat,
) -> bool
    decreases n,
{
    if n == 0 {
        added.len() == 0
    } else {
        let path = spec_dependency_path(data, start, (n - 1) as nat);
        let cached = mgr_after.spec_cached(path);
        if starts_with(path, "<build>"@) {
            spec_dependencies_follow(
                data,
                start,
                mgr_before,
                mgr_after,
                before,
                added,
                (n - 1) as nat,
            )
        } else {
            &&& cached.is_some()
            &&& (spec_dependencies_follow(
                data,
                start,
                mgr_before,
                mgr_after,
                before,
                added,
                (n - 1) as nat,
            ) && (mgr_before.spec_cached(path).is_none() || (before + added).contains(cached->0)))
                || (added.len() > 0 && added.last() == cached->0 && !(before
                + added.drop_last()).contains(cached->0) && spec_dependencies_follow(
                data,
                start,
                mgr_before,
                mgr_after,
                before,
                added.drop_last(),
                (n - 1) as nat,
            ))
        }
    }
}

/// Whether every path that `a` has a directory cached for has the same
/// directory cached in `b`.
pub open spec fn spec_cache_kept(a: &igObjectStreamManager, b: &igObjectStreamManager) -> bool {
    forall|h: u32| #[trigger]
        a.path_to_directory_lookup@.contains_key(h) ==> b.path_to_directory_lookup@.contains_key(h)
            && b.path_to_directory_lookup@[h] == a.path_to_directory_lookup@[h]
}

/// The dependencies that entries have added stay the dependencies they
/// added while the cache keeps its directories.
pub proof fn lemma_dependencies_follow_kept(
    data: Seq<u8>,
    start: int,
    mgr_before: &igObjectStreamManager,
    a: &igObjectStreamManager,
    b: &igObjectStreamManager,
    before: Seq<igObjectDirectoryId>,
    added: Seq<igObjectDirectoryId>,
    n: nat,
)
    requires
        spec_cache_kept(a, b),
        spec_dependencies_follow(data, start, mgr_before, a, before, added, n),
    ensures
        spec_dependencies_follow(data, start, mgr_before, b, before, added, n),
    decreases n,
{
    if n > 0 {
        let path = spec_dependency_path(data, start, (n - 1) as nat);
        if starts_with(path, "<build>"@) {
            lemma_dependencies_follow_kept(
                data,
                start,
                mgr_before,
                a,
                b,
                before,
                added,
                (n - 1) as nat,
            );
        } else {
            assert(b.spec_cached(path) == a.spec_cached(path));
            if spec_dependencies_follow(data, start, mgr_before, a, before, added, (n - 1) as nat)
                && (mgr_before.spec_cached(path).is_none() || (before + added).contains(
                a.spec_cached(path)->0,
            )) {
                lemma_dependencies_follow_kept(
                    data,
                    start,
                    mgr_before,
                    a,
                    b,
                    before,
                    added,
                    (n - 1) as nat,
                );
            } else {
                lemma_dependencies_follow_kept(
                    data,
                    start,
                    mgr_before,
                    a,
                    b,
                    before,
                    added.drop_last(),
                    (n - 1) as nat,
                );
            }
        }
    }
}

/// The dependencies of a directory once the result of the load of one
/// dependency is taken in: a directory that was loaded is put behind the
/// others unless it is among them already; a load that failed adds
/// nothing.
pub open spec fn spec_dependency_taken(
    list: Seq<igObjectDirectoryId>,
    loaded: Result<igObjectDirectoryId, igLoadError>,
) -> Seq<igObjectDirectoryId> {
    match loaded {
        Ok(directory) => if list.contains(directory) {
            list
        } else {
            list.push(directory)
        },
        Err(_) => list,
    }
}

/// The dependencies of a directory after the first `n` entries of the
/// fixup of dependencies, from the dependencies `before` and the results of
/// the loads of the entries: an entry of a build product is not loaded and
/// adds nothing; every other entry takes in the result of its load.
pub open spec fn spec_dependencies_listed(
    data: Seq<u8>,
    start: int,
    before: Seq<igObjectDirectoryId>,
    results: Seq<Result<igObjectDirectoryId, igLoadError>>,
    n: nat,
) -> Seq<igObjectDirectoryId>
    decreases n,
{
    if n == 0 {
        before
    } else if starts_with(spec_dependency_path(data, start, (n - 1) as nat), "<build>"@) {
        spec_dependencies_listed(data, start, before, results, (n - 1) as nat)
    } else {
        spec_dependency_taken(
            spec_dependencies_listed(data, start, before, results, (n - 1) as nat),
            results[n - 1],
        )
    }
}

/// What is known of the result `loaded` of the load of the dependency at
/// `path`, from the store before the fixup and the store after it: the
/// path has a directory cached afterwards; a load that succeeded gave that
/// directory; and a path that had a directory cached before was loaded
/// with success.
pub open spec fn spec_load_answered(
    mgr_before: &igObjectStreamManager,
    mgr_after: &igObjectStreamManager,
    path: Seq<char>,
    loaded: Result<igObjectDirectoryId, igLoadError>,
) -> bool {
    &&& mgr_after.spec_cached(path).is_some()
    &&& loaded.is_ok() ==> Some(loaded->Ok_0) == mgr_after.spec_cached(path)
    &&& mgr_before.spec_cached(path).is_some() ==> loaded == Ok::<
        igObjectDirectoryId,
        igLoadError,
    >(mgr_before.spec_cached(path)->0)
}

/// Whether `results` are results of the loads of the first `n` entries of
/// the fixup of dependencies, as far as the stores show.
pub open spec fn spec_loads_answered(
    data: Seq<u8>,
    start: int,
    mgr_before: &igObjectStreamManager,
    mgr_after: &igObjectStreamManager,
    results: Seq<Result<igObjectDirectoryId, igLoadError>>,
    n: nat,
) -> bool {
    &&& results.len() == n
    &&& forall|i: int|
        0 <= i < n && !starts_with(spec_dependency_path(data, start, i as nat), "<build>"@)
            ==> spec_load_answered(
            mgr_before,
            mgr_after,
            spec_dependency_path(data, start, i as nat),
            #[trigger] results[i],
        )
}

/// The dependencies after the first `n` entries do not depend on the
/// results of later loads.
pub proof fn lemma_dependencies_listed_prefix(
    data: Seq<u8>,
    start: int,
    before: Seq<igObjectDirectoryId>,
    results: Seq<Result<igObjectDirectoryId, igLoadError>>,
    next: Result<igObjectDirectoryId, igLoadError>,
    n: nat,
)
    requires
        n <= results.len(),
    ensures
        spec_dependencies_listed(data, start, before, results.push(next), n)
            == spec_dependencies_listed(data, start, before, results, n),
    decreases n,
{
    if n > 0 {
        lemma_dependencies_listed_prefix(data, start, before, results, next, (n - 1) as nat);
        assert(results.push(next)[n - 1] == results[n - 1]);
    }
}

/// Takes the result of the load of a dependency into the dependencies of
/// directory `dir`: a directory that was loaded is put behind the others
/// unless it is among them already. Tells whether it was put there.
pub fn take_dependency(
    object_stream_manager: &mut igObjectStreamManager,
    dir: igObjectDirectoryId,
    loaded: Result<igObjectDirectoryId, igLoadError>,
) -> (taken: bool)
    requires
        old(object_stream_manager).wf(),
        dir < old(object_stream_manager).directories@.len(),
    ensures
        final(object_stream_manager).wf(),
        final(object_stream_manager).directories@[dir as int].dependencies@
            == spec_dependency_taken(
            old(object_stream_manager).directories@[dir as int].dependencies@,
            loaded,
        ),
        taken == (loaded.is_ok() && !old(
            object_stream_manager,
        ).directories@[dir as int].dependencies@.contains(loaded->Ok_0)),
        !taken ==> *final(object_stream_manager) == *old(object_stream_manager),
        final(object_stream_manager).directories@ == old(object_stream_manager).directories@.update(
            dir as int,
            final(object_stream_manager).directories@[dir as int],
        ),
        final(object_stream_manager).directories@[dir as int].path
            == old(object_stream_manager).directories@[dir as int].path,
        final(object_stream_manager).directories@[dir as int].name
            == old(object_stream_manager).directories@[dir as int].name,
        final(object_stream_manager).directories@[dir as int].use_name_list
            == old(object_stream_manager).directories@[dir as int].use_name_list,
        final(object_stream_manager).directories@[dir as int].object_list
            == old(object_stream_manager).directories@[dir as int].object_list,
        final(object_stream_manager).directories@[dir as int].name_list
            == old(object_stream_manager).directories@[dir as int].name_list,
        final(object_stream_manager).objects == old(object_stream_manager).objects,
        final(object_stream_manager).name_to_directory_lookup
            == old(object_stream_manager).name_to_directory_lookup,
        final(object_stream_manager).path_to_directory_lookup
            == old(object_stream_manager).path_to_directory_lookup,
{
    assert(object_stream_manager.directories@ =~= object_stream_manager.directories@.update(
        dir as int,
        object_stream_manager.directories@[dir as int],
    ));
    match loaded {
        Ok(dependency) => {
            if holds_directory(&object_stream_manager.directories[dir].dependencies, dependency) {
                false
            } else {
                object_stream_manager.add_dependency(dir, dependency);
                true
            }
        },
        Err(_) => false,
    }
}

/// Whether a directory is among the directories of a list.
pub fn holds_directory(list: &Vec<igObjectDirectoryId>, directory: igObjectDirectoryId) -> (found:
    bool)
    ensures
        found == list@.contains(directory),
{
    let mut i: usize = 0;
    while i < list.len()
        invariant
            i <= list.len(),
            forall|k: int| 0 <= k < i ==> list@[k] != directory,
        decreases list.len() - i,
    {
        if list[i] == directory {
            return true;
        }
        i = i + 1;
    }
    false
}

/// What the dependency fixup does.
///
/// A load that does not read dependencies passes the fixup over. Otherwise
/// the fixup succeeds exactly when all its strings can be read; a failure
/// is `UnexpectedEof`. The dependencies of the directory grow, by at most
/// one directory of the store for every entry, and its lists stay as they
/// are. Where every path marks a build product, nothing is loaded and
/// nothing changes.
pub open spec fn spec_dependencies_applied(
    data: Seq<u8>,
    start: int,
    count: u32,
    dir: igObjectDirectoryId,
    read_dependencies: bool,
    mgr_before: &igObjectStreamManager,
    mgr_after: &igObjectStreamManager,
    handles_before: &igObjectHandleManager,
    handles_after: &igObjectHandleManager,
    end: int,
    r: Result<(), igLoadError>,
) -> bool {
    let before = mgr_before.directories@[dir as int];
    let after = mgr_after.directories@[dir as int];
    &&& after.object_list == before.object_list
    &&& after.name_list == before.name_list
    &&& before.dependencies@.len() <= after.dependencies@.len() <= before.dependencies@.len()
        + count
    &&& after.dependencies@.subrange(0, before.dependencies@.len() as int)
        == before.dependencies@
    &&& forall|k: int|
        before.dependencies@.len() <= k < after.dependencies@.len() ==> (
        #[trigger] after.dependencies@[k]) < mgr_after.directories@.len()
    &&& !read_dependencies ==> r.is_ok() && *mgr_after == *mgr_before && end == start
        && *handles_after == *handles_before
    &&& read_dependencies ==> (r.is_ok() <==> spec_entries_readable(
        data,
        start,
        false,
        (2 * count) as nat,
    ))
    &&& r.is_err() ==> r == Err::<(), igLoadError>(igLoadError::UnexpectedEof)
    &&& read_dependencies && r.is_ok() ==> end == spec_entry_pos(
        data,
        start,
        false,
        (2 * count) as nat,
    )
    &&& spec_all_build(data, start, count as nat) ==> *mgr_after == *mgr_before
        && *handles_after == *handles_before
    &&& read_dependencies && r.is_ok() ==> exists|
        results: Seq<Result<igObjectDirectoryId, igLoadError>>,
    | #[trigger]
        spec_loads_answered(data, start, mgr_before, mgr_after, results, count as nat)
            && after.dependencies@ == spec_dependencies_listed(
            data,
            start,
            before.dependencies@,
            results,
            count as nat,
        )
    &&& read_dependencies && r.is_ok() ==> spec_dependencies_follow(
        data,
        start,
        mgr_before,
        mgr_after,
        before.dependencies@,
        after.dependencies@.subrange(
            before.dependencies@.len() as int,
            after.dependencies@.len() as int,
        ),
        count as nat,
    )
}

/// Applies the dependency fixup: `count` pairs of a namespace and a path.
///
/// Unless the load was asked not to read dependencies, every path that does
/// not begin with `<build>` is loaded under its namespace, and the directory
/// it yields is appended to the dependencies of `dir` unless it is among
/// them already; a dependency that fails to load is passed over. The
/// dependencies keep the order of the entries. The fixup itself fails only
/// where a string
/// cannot be read, with `UnexpectedEof`. Where every path begins with
/// `<build>`, nothing is loaded and nothing changes.
pub fn fix_dependencies<H: igHostStorage>(
    host: &H,
    handle: &mut ByteCursor,
    count: u32,
    dir: igObjectDirectoryId,
    ig_file_context: &igFileContext,
    ig_registry: &igRegistry,
    imm: &igMetadataManager,
    object_stream_manager: &mut igObjectStreamManager,
    ig_ext_ref_system: &igExternalReferenceSystem,
    ig_handle_manager: &mut igObjectHandleManager,
    ctx: &IgzLoaderContext,
) -> (r: Result<(), igLoadError>)
    requires
        old(object_stream_manager).wf(),
        dir < old(object_stream_manager).directories@.len(),
        !old(object_stream_manager).directories@[dir as int].use_name_list,
    ensures
        final(handle).data == old(handle).data,
        spec_store_kept(old(object_stream_manager), final(object_stream_manager), dir),
        spec_dependencies_applied(
            old(handle).data@,
            old(handle).position as int,
            count,
            dir,
            ctx.read_dependencies,
            old(object_stream_manager),
            final(object_stream_manager),
            old(ig_handle_manager),
            final(ig_handle_manager),
            final(handle).position as int,
            r,
        ),
    decreases old(object_stream_manager).spec_room(), 1int,
{
    let ghost data = handle.data@;
    let ghost start = handle.position as int;
    let ghost start_mgr = *object_stream_manager;
    let ghost before = object_stream_manager.directories@[dir as int].dependencies@;
    proof {
        lemma_progress_reflexive(
            object_stream_manager,
            dir as int,
            object_stream_manager.objects@.len() as int,
        );
        assert(before.subrange(0, before.len() as int) =~= before);
    }
    if !ctx.read_dependencies {
        return Ok(());
    }
    let marker = chars_of("<build>");
    let ghost mut results: Seq<Result<igObjectDirectoryId, igLoadError>> = Seq::empty();
    let mut i: u32 = 0;
    while i < count
        invariant
            i <= count,
            spec_loads_answered(
                data,
                start,
                &start_mgr,
                object_stream_manager,
                results,
                i as nat,
            ),
            object_stream_manager.directories@[dir as int].dependencies@
                == spec_dependencies_listed(data, start, before, results, i as nat),
            spec_cache_kept(&start_mgr, object_stream_manager),
            ctx.read_dependencies,
            marker@ == "<build>"@,
            handle.data == old(handle).data,
            data == handle.data@,
            start == old(handle).position,
            start_mgr == *old(object_stream_manager),
            before == start_mgr.directories@[dir as int].dependencies@,
            dir < start_mgr.directories@.len(),
            object_stream_manager.wf(),
            start_mgr.spec_progress(
                object_stream_manager,
                dir as int,
                start_mgr.objects@.len() as int,
            ),
            dir < object_stream_manager.directories@.len(),
            !object_stream_manager.directories@[dir as int].use_name_list,
            object_stream_manager.directories@[dir as int].object_list
                == start_mgr.directories@[dir as int].object_list,
            object_stream_manager.directories@[dir as int].name_list
                == start_mgr.directories@[dir as int].name_list,
            handle.position == spec_entry_pos(data, start, false, (2 * i) as nat),
            spec_entries_readable(data, start, false, (2 * i) as nat),
            before.len() <= object_stream_manager.directories@[dir as int].dependencies@.len()
                <= before.len() + i,
            object_stream_manager.directories@[dir as int].dependencies@.subrange(
                0,
                before.len() as int,
            ) == before,
            forall|k: int|
                before.len() <= k
                    < object_stream_manager.directories@[dir as int].dependencies@.len() ==> (
                #[trigger] object_stream_manager.directories@[dir as int].dependencies@[k])
                    < object_stream_manager.directories@.len(),
            spec_all_build(data, start, i as nat) ==> *object_stream_manager == start_mgr
                && *ig_handle_manager == *old(ig_handle_manager),
            spec_dependencies_follow(
                data,
                start,
                &start_mgr,
                object_stream_manager,
                before,
                object_stream_manager.directories@[dir as int].dependencies@.subrange(
                    before.len() as int,
                    object_stream_manager.directories@[dir as int].dependencies@.len() as int,
                ),
                i as nat,
            ),
        decreases count - i,
    {
        let name = match read_entry(handle, false) {
            Some(name) => name,
            None => {
                proof {
                    lemma_unreadable_stays(
                        data,
                        start,
                        false,
                        (2 * i + 1) as nat,
                        (2 * count) as nat,
                    );
                    if spec_all_build(data, start, count as nat) {
                        lemma_all_build_prefix(data, start, i as nat, count as nat);
                    }
                }
                return Err(igLoadError::UnexpectedEof);
            },
        };
        assert(spec_entries_readable(data, start, false, (2 * i + 1) as nat));
        let path = match read_entry(handle, false) {
            Some(path) => path,
            None => {
                proof {
                    lemma_unreadable_stays(
                        data,
                        start,
                        false,
                        (2 * i + 2) as nat,
                        (2 * count) as nat,
                    );
                    if spec_all_build(data, start, count as nat) {
                        lemma_all_build_prefix(data, start, i as nat, count as nat);
                    }
                }
                return Err(igLoadError::UnexpectedEof);
            },
        };
        assert(spec_entries_readable(data, start, false, (2 * i + 2) as nat));
        assert(path@ == spec_dependency_path(data, start, i as nat));
        let ghost listed = path@;
        let ghost added = object_stream_manager.directories@[dir as int].dependencies@.subrange(
            before.len() as int,
            object_stream_manager.directories@[dir as int].dependencies@.len() as int,
        );
        let ghost known = results;
        let ghost reached = *object_stream_manager;
        let path_chars = chars_of(path.as_str());
        if !has_prefix(&path_chars, &marker) {
            let ghost mgr_before = *object_stream_manager;
            proof {
                object_stream_manager.lemma_room();
            }
            let loaded = object_stream_manager.load_with_namespace(
                host,
                ig_file_context,
                ig_registry,
                imm,
                ig_ext_ref_system,
                ig_handle_manager,
                path,
                igName::new(name),
            );
            proof {
                lemma_extends_is_progress(
                    &mgr_before,
                    object_stream_manager,
                    dir as int,
                    start_mgr.objects@.len() as int,
                );
                lemma_progress_transitive(
                    &start_mgr,
                    &mgr_before,
                    object_stream_manager,
                    dir as int,
                    start_mgr.objects@.len() as int,
                );
                assert(object_stream_manager.directories@[dir as int]
                    == mgr_before.directories@[dir as int]);
                assert(spec_cache_kept(&mgr_before, object_stream_manager));
                assert(spec_cache_kept(&start_mgr, &mgr_before));
                lemma_dependencies_follow_kept(
                    data,
                    start,
                    &start_mgr,
                    &mgr_before,
                    object_stream_manager,
                    before,
                    added,
                    i as nat,
                );
                assert(before + added =~= mgr_before.directories@[dir as int].dependencies@);
            }
            let ghost mgr_loaded = *object_stream_manager;
            let ghost deps = object_stream_manager.directories@[dir as int].dependencies@;
            let is_new = take_dependency(object_stream_manager, dir, loaded);
            proof {
                results = known.push(loaded);
                lemma_dependencies_listed_prefix(data, start, before, known, loaded, i as nat);
                assert(spec_cache_kept(&start_mgr, object_stream_manager));
                assert forall|j: int|
                    0 <= j < i + 1 && !starts_with(
                        spec_dependency_path(data, start, j as nat),
                        "<build>"@,
                    ) implies spec_load_answered(
                    &start_mgr,
                    object_stream_manager,
                    spec_dependency_path(data, start, j as nat),
                    #[trigger] results[j],
                ) by {
                    if j < i {
                        assert(results[j] == known[j]);
                        assert(spec_load_answered(
                            &start_mgr,
                            &reached,
                            spec_dependency_path(data, start, j as nat),
                            known[j],
                        ));
                    }
                }
            }
            match loaded {
                Ok(dependency) => if is_new {
                    proof {
                        assert(spec_cache_kept(&mgr_loaded, object_stream_manager));
                        lemma_dependencies_follow_kept(
                            data,
                            start,
                            &start_mgr,
                            &mgr_loaded,
                            object_stream_manager,
                            before,
                            added,
                            i as nat,
                        );
                        assert(object_stream_manager.directories@[dir as int].dependencies@.subrange(
                            before.len() as int,
                            object_stream_manager.directories@[dir as int].dependencies@.len()
                                as int,
                        ) =~= added.push(dependency));
                        assert(added.push(dependency).drop_last() =~= added);
                        lemma_progress_reflexive(
                            &mgr_loaded,
                            dir as int,
                            start_mgr.objects@.len() as int,
                        );
                        assert(mgr_loaded.spec_progress(
                            object_stream_manager,
                            dir as int,
                            start_mgr.objects@.len() as int,
                        ));
                        lemma_progress_transitive(
                            &start_mgr,
                            &mgr_loaded,
                            object_stream_manager,
                            dir as int,
                            start_mgr.objects@.len() as int,
                        );
                        assert(object_stream_manager.directories@[dir as int].dependencies@.subrange(
                            0,
                            before.len() as int,
                        ) =~= deps.subrange(0, before.len() as int));
                    }
                },
                Err(_) => {},
            }
        } else {
            proof {
                let unasked = Err::<igObjectDirectoryId, igLoadError>(igLoadError::FileNotFound);
                results = known.push(unasked);
                lemma_dependencies_listed_prefix(data, start, before, known, unasked, i as nat);
                assert forall|j: int|
                    0 <= j < i + 1 && !starts_with(
                        spec_dependency_path(data, start, j as nat),
                        "<build>"@,
                    ) implies spec_load_answered(
                    &start_mgr,
                    object_stream_manager,
                    spec_dependency_path(data, start, j as nat),
                    #[trigger] results[j],
                ) by {
                    assert(results[j] == known[j]);
                }
            }
        }
        i = i + 1;
    }
    Ok(())
}

/// What applying one fixup of kind `kind` does: the conditions that hold of
/// the state of the load, the store and the handle table before and after,
/// and of the result, each as the fixup of that kind says.
#[verifier::opaque]
pub open spec fn spec_fix_applied(
    kind: Fixup,
    imm: &igMetadataManager,
    data: Seq<u8>,
    position: int,
    endian: Endian,
    length: u32,
    start: u32,
    count: u32,
    dir: igObjectDirectoryId,
    before: &IgzLoaderContext,
    after: &IgzLoaderContext,
    mgr_before: &igObjectStreamManager,
    mgr_after: &igObjectStreamManager,
    handles_before: &igObjectHandleManager,
    handles_after: &igObjectHandleManager,
    end: int,
    r: Result<(), igLoadError>,
) -> bool {
    &&& r.is_ok() ==> spec_objects_known(
        after,
        mgr_after,
        data,
        endian,
        dir,
    )
    &&& spec_store_kept(mgr_before, mgr_after, dir)
    &&& spec_lists_kept(before, after, kind)
    &&& kind == Fixup::T_DEPENDENCIES ==> spec_dependencies_applied(
        data,
        position,
        count,
        dir,
        before.read_dependencies,
        mgr_before,
        mgr_after,
        handles_before,
        handles_after,
        end,
        r,
    )
    &&& kind == Fixup::T_METADATA ==> spec_metadata_applied(
        imm,
        data,
        position,
        count,
        before,
        after,
        end,
        r,
    )
    &&& kind == Fixup::T_STRING_LIST ==> spec_string_list_applied(
        data,
        position,
        count,
        before,
        after,
        end,
        r,
    )
    &&& kind == Fixup::EXTERNAL_DEPENDENCIES_BY_ID ==> spec_externals_by_id_applied(
        mgr_before,
        handles_before.spec_handles(),
        handles_after.spec_handles(),
        data,
        position,
        endian,
        count,
        before,
        after,
        end,
        r,
    )
    &&& kind == Fixup::EXTERNAL_DEPENDENCIES_BY_NAME ==> spec_externals_by_name_applied(
        mgr_before,
        data,
        position,
        endian,
        count,
        before,
        after,
        end,
        r,
    )
    &&& kind == Fixup::THUMBNAIL ==> spec_thumbnails_applied(
        data,
        position,
        endian,
        count,
        before,
        after,
        r,
    )
    &&& kind == Fixup::RUNTIME_V_TABLES ==> spec_vtables_applied(
        imm,
        spec_runtime_list(
            *before,
            data,
            position,
            length,
            start,
            count,
            false,
        ),
        data,
        endian,
        dir,
        mgr_before,
        mgr_after,
        before,
        after,
        r,
    )
    &&& kind == Fixup::RUNTIME_OBJECT_LISTS ==> spec_root_applied(
        spec_runtime_list(
            *before,
            data,
            position,
            length,
            start,
            count,
            false,
        ),
        dir,
        mgr_before,
        mgr_after,
        before,
        after,
        r,
    )
    &&& spec_is_position_list(kind) ==> spec_positions_applied(
        kind,
        spec_runtime_list(
            *before,
            data,
            position,
            length,
            start,
            count,
            true,
        ),
        before,
        after,
        r,
    )
    &&& kind == Fixup::OPTION_NAMED_LIST ==> spec_name_list_applied(
        data,
        position,
        endian,
        dir,
        mgr_before,
        mgr_after,
        before,
        after,
        r,
    )
    &&& kind == Fixup::METADATA_SIZES ==> r.is_ok() && end == position
    &&& kind != Fixup::T_DEPENDENCIES && kind != Fixup::RUNTIME_V_TABLES
        ==> mgr_after.objects
        == mgr_before.objects
    &&& kind != Fixup::T_DEPENDENCIES && kind != Fixup::EXTERNAL_DEPENDENCIES_BY_ID
        ==> *handles_after == *handles_before
    &&& kind != Fixup::T_DEPENDENCIES && kind != Fixup::RUNTIME_OBJECT_LISTS && kind
        != Fixup::OPTION_NAMED_LIST ==> mgr_after.directories
        == mgr_before.directories
    &&& kind != Fixup::T_DEPENDENCIES
        ==> mgr_after.name_to_directory_lookup
        == mgr_before.name_to_directory_lookup
        && mgr_after.path_to_directory_lookup
        == mgr_before.path_to_directory_lookup
    &&& kind != Fixup::T_DEPENDENCIES && kind != Fixup::RUNTIME_V_TABLES && kind
        != Fixup::RUNTIME_OBJECT_LISTS && kind != Fixup::OPTION_NAMED_LIST
        ==> *mgr_after == *mgr_before
}

impl Fixup {
    /// Applies one fixup of this kind: the cursor stands at its payload,
    /// `count` is the number of its entries, and `length` and `start` are the
    /// length of the whole fixup and of its header.
    ///
    /// Every kind fills its own part of the state and leaves the rest as it
    /// was. The store stays well formed, and of what existed in it only the
    /// directory that is being loaded may change.
    pub fn fix<H: igHostStorage>(
        &self,
        host: &H,
        handle: &mut ByteCursor,
        endian: Endian,
        imm: &igMetadataManager,
        length: u32,
        start: u32,
        count: u32,
        dir: igObjectDirectoryId,
        ig_file_context: &igFileContext,
        ig_registry: &igRegistry,
        ig_object_stream_manager: &mut igObjectStreamManager,
        ig_ext_ref_system: &igExternalReferenceSystem,
        ig_handle_manager: &mut igObjectHandleManager,
        ctx: &mut IgzLoaderContext,
    ) -> (r: Result<(), igLoadError>)
        requires
            spec_objects_known(
                old(ctx),
                old(ig_object_stream_manager),
                old(handle).data@,
                endian,
                dir,
            ),
            old(ig_object_stream_manager).wf(),
            old(ctx).runtime_fields.wf(),
            dir < old(ig_object_stream_manager).directories@.len(),
            !old(ig_object_stream_manager).directories@[dir as int].use_name_list,
        ensures
            spec_fix_applied(
                *self,
                imm,
                old(handle).data@,
                old(handle).position as int,
                endian,
                length,
                start,
                count,
                dir,
                old(ctx),
                final(ctx),
                old(ig_object_stream_manager),
                final(ig_object_stream_manager),
                old(ig_handle_manager),
                final(ig_handle_manager),
                final(handle).position as int,
                r,
            ),
            r.is_ok() ==> spec_objects_known(
                final(ctx),
                final(ig_object_stream_manager),
                old(handle).data@,
                endian,
                dir,
            ),
            final(handle).data == old(handle).data,
            spec_store_kept(old(ig_object_stream_manager), final(ig_object_stream_manager), dir),
            spec_lists_kept(old(ctx), final(ctx), *self),
            *self == Fixup::T_DEPENDENCIES ==> spec_dependencies_applied(
                old(handle).data@,
                old(handle).position as int,
                count,
                dir,
                old(ctx).read_dependencies,
                old(ig_object_stream_manager),
                final(ig_object_stream_manager),
                old(ig_handle_manager),
                final(ig_handle_manager),
                final(handle).position as int,
                r,
            ),
            *self == Fixup::T_METADATA ==> spec_metadata_applied(
                imm,
                old(handle).data@,
                old(handle).position as int,
                count,
                old(ctx),
                final(ctx),
                final(handle).position as int,
                r,
            ),
            *self == Fixup::T_STRING_LIST ==> spec_string_list_applied(
                old(handle).data@,
                old(handle).position as int,
                count,
                old(ctx),
                final(ctx),
                final(handle).position as int,
                r,
            ),
            *self == Fixup::EXTERNAL_DEPENDENCIES_BY_ID ==> spec_externals_by_id_applied(
                old(ig_object_stream_manager),
                old(ig_handle_manager).spec_handles(),
                final(ig_handle_manager).spec_handles(),
                old(handle).data@,
                old(handle).position as int,
                endian,
                count,
                old(ctx),
                final(ctx),
                final(handle).position as int,
                r,
            ),
            *self == Fixup::EXTERNAL_DEPENDENCIES_BY_NAME ==> spec_externals_by_name_applied(
                old(ig_object_stream_manager),
                old(handle).data@,
                old(handle).position as int,
                endian,
                count,
                old(ctx),
                final(ctx),
                final(handle).position as int,
                r,
            ),
            *self == Fixup::THUMBNAIL ==> spec_thumbnails_applied(
                old(handle).data@,
                old(handle).position as int,
                endian,
                count,
                old(ctx),
                final(ctx),
                r,
            ),
            *self == Fixup::RUNTIME_V_TABLES ==> spec_vtables_applied(
                imm,
                spec_runtime_list(
                    *old(ctx),
                    old(handle).data@,
                    old(handle).position as int,
                    length,
                    start,
                    count,
                    false,
                ),
                old(handle).data@,
                endian,
                dir,
                old(ig_object_stream_manager),
                final(ig_object_stream_manager),
                old(ctx),
                final(ctx),
                r,
            ),
            *self == Fixup::RUNTIME_OBJECT_LISTS ==> spec_root_applied(
                spec_runtime_list(
                    *old(ctx),
                    old(handle).data@,
                    old(handle).position as int,
                    length,
                    start,
                    count,
                    false,
                ),
                dir,
                old(ig_object_stream_manager),
                final(ig_object_stream_manager),
                old(ctx),
                final(ctx),
                r,
            ),
            spec_is_position_list(*self) ==> spec_positions_applied(
                *self,
                spec_runtime_list(
                    *old(ctx),
                    old(handle).data@,
                    old(handle).position as int,
                    length,
                    start,
                    count,
                    true,
                ),
                old(ctx),
                final(ctx),
                r,
            ),
            *self == Fixup::OPTION_NAMED_LIST ==> spec_name_list_applied(
                old(handle).data@,
                old(handle).position as int,
                endian,
                dir,
                old(ig_object_stream_manager),
                final(ig_object_stream_manager),
                old(ctx),
                final(ctx),
                r,
            ),
            *self == Fixup::METADATA_SIZES ==> r.is_ok() && *final(handle) == *old(handle),
            *self != Fixup::T_DEPENDENCIES && *self != Fixup::RUNTIME_V_TABLES
                ==> final(ig_object_stream_manager).objects
                == old(ig_object_stream_manager).objects,
            *self != Fixup::T_DEPENDENCIES && *self != Fixup::EXTERNAL_DEPENDENCIES_BY_ID
                ==> *final(ig_handle_manager) == *old(ig_handle_manager),
            *self != Fixup::T_DEPENDENCIES && *self != Fixup::RUNTIME_OBJECT_LISTS && *self
                != Fixup::OPTION_NAMED_LIST ==> final(ig_object_stream_manager).directories
                == old(ig_object_stream_manager).directories,
            *self != Fixup::T_DEPENDENCIES
                ==> final(ig_object_stream_manager).name_to_directory_lookup
                == old(ig_object_stream_manager).name_to_directory_lookup
                && final(ig_object_stream_manager).path_to_directory_lookup
                == old(ig_object_stream_manager).path_to_directory_lookup,
            *self != Fixup::T_DEPENDENCIES && *self != Fixup::RUNTIME_V_TABLES && *self
                != Fixup::RUNTIME_OBJECT_LISTS && *self != Fixup::OPTION_NAMED_LIST
                ==> *final(ig_object_stream_manager) == *old(ig_object_stream_manager),
        decreases old(ig_object_stream_manager).spec_room(), 2int,
    {
        proof {
            lemma_progress_reflexive(
                ig_object_stream_manager,
                dir as int,
                ig_object_stream_manager.objects@.len() as int,
            );
        }
        let ghost ctx_before = *ctx;
        let ghost mgr_before = *ig_object_stream_manager;
        let r = match self {
            Fixup::T_DEPENDENCIES => fix_dependencies(
                host,
                handle,
                count,
                dir,
                ig_file_context,
                ig_registry,
                imm,
                ig_object_stream_manager,
                ig_ext_ref_system,
                ig_handle_manager,
                ctx,
            ),
            Fixup::T_METADATA => fix_metadata(handle, imm, count, ctx),
            Fixup::T_STRING_LIST => fix_string_list(handle, count, ctx),
            Fixup::EXTERNAL_DEPENDENCIES_BY_ID => fix_external_dependencies_by_id(
                handle,
                endian,
                count,
                ig_object_stream_manager,
                ig_handle_manager,
                ctx,
            ),
            Fixup::EXTERNAL_DEPENDENCIES_BY_NAME => fix_external_dependencies_by_name(
                handle,
                endian,
                count,
                ig_object_stream_manager,
                ig_ext_ref_system,
                ctx,
            ),
            Fixup::THUMBNAIL => fix_thumbnail(handle, endian, count, ctx),
            Fixup::RUNTIME_V_TABLES => fix_runtime_vtables(
                handle,
                endian,
                imm,
                length,
                start,
                count,
                dir,
                ig_object_stream_manager,
                ctx,
            ),
            Fixup::RUNTIME_OBJECT_LISTS => fix_runtime_object_lists(
                handle,
                endian,
                length,
                start,
                count,
                dir,
                ig_object_stream_manager,
                ctx,
            ),
            Fixup::OPTION_NAMED_LIST => fix_option_named_list(
                handle,
                endian,
                dir,
                ig_object_stream_manager,
                ctx,
            ),
            Fixup::METADATA_SIZES => Ok(()),
            _ => fix_runtime_list(*self, handle, endian, length, start, count, ctx),
        };
        proof {
            reveal(spec_fix_applied);
            if r.is_ok() && *self != Fixup::RUNTIME_V_TABLES {
                assert(ctx.vtbl_list@.subrange(0, ctx_before.vtbl_list@.len() as int)
                    =~= ctx_before.vtbl_list@) by {
                    if *self != Fixup::T_METADATA {
                        assert(ctx.vtbl_list == ctx_before.vtbl_list);
                    }
                }
                lemma_objects_known_kept(
                    &ctx_before,
                    ctx,
                    &mgr_before,
                    ig_object_stream_manager,
                    handle.data@,
                    endian,
                    dir,
                    mgr_before.objects@.len() as int,
                );
            }
        }
        r
    }
}

} // verus!
