//! The IGZ decoder: header, section table, fixups and the field pass.

use crate::base::ig_core_platform::{
    platform_from_index, spec_platform_from_index, Endian, IG_CORE_PLATFORM,
};
use crate::base::ig_memory::{igMemoryPool, spec_pool_from_name};
use crate::load::ig_load_error::{from_packed_error, igLoadError, spec_from_packed_error};
use crate::load::packed_ints::{spec_unpack, unpack_offsets, PackedIntError};
use crate::object::ig_handle::igHandle;
use crate::object::ig_objects::{igObject, igObjectDirectoryId};
use crate::util::byteorder_fixes::{
    read_string, read_u32, spec_terminator, spec_text, spec_uint, ByteCursor,
};
use crate::base::ig_registry::igRegistry;
use crate::load::ig_igz_fixups::{
    lemma_objects_known_kept, spec_fix_applied, spec_header_kept, spec_objects_known,
    spec_objects_recorded, spec_store_kept,
};
use crate::meta::ig_metadata_manager::{
    igMetadataManager, lemma_content_decoded_kept, lemma_content_error_kept,
    spec_content_decoded, spec_content_error,
};
use crate::object::ig_external_ref::igExternalReferenceSystem;
use crate::object::ig_handle::igObjectHandleManager;
use crate::object::ig_objects::{
    igObjectStreamManager, lemma_progress_reflexive, lemma_progress_transitive,
    lemma_progress_weaken,
};
use crate::util::sorted::is_sorted;
use crate::vfs::ig_file_context::{igFileContext, spec_interpret_path};
use crate::vfs::ig_fs::igHostStorage;
use std::collections::HashMap;
use vstd::prelude::*;

verus! {

/// The magic number of a little-endian container, as its first four bytes
/// read in little-endian order.
pub const IGZ_LITTLE_ENDIAN_MAGIC: u32 = 0x49475A01;

/// The magic number of a big-endian container, as its first four bytes read
/// in little-endian order.
pub const IGZ_BIG_ENDIAN_MAGIC: u32 = 0x015A4749;

/// Number of entries of the section table, and of pools and base pointers.
pub const MAX_SECTIONS: usize = 32;

/// The loader of IGZ containers.
#[derive(Clone, Copy, Debug)]
pub struct igIGZObjectLoader;

/// The decoder proper.
pub struct igIGZLoader {}

/// The kinds of fixup.
#[derive(Clone, Copy, Debug, PartialEq, Eq, Structural)]
pub enum Fixup {
    T_METADATA,
    T_DEPENDENCIES,
    T_STRING_LIST,
    EXTERNAL_DEPENDENCIES_BY_ID,
    EXTERNAL_DEPENDENCIES_BY_NAME,
    THUMBNAIL,
    RUNTIME_V_TABLES,
    RUNTIME_OBJECT_LISTS,
    RUNTIME_OFFSETS,
    RUNTIME_POOL_IDS,
    RUNTIME_STRING_TABLES,
    RUNTIME_STRING_REFERENCES,
    RUNTIME_MEMORY_HANDLES,
    RUNTIME_EXTERNALS,
    RUNTIME_NAMED_EXTERNALS,
    RUNTIME_HANDLES,
    OPTION_NAMED_LIST,
    METADATA_SIZES,
}

/// The number that a four-letter tag reads as: first letter least
/// significant.
pub open spec fn spec_tag(a: u8, b: u8, c: u8, d: u8) -> u32 {
    (a as int + 256 * (b as int) + 65536 * (c as int) + 16777216 * (d as int)) as u32
}

/// The fixup that a tag of version 7 and later names.
pub open spec fn spec_fixup_from_magic(value: u32) -> Option<Fixup> {
    if value == spec_tag(0x54, 0x44, 0x45, 0x50) {
        Some(Fixup::T_DEPENDENCIES)
    } else if value == spec_tag(0x54, 0x4D, 0x45, 0x54) {
        Some(Fixup::T_METADATA)
    } else if value == spec_tag(0x54, 0x53, 0x54, 0x52) {
        Some(Fixup::T_STRING_LIST)
    } else if value == spec_tag(0x45, 0x58, 0x49, 0x44) {
        Some(Fixup::EXTERNAL_DEPENDENCIES_BY_ID)
    } else if value == spec_tag(0x45, 0x58, 0x4E, 0x4D) {
        Some(Fixup::EXTERNAL_DEPENDENCIES_BY_NAME)
    } else if value == spec_tag(0x54, 0x4D, 0x48, 0x4E) {
        Some(Fixup::THUMBNAIL)
    } else if value == spec_tag(0x52, 0x56, 0x54, 0x42) {
        Some(Fixup::RUNTIME_V_TABLES)
    } else if value == spec_tag(0x52, 0x4F, 0x4F, 0x54) {
        Some(Fixup::RUNTIME_OBJECT_LISTS)
    } else if value == spec_tag(0x52, 0x4F, 0x46, 0x53) {
        Some(Fixup::RUNTIME_OFFSETS)
    } else if value == spec_tag(0x52, 0x50, 0x49, 0x44) {
        Some(Fixup::RUNTIME_POOL_IDS)
    } else if value == spec_tag(0x52, 0x53, 0x54, 0x54) {
        Some(Fixup::RUNTIME_STRING_TABLES)
    } else if value == spec_tag(0x52, 0x53, 0x54, 0x52) {
        Some(Fixup::RUNTIME_STRING_REFERENCES)
    } else if value == spec_tag(0x52, 0x4D, 0x48, 0x4E) {
        Some(Fixup::RUNTIME_MEMORY_HANDLES)
    } else if value == spec_tag(0x52, 0x45, 0x58, 0x54) {
        Some(Fixup::RUNTIME_EXTERNALS)
    } else if value == spec_tag(0x52, 0x4E, 0x45, 0x58) {
        Some(Fixup::RUNTIME_NAMED_EXTERNALS)
    } else if value == spec_tag(0x52, 0x48, 0x4E, 0x44) {
        Some(Fixup::RUNTIME_HANDLES)
    } else if value == spec_tag(0x4F, 0x4E, 0x41, 0x4D) {
        Some(Fixup::OPTION_NAMED_LIST)
    } else {
        None
    }
}

/// The fixup that a number of version 6 and earlier names. The numbers that
/// are not listed are not assigned.
pub open spec fn spec_fixup_from_id(value: u8) -> Option<Fixup> {
    if value == 0x00 {
        Some(Fixup::T_METADATA)
    } else if value == 0x01 {
        Some(Fixup::T_STRING_LIST)
    } else if value == 0x02 {
        Some(Fixup::EXTERNAL_DEPENDENCIES_BY_ID)
    } else if value == 0x03 {
        Some(Fixup::EXTERNAL_DEPENDENCIES_BY_NAME)
    } else if value == 0x05 {
        Some(Fixup::RUNTIME_V_TABLES)
    } else if value == 0x0A {
        Some(Fixup::THUMBNAIL)
    } else if value == 0x0C {
        Some(Fixup::METADATA_SIZES)
    } else if value == 0x0E {
        Some(Fixup::RUNTIME_STRING_REFERENCES)
    } else {
        None
    }
}

impl Fixup {
    /// The fixup that the four-letter tag `value` names, `None` for an
    /// unknown tag.
    pub fn try_from(value: u32) -> (fixup: Option<Fixup>)
        ensures
            fixup == spec_fixup_from_magic(value),
    {
        match value {
            0x50454454 => Some(Fixup::T_DEPENDENCIES),
            0x54454D54 => Some(Fixup::T_METADATA),
            0x52545354 => Some(Fixup::T_STRING_LIST),
            0x44495845 => Some(Fixup::EXTERNAL_DEPENDENCIES_BY_ID),
            0x4D4E5845 => Some(Fixup::EXTERNAL_DEPENDENCIES_BY_NAME),
            0x4E484D54 => Some(Fixup::THUMBNAIL),
            0x42545652 => Some(Fixup::RUNTIME_V_TABLES),
            0x544F4F52 => Some(Fixup::RUNTIME_OBJECT_LISTS),
            0x53464F52 => Some(Fixup::RUNTIME_OFFSETS),
            0x44495052 => Some(Fixup::RUNTIME_POOL_IDS),
            0x54545352 => Some(Fixup::RUNTIME_STRING_TABLES),
            0x52545352 => Some(Fixup::RUNTIME_STRING_REFERENCES),
            0x4E484D52 => Some(Fixup::RUNTIME_MEMORY_HANDLES),
            0x54584552 => Some(Fixup::RUNTIME_EXTERNALS),
            0x58454E52 => Some(Fixup::RUNTIME_NAMED_EXTERNALS),
            0x444E4852 => Some(Fixup::RUNTIME_HANDLES),
            0x4D414E4F => Some(Fixup::OPTION_NAMED_LIST),
            _ => None,
        }
    }

    /// The fixup that the number `value` names in a container of version 6
    /// or earlier, `None` for a number that is not assigned.
    pub fn try_from_id(value: u8) -> (fixup: Option<Fixup>)
        ensures
            fixup == spec_fixup_from_id(value),
    {
        match value {
            0x00 => Some(Fixup::T_METADATA),
            0x01 => Some(Fixup::T_STRING_LIST),
            0x02 => Some(Fixup::EXTERNAL_DEPENDENCIES_BY_ID),
            0x03 => Some(Fixup::EXTERNAL_DEPENDENCIES_BY_NAME),
            0x05 => Some(Fixup::RUNTIME_V_TABLES),
            0x0A => Some(Fixup::THUMBNAIL),
            0x0C => Some(Fixup::METADATA_SIZES),
            0x0E => Some(Fixup::RUNTIME_STRING_REFERENCES),
            _ => None,
        }
    }
}

/// The lists of offsets that the runtime fixups bring.
pub struct RuntimeFields {
    pub vtables: Vec<u64>,
    pub object_lists: Vec<u64>,
    pub offsets: Vec<u64>,
    pub pool_ids: Vec<u64>,
    pub string_tables: Vec<u64>,
    pub string_references: Vec<u64>,
    pub memory_handles: Vec<u64>,
    pub externals: Vec<u64>,
    pub named_externals: Vec<u64>,
    pub handles: Vec<u64>,
}

impl RuntimeFields {
    /// The lists of byte positions are in ascending order, as the binary
    /// searches of the field pass need them.
    pub open spec fn wf(&self) -> bool {
        &&& is_sorted(self.offsets@)
        &&& is_sorted(self.pool_ids@)
        &&& is_sorted(self.string_tables@)
        &&& is_sorted(self.string_references@)
        &&& is_sorted(self.memory_handles@)
        &&& is_sorted(self.externals@)
        &&& is_sorted(self.named_externals@)
        &&& is_sorted(self.handles@)
    }

    /// Empty lists.
    pub fn new() -> (fields: RuntimeFields)
        ensures
            fields.wf(),
            fields.vtables@.len() == 0,
            fields.object_lists@.len() == 0,
            fields.offsets@.len() == 0,
            fields.pool_ids@.len() == 0,
            fields.string_tables@.len() == 0,
            fields.string_references@.len() == 0,
            fields.memory_handles@.len() == 0,
            fields.externals@.len() == 0,
            fields.named_externals@.len() == 0,
            fields.handles@.len() == 0,
    {
        RuntimeFields {
            vtables: Vec::new(),
            object_lists: Vec::new(),
            offsets: Vec::new(),
            pool_ids: Vec::new(),
            string_tables: Vec::new(),
            string_references: Vec::new(),
            memory_handles: Vec::new(),
            externals: Vec::new(),
            named_externals: Vec::new(),
            handles: Vec::new(),
        }
    }
}

/// What the header of a container says.
#[derive(Clone, Copy, Debug, PartialEq, Eq, Structural)]
pub struct IgzHeader {
    pub endian: Endian,
    pub version: u32,
    pub meta_object_version: u32,
    pub platform: IG_CORE_PLATFORM,
    /// The number of fixups; zero up to version 6, where the section table
    /// brings it.
    pub fixup_count: u32,
}

/// The header that the first bytes of a file spell.
///
/// The first four bytes, read in little-endian order, must be one of the two
/// magic numbers; it selects the byte order of everything else. Version,
/// version of the type descriptors and platform follow, and from version 7 on
/// the number of fixups.
pub open spec fn spec_parse_header(bytes: Seq<u8>) -> Result<IgzHeader, igLoadError> {
    if bytes.len() < 4 {
        Err(igLoadError::UnexpectedEof)
    } else if spec_uint(bytes, 0, 4, Endian::Little) != IGZ_BIG_ENDIAN_MAGIC && spec_uint(
        bytes,
        0,
        4,
        Endian::Little,
    ) != IGZ_LITTLE_ENDIAN_MAGIC {
        Err(igLoadError::BadMagic)
    } else {
        let endian = if spec_uint(bytes, 0, 4, Endian::Little) == IGZ_BIG_ENDIAN_MAGIC {
            Endian::Big
        } else {
            Endian::Little
        };
        let version = spec_uint(bytes, 4, 4, endian) as u32;
        if bytes.len() < 16 {
            Err(igLoadError::UnexpectedEof)
        } else if version < 5 || version > 9 {
            Err(igLoadError::UnsupportedVersion)
        } else if spec_platform_from_index(spec_uint(bytes, 12, 4, endian) as u32).is_none() {
            Err(igLoadError::UnknownPlatform)
        } else if version >= 7 && bytes.len() < 20 {
            Err(igLoadError::UnexpectedEof)
        } else {
            Ok(
                IgzHeader {
                    endian,
                    version,
                    meta_object_version: spec_uint(bytes, 8, 4, endian) as u32,
                    platform: spec_platform_from_index(spec_uint(bytes, 12, 4, endian) as u32)->0,
                    fixup_count: if version >= 7 {
                        spec_uint(bytes, 16, 4, endian) as u32
                    } else {
                        0
                    },
                },
            )
        }
    }
}

/// Where the cursor stands behind the header.
pub open spec fn spec_header_len(version: u32) -> int {
    if version >= 7 {
        20
    } else {
        16
    }
}

/// Reads the header at the start of a file.
pub fn read_header(handle: &mut ByteCursor) -> (r: Result<IgzHeader, igLoadError>)
    requires
        old(handle).position == 0,
    ensures
        final(handle).data == old(handle).data,
        r == spec_parse_header(old(handle).data@),
        r matches Ok(header) ==> final(handle).position == spec_header_len(header.version),
{
    let magic = match read_u32(handle, Endian::Little) {
        Ok(v) => v,
        Err(_) => {
            return Err(igLoadError::UnexpectedEof);
        },
    };
    let endian = if magic == IGZ_BIG_ENDIAN_MAGIC {
        Endian::Big
    } else if magic == IGZ_LITTLE_ENDIAN_MAGIC {
        Endian::Little
    } else {
        return Err(igLoadError::BadMagic);
    };
    proof {
        crate::util::byteorder_fixes::lemma_uint_bound(handle.data@, 0, 4, Endian::Little);
        crate::util::byteorder_fixes::lemma_uint_bound(handle.data@, 4, 4, endian);
        crate::util::byteorder_fixes::lemma_uint_bound(handle.data@, 8, 4, endian);
        crate::util::byteorder_fixes::lemma_uint_bound(handle.data@, 12, 4, endian);
        crate::util::byteorder_fixes::lemma_uint_bound(handle.data@, 16, 4, endian);
    }
    if handle.remaining() < 12 {
        return Err(igLoadError::UnexpectedEof);
    }
    let version = match read_u32(handle, endian) {
        Ok(v) => v,
        Err(_) => {
            return Err(igLoadError::UnexpectedEof);
        },
    };
    let meta_object_version = match read_u32(handle, endian) {
        Ok(v) => v,
        Err(_) => {
            return Err(igLoadError::UnexpectedEof);
        },
    };
    let platform_index = match read_u32(handle, endian) {
        Ok(v) => v,
        Err(_) => {
            return Err(igLoadError::UnexpectedEof);
        },
    };
    if version < 5 || version > 9 {
        return Err(igLoadError::UnsupportedVersion);
    }
    let platform = match platform_from_index(platform_index) {
        Some(p) => p,
        None => {
            return Err(igLoadError::UnknownPlatform);
        },
    };
    let mut fixup_count: u32 = 0;
    if version >= 7 {
        fixup_count = match read_u32(handle, endian) {
            Ok(v) => v,
            Err(_) => {
                return Err(igLoadError::UnexpectedEof);
            },
        };
    }
    Ok(IgzHeader { endian, version, meta_object_version, platform, fixup_count })
}

/// Where the section table starts, for the versions that are supported.
pub open spec fn spec_chunk_descriptor_start(version: u32) -> Option<u64> {
    if version == 5 || version == 6 {
        Some(0xC)
    } else if version == 7 || version == 8 || version == 9 {
        Some(0x14)
    } else {
        None
    }
}

/// Where the names of the sections start, for the versions that are
/// supported.
pub open spec fn spec_attribute_location(version: u32) -> Option<u32> {
    if version == 5 || version == 6 || version == 7 {
        Some(0x56C)
    } else if version == 8 || version == 9 {
        Some(0x224)
    } else {
        None
    }
}

/// Where the section table starts.
pub fn get_chunk_descriptor_start(version: u32) -> (start: Option<u64>)
    ensures
        start == spec_chunk_descriptor_start(version),
{
    match version {
        5 | 6 => Some(0xC),
        7 | 8 | 9 => Some(0x14),
        _ => None,
    }
}

/// Where the names of the sections start.
pub fn get_attribute_location(version: u32) -> (location: Option<u32>)
    ensures
        location == spec_attribute_location(version),
{
    match version {
        5 | 6 | 7 => Some(0x56C),
        8 | 9 => Some(0x224),
        _ => None,
    }
}

/// The scratch state of one container load.
pub struct IgzLoaderContext {
    /// Version of the container.
    pub version: u32,
    /// Version of the type descriptors the container was written with.
    pub meta_object_version: u32,
    /// The platform the container targets.
    pub platform: IG_CORE_PLATFORM,
    /// Number of data sections.
    pub section_count: u32,
    /// Number of fixups.
    pub fixup_count: u32,
    /// The pool of every data section.
    pub loaded_pools: [igMemoryPool; 32],
    /// Where every data section starts in the file.
    pub loaded_pointers: [u32; 32],
    /// Where the fixups start in the file.
    pub fixup_offset: u32,
    /// The types of the container, by their position in the registry.
    pub vtbl_list: Vec<usize>,
    /// The strings of the container.
    pub string_list: Vec<String>,
    /// The handles of references by hash that did not resolve at once.
    pub external_list: Vec<igHandle>,
    /// The objects of references by name; `None` for one that did not
    /// resolve.
    pub named_external_list: Vec<Option<igObject>>,
    /// The handles of references by name that are kept as handles.
    pub named_handle_list: Vec<igHandle>,
    /// Whether the dependency fixup loads the containers it names.
    pub read_dependencies: bool,
    /// Size and position of every thumbnail.
    pub thumbnails: Vec<(u64, u64)>,
    /// The lists of the runtime fixups.
    pub runtime_fields: RuntimeFields,
    /// The object created for every serialized offset of the type table.
    pub offset_object_list: HashMap<u64, igObject>,
    /// Whether the container names its root objects.
    pub use_name_list: bool,
}

/// By how many bits the section of a serialized offset is shifted.
pub open spec fn spec_offset_shift(version: u32) -> u64 {
    if version <= 6 {
        0x18
    } else {
        0x1B
    }
}

/// The bits of a serialized offset that count within its section.
pub open spec fn spec_offset_mask(version: u32) -> u64 {
    if version <= 6 {
        0x00FF_FFFF
    } else {
        0x07FF_FFFF
    }
}

impl IgzLoaderContext {
    /// What the field pass may have done to the state: nothing, except that
    /// handles of the two lists of handles may have resolved.
    pub open spec fn spec_fields_decoded(&self, later: &IgzLoaderContext) -> bool {
        &&& later.version == self.version
        &&& later.meta_object_version == self.meta_object_version
        &&& later.platform == self.platform
        &&& later.section_count == self.section_count
        &&& later.fixup_count == self.fixup_count
        &&& later.loaded_pools == self.loaded_pools
        &&& later.loaded_pointers == self.loaded_pointers
        &&& later.fixup_offset == self.fixup_offset
        &&& later.vtbl_list == self.vtbl_list
        &&& later.string_list == self.string_list
        &&& later.external_list@.len() == self.external_list@.len()
        &&& later.named_external_list == self.named_external_list
        &&& later.named_handle_list@.len() == self.named_handle_list@.len()
        &&& later.read_dependencies == self.read_dependencies
        &&& later.thumbnails == self.thumbnails
        &&& later.runtime_fields == self.runtime_fields
        &&& later.offset_object_list == self.offset_object_list
        &&& later.use_name_list == self.use_name_list
    }

    /// The state at the start of a load.
    pub fn new(header: IgzHeader, read_dependencies: bool) -> (ctx: IgzLoaderContext)
        ensures
            ctx.version == header.version,
            ctx.meta_object_version == header.meta_object_version,
            ctx.platform == header.platform,
            ctx.fixup_count == header.fixup_count,
            ctx.section_count == 0,
            ctx.fixup_offset == 0,
            forall|i: int| 0 <= i < 32 ==> ctx.loaded_pools@[i] == igMemoryPool::Default,
            forall|i: int| 0 <= i < 32 ==> ctx.loaded_pointers@[i] == 0,
            ctx.vtbl_list@.len() == 0,
            ctx.string_list@.len() == 0,
            ctx.external_list@.len() == 0,
            ctx.named_external_list@.len() == 0,
            ctx.named_handle_list@.len() == 0,
            ctx.read_dependencies == read_dependencies,
            ctx.thumbnails@.len() == 0,
            ctx.runtime_fields.wf(),
            ctx.runtime_fields.vtables@.len() == 0,
            ctx.offset_object_list@ == Map::<u64, igObject>::empty(),
            !ctx.use_name_list,
    {
        IgzLoaderContext {
            version: header.version,
            meta_object_version: header.meta_object_version,
            platform: header.platform,
            section_count: 0,
            fixup_count: header.fixup_count,
            loaded_pools: [igMemoryPool::Default;32],
            loaded_pointers: [0u32;32],
            fixup_offset: 0,
            vtbl_list: Vec::new(),
            string_list: Vec::new(),
            external_list: Vec::new(),
            named_external_list: Vec::new(),
            named_handle_list: Vec::new(),
            read_dependencies,
            thumbnails: Vec::new(),
            runtime_fields: RuntimeFields::new(),
            offset_object_list: HashMap::new(),
            use_name_list: false,
        }
    }

    /// The section that a serialized offset lies in.
    pub open spec fn spec_section_of(&self, offset: u64) -> u64 {
        offset >> spec_offset_shift(self.version)
    }

    /// The position in the file that a serialized offset stands for: the
    /// start of its section plus its distance within the section. An offset
    /// whose section is none of the 32 stands for nothing.
    pub open spec fn spec_deserialize_offset(&self, offset: u64) -> Option<u64> {
        if self.spec_section_of(offset) < 32 {
            Some(
                (self.loaded_pointers@[self.spec_section_of(offset) as int] + (offset
                    & spec_offset_mask(self.version))) as u64,
            )
        } else {
            None
        }
    }

    /// The pool of the section that a serialized offset lies in.
    pub open spec fn spec_pool_of(&self, offset: u64) -> Option<igMemoryPool> {
        if self.spec_section_of(offset) < 32 {
            Some(self.loaded_pools@[self.spec_section_of(offset) as int])
        } else {
            None
        }
    }

    /// The position in the file that a serialized offset stands for.
    pub fn deserialize_offset(&self, offset: u64) -> (position: Option<u64>)
        ensures
            position == self.spec_deserialize_offset(offset),
    {
        if self.version <= 6 {
            let section: u64 = offset >> 0x18;
            let within: u64 = offset & 0x00FF_FFFF;
            assert(within <= 0x00FF_FFFF) by (bit_vector)
                requires
                    within == offset & 0x00FF_FFFF,
            ;
            if section < 32 {
                Some(self.loaded_pointers[section as usize] as u64 + within)
            } else {
                None
            }
        } else {
            let section: u64 = offset >> 0x1B;
            let within: u64 = offset & 0x07FF_FFFF;
            assert(within <= 0x07FF_FFFF) by (bit_vector)
                requires
                    within == offset & 0x07FF_FFFF,
            ;
            if section < 32 {
                Some(self.loaded_pointers[section as usize] as u64 + within)
            } else {
                None
            }
        }
    }

    /// The pool of the section that a serialized offset lies in.
    pub fn get_pool_from_serialized_offset(&self, offset: u64) -> (pool: Option<igMemoryPool>)
        ensures
            pool == self.spec_pool_of(offset),
    {
        let section: u64 = if self.version <= 6 {
            offset >> 0x18
        } else {
            offset >> 0x1B
        };
        if section < 32 {
            Some(self.loaded_pools[section as usize])
        } else {
            None
        }
    }
}

/// The pool of the section that a serialized offset lies in.
pub fn get_mem_pool_from_serialized_offset(ctx: &IgzLoaderContext, offset: u64) -> (pool: Option<
    igMemoryPool,
>)
    ensures
        pool == ctx.spec_pool_of(offset),
{
    ctx.get_pool_from_serialized_offset(offset)
}

/// Position of the first offset, at or after `from`, whose section is none
/// of the 32; the number of offsets when every one has a section.
pub open spec fn spec_first_unplaced(ctx: IgzLoaderContext, raw: Seq<u32>, from: int) -> int
    decreases raw.len() - from,
{
    if from < 0 || from >= raw.len() {
        raw.len() as int
    } else if ctx.spec_deserialize_offset(raw[from] as u64).is_none() {
        from
    } else {
        spec_first_unplaced(ctx, raw, from + 1)
    }
}

/// What a packed stream decodes to in the context of a load.
///
/// The offsets of the stream are taken as they are, or, with `deserialize`,
/// turned into positions in the file. The stream must be well formed, and
/// with `deserialize` every offset must lie in one of the 32 sections.
pub open spec fn spec_unpack_compressed_ints(
    ctx: IgzLoaderContext,
    bytes: Seq<u8>,
    count: u32,
    deserialize: bool,
) -> Result<Seq<u64>, igLoadError> {
    match spec_unpack(bytes, ctx.version, count as nat) {
        Err(e) => Err(spec_from_packed_error(e)),
        Ok(raw) => if !deserialize {
            Ok(Seq::new(raw.len(), |i: int| raw[i] as u64))
        } else if spec_first_unplaced(ctx, raw, 0) < raw.len() {
            Err(igLoadError::BadIndex)
        } else {
            Ok(Seq::new(raw.len(), |i: int| ctx.spec_deserialize_offset(raw[i] as u64)->0))
        },
    }
}

/// Decodes the first `count` offsets of a packed stream.
pub fn unpack_compressed_ints(ctx: &IgzLoaderContext, bytes: &[u8], count: u32, deserialize: bool)
    -> (r: Result<Vec<u64>, igLoadError>)
    ensures
        match r {
            Ok(out) => spec_unpack_compressed_ints(*ctx, bytes@, count, deserialize) == Ok::<
                Seq<u64>,
                igLoadError,
            >(out@),
            Err(e) => spec_unpack_compressed_ints(*ctx, bytes@, count, deserialize) == Err::<
                Seq<u64>,
                igLoadError,
            >(e),
        },
{
    let raw = match unpack_offsets(bytes, count, ctx.version) {
        Ok(raw) => raw,
        Err(e) => {
            return Err(from_packed_error(e));
        },
    };
    let mut out: Vec<u64> = Vec::new();
    let mut i: usize = 0;
    while i < raw.len()
        invariant
            i <= raw.len(),
            out@.len() == i,
            spec_unpack(bytes@, ctx.version, count as nat) == Ok::<Seq<u32>, PackedIntError>(raw@),
            deserialize ==> spec_first_unplaced(*ctx, raw@, 0) == spec_first_unplaced(
                *ctx,
                raw@,
                i as int,
            ),
            forall|j: int|
                0 <= j < i ==> out@[j] == (if deserialize {
                    ctx.spec_deserialize_offset(raw@[j] as u64)->0
                } else {
                    raw@[j] as u64
                }),
        decreases raw.len() - i,
    {
        let value: u64 = raw[i] as u64;
        if deserialize {
            match ctx.deserialize_offset(value) {
                Some(position) => out.push(position),
                None => {
                    return Err(igLoadError::BadIndex);
                },
            }
        } else {
            out.push(value);
        }
        i = i + 1;
    }
    proof {
        assert(out@ =~= spec_unpack_compressed_ints(*ctx, bytes@, count, deserialize)->Ok_0);
    }
    Ok(out)
}

/// What the section table says: the mathematical form of the part of the
/// load state that `parse_sections` fills.
pub struct IgzSections {
    pub loaded_pools: Seq<igMemoryPool>,
    pub loaded_pointers: Seq<u32>,
    pub fixup_offset: u32,
    pub fixup_count: u32,
    pub section_count: u32,
}

impl IgzLoaderContext {
    /// The part of the state that the section table fills.
    pub open spec fn spec_sections(&self) -> IgzSections {
        IgzSections {
            loaded_pools: self.loaded_pools@,
            loaded_pointers: self.loaded_pointers@,
            fixup_offset: self.fixup_offset,
            fixup_count: self.fixup_count,
            section_count: self.section_count,
        }
    }
}

/// Offset field of entry `i` of the section table.
pub open spec fn spec_section_offset(bytes: Seq<u8>, endian: Endian, version: u32, i: int) -> u32 {
    spec_uint(bytes, spec_chunk_descriptor_start(version)->0 + 16 * i + 4, 4, endian) as u32
}

/// Name pointer of entry `i` of the section table.
pub open spec fn spec_section_name_ptr(bytes: Seq<u8>, endian: Endian, version: u32, i: int)
    -> u32 {
    spec_uint(bytes, spec_chunk_descriptor_start(version)->0 + 16 * i, 4, endian) as u32
}

/// Where the name of section `i` starts.
pub open spec fn spec_section_name_at(bytes: Seq<u8>, endian: Endian, version: u32, i: int)
    -> int {
    spec_attribute_location(version)->0 + spec_section_name_ptr(bytes, endian, version, i)
}

/// The section table from entry `i` on, given what the entries before it
/// brought.
///
/// Entries are 16 bytes: name pointer, offset, length and alignment. The
/// first entry with offset zero ends the table; the number of data sections
/// is the number of entries before it, less the first, which locates the
/// fixups. Every entry names a pool, which must exist. Entry `i > 0` fills
/// pool and base pointer `i - 1`. Up to version 6 the number of fixups
/// stands 16 bytes behind the start of the first section.
pub open spec fn spec_parse_sections(
    bytes: Seq<u8>,
    endian: Endian,
    version: u32,
    i: nat,
    acc: IgzSections,
) -> Result<IgzSections, igLoadError>
    decreases 32 - i,
{
    let at = spec_chunk_descriptor_start(version)->0 + 16 * i;
    let offset = spec_section_offset(bytes, endian, version, i as int);
    let name_at = spec_section_name_at(bytes, endian, version, i as int);
    if i >= 32 {
        Ok(IgzSections { section_count: 31, ..acc })
    } else if at + 16 > bytes.len() {
        Err(igLoadError::UnexpectedEof)
    } else if offset == 0 {
        Ok(
            IgzSections {
                section_count: if i == 0 {
                    0
                } else {
                    (i - 1) as u32
                },
                ..acc
            },
        )
    } else if i == 0 && version <= 6 && offset + 0x14 > bytes.len() {
        Err(igLoadError::UnexpectedEof)
    } else if name_at >= bytes.len() || spec_terminator(bytes, name_at) >= bytes.len() {
        Err(igLoadError::UnexpectedEof)
    } else if spec_pool_from_name(spec_text(bytes, name_at, spec_terminator(bytes, name_at)))
        .is_none() {
        Err(igLoadError::UnknownPool)
    } else if i == 0 {
        spec_parse_sections(
            bytes,
            endian,
            version,
            i + 1,
            IgzSections {
                fixup_offset: offset,
                fixup_count: if version <= 6 {
                    spec_uint(bytes, offset + 0x10, 4, endian) as u32
                } else {
                    acc.fixup_count
                },
                ..acc
            },
        )
    } else {
        spec_parse_sections(
            bytes,
            endian,
            version,
            i + 1,
            IgzSections {
                loaded_pools: acc.loaded_pools.update(
                    i - 1,
                    spec_pool_from_name(
                        spec_text(bytes, name_at, spec_terminator(bytes, name_at)),
                    )->0,
                ),
                loaded_pointers: acc.loaded_pointers.update(i - 1, offset),
                ..acc
            },
        )
    }
}

/// A table whose second entry has offset zero brings no data section: the
/// count is zero and no pool or base pointer is set.
pub proof fn lemma_no_data_sections(bytes: Seq<u8>, endian: Endian, version: u32, acc: IgzSections)
    requires
        spec_parse_sections(bytes, endian, version, 0, acc) is Ok,
        spec_section_offset(bytes, endian, version, 0) == 0 || spec_section_offset(
            bytes,
            endian,
            version,
            1,
        ) == 0,
    ensures
        spec_parse_sections(bytes, endian, version, 0, acc)->Ok_0.section_count == 0,
        spec_parse_sections(bytes, endian, version, 0, acc)->Ok_0.loaded_pools == acc.loaded_pools,
        spec_parse_sections(bytes, endian, version, 0, acc)->Ok_0.loaded_pointers
            == acc.loaded_pointers,
{
    reveal_with_fuel(spec_parse_sections, 3);
}

impl igIGZLoader {
    /// Reads the section table into the load state.
    ///
    /// On success the state holds what `spec_parse_sections` says, and
    /// everything else is as before. On failure the error is the one that
    /// `spec_parse_sections` names.
    pub fn parse_sections(
        handle: &mut ByteCursor,
        endian: Endian,
        shared_state: &mut IgzLoaderContext,
    ) -> (r: Result<(), igLoadError>)
        requires
            5 <= old(shared_state).version <= 9,
        ensures
            final(handle).data == old(handle).data,
            final(shared_state).version == old(shared_state).version,
            final(shared_state).meta_object_version == old(shared_state).meta_object_version,
            final(shared_state).platform == old(shared_state).platform,
            final(shared_state).vtbl_list == old(shared_state).vtbl_list,
            final(shared_state).string_list == old(shared_state).string_list,
            final(shared_state).external_list == old(shared_state).external_list,
            final(shared_state).named_external_list == old(shared_state).named_external_list,
            final(shared_state).named_handle_list == old(shared_state).named_handle_list,
            final(shared_state).read_dependencies == old(shared_state).read_dependencies,
            final(shared_state).thumbnails == old(shared_state).thumbnails,
            final(shared_state).runtime_fields == old(shared_state).runtime_fields,
            final(shared_state).offset_object_list == old(shared_state).offset_object_list,
            final(shared_state).use_name_list == old(shared_state).use_name_list,
            match r {
                Ok(_) => spec_parse_sections(
                    old(handle).data@,
                    endian,
                    old(shared_state).version,
                    0,
                    old(shared_state).spec_sections(),
                ) == Ok::<IgzSections, igLoadError>(final(shared_state).spec_sections()),
                Err(e) => spec_parse_sections(
                    old(handle).data@,
                    endian,
                    old(shared_state).version,
                    0,
                    old(shared_state).spec_sections(),
                ) == Err::<IgzSections, igLoadError>(e),
            },
    {
        let version: u32 = shared_state.version;
        let start: u64 = match get_chunk_descriptor_start(version) {
            Some(s) => s,
            None => {
                return Err(igLoadError::UnsupportedVersion);
            },
        };
        let attributes: u32 = match get_attribute_location(version) {
            Some(a) => a,
            None => {
                return Err(igLoadError::UnsupportedVersion);
            },
        };
        let ghost bytes = handle.data@;
        let ghost target = spec_parse_sections(
            bytes,
            endian,
            version,
            0,
            shared_state.spec_sections(),
        );
        let mut i: usize = 0;
        while i < 32
            invariant
                i <= 32,
                5 <= version <= 9,
                version == shared_state.version,
                version == old(shared_state).version,
                target == spec_parse_sections(
                    old(handle).data@,
                    endian,
                    old(shared_state).version,
                    0,
                    old(shared_state).spec_sections(),
                ),
                start == spec_chunk_descriptor_start(version)->0,
                attributes == spec_attribute_location(version)->0,
                handle.data == old(handle).data,
                bytes == handle.data@,
                target == spec_parse_sections(
                    bytes,
                    endian,
                    version,
                    i as nat,
                    shared_state.spec_sections(),
                ),
                shared_state.meta_object_version == old(shared_state).meta_object_version,
                shared_state.platform == old(shared_state).platform,
                shared_state.vtbl_list == old(shared_state).vtbl_list,
                shared_state.string_list == old(shared_state).string_list,
                shared_state.external_list == old(shared_state).external_list,
                shared_state.named_external_list == old(shared_state).named_external_list,
                shared_state.named_handle_list == old(shared_state).named_handle_list,
                shared_state.read_dependencies == old(shared_state).read_dependencies,
                shared_state.thumbnails == old(shared_state).thumbnails,
                shared_state.runtime_fields == old(shared_state).runtime_fields,
                shared_state.offset_object_list == old(shared_state).offset_object_list,
                shared_state.use_name_list == old(shared_state).use_name_list,
            decreases 32 - i,
        {
            let at: u64 = start + 16 * (i as u64);
            handle.set_position(at);
            if handle.remaining() < 16 {
                return Err(igLoadError::UnexpectedEof);
            }
            proof {
                crate::util::byteorder_fixes::lemma_uint_bound(bytes, at as int, 4, endian);
                crate::util::byteorder_fixes::lemma_uint_bound(bytes, at + 4, 4, endian);
            }
            let name_ptr: u32 = match read_u32(handle, endian) {
                Ok(v) => v,
                Err(_) => {
                    return Err(igLoadError::UnexpectedEof);
                },
            };
            let offset: u32 = match read_u32(handle, endian) {
                Ok(v) => v,
                Err(_) => {
                    return Err(igLoadError::UnexpectedEof);
                },
            };
            if offset == 0 {
                shared_state.section_count = if i == 0 {
                    0
                } else {
                    (i - 1) as u32
                };
                return Ok(());
            }
            let mut fixup_count: u32 = shared_state.fixup_count;
            if i == 0 && version <= 6 {
                handle.set_position(offset as u64 + 0x10);
                proof {
                    crate::util::byteorder_fixes::lemma_uint_bound(bytes, offset + 0x10, 4, endian);
                }
                fixup_count = match read_u32(handle, endian) {
                    Ok(v) => v,
                    Err(_) => {
                        return Err(igLoadError::UnexpectedEof);
                    },
                };
            }
            handle.set_position(attributes as u64 + name_ptr as u64);
            let memory_pool_name = match read_string(handle) {
                Ok(name) => name,
                Err(_) => {
                    return Err(igLoadError::UnexpectedEof);
                },
            };
            let pool = match igMemoryPool::from_str(memory_pool_name.as_str()) {
                Some(pool) => pool,
                None => {
                    return Err(igLoadError::UnknownPool);
                },
            };
            if i > 0 {
                shared_state.loaded_pools[i - 1] = pool;
                shared_state.loaded_pointers[i - 1] = offset;
            } else {
                shared_state.fixup_offset = offset;
                shared_state.fixup_count = fixup_count;
            }
            i = i + 1;
        }
        shared_state.section_count = 31;
        Ok(())
    }
}

/// Number of bytes of the header of a fixup.
pub open spec fn spec_fixup_header_len(legacy: bool) -> int {
    if legacy {
        24
    } else {
        16
    }
}

/// The length of the fixup whose header stands at `at`.
pub open spec fn spec_fixup_length(data: Seq<u8>, at: int, legacy: bool, endian: Endian) -> u32 {
    spec_uint(
        data,
        at + (if legacy {
            16int
        } else {
            8int
        }),
        4,
        endian,
    ) as u32
}

/// How far behind the start of the fixups the header of fixup `i` stands:
/// behind the fixups before it, each as long as its header says.
pub open spec fn spec_fixup_distance(
    data: Seq<u8>,
    fixup_offset: u32,
    legacy: bool,
    endian: Endian,
    i: nat,
) -> int
    decreases i,
{
    if i == 0 {
        if legacy {
            0x1C
        } else {
            0
        }
    } else {
        spec_fixup_distance(data, fixup_offset, legacy, endian, (i - 1) as nat)
            + spec_fixup_length(
            data,
            fixup_offset + spec_fixup_distance(data, fixup_offset, legacy, endian, (i - 1) as nat),
            legacy,
            endian,
        )
    }
}

/// Whether the file holds the headers of the first `n` fixups.
pub open spec fn spec_fixup_headers_held(
    data: Seq<u8>,
    fixup_offset: u32,
    legacy: bool,
    endian: Endian,
    n: nat,
) -> bool
    decreases n,
{
    n == 0 || (spec_fixup_headers_held(data, fixup_offset, legacy, endian, (n - 1) as nat)
        && fixup_offset + spec_fixup_distance(data, fixup_offset, legacy, endian, (n - 1) as nat)
        + spec_fixup_header_len(legacy) <= data.len())
}

/// What the header of the fixup at position `at` says: the kind of the
/// fixup, where its tag is known, and its count, its length and the
/// distance of its payload.
pub open spec fn spec_fixup_header(data: Seq<u8>, at: int, legacy: bool, endian: Endian) -> (
    Option<Fixup>,
    u32,
    u32,
    u32,
) {
    if legacy {
        (
            spec_fixup_from_id((spec_uint(data, at, 4, endian) % 256) as u8),
            spec_uint(data, at + 12, 4, endian) as u32,
            spec_uint(data, at + 16, 4, endian) as u32,
            spec_uint(data, at + 20, 4, endian) as u32,
        )
    } else {
        (
            spec_fixup_from_magic(spec_uint(data, at, 4, endian) as u32),
            spec_uint(data, at + 4, 4, endian) as u32,
            spec_uint(data, at + 8, 4, endian) as u32,
            spec_uint(data, at + 12, 4, endian) as u32,
        )
    }
}

/// The result of a fixup that was applied or passed over: the walk goes on
/// unless the end of the fixup lies beyond every position.
pub open spec fn spec_fixup_passed(distance: int, length: u32) -> Result<(), igLoadError> {
    if distance + length > u64::MAX {
        Err(igLoadError::UnexpectedEof)
    } else {
        Ok(())
    }
}

/// What the walk does at the fixup whose header stands `distance` bytes
/// behind the start of the fixups.
///
/// A header that the file does not hold, and a payload beyond every
/// position, end the walk with `UnexpectedEof` and change nothing. A fixup
/// with an unknown tag is passed over and changes nothing. Every other
/// fixup is applied at its payload as `spec_fix_applied` says, and its error
/// is the error of the walk.
#[verifier::opaque]
pub open spec fn spec_fixup_stepped(
    imm: &igMetadataManager,
    data: Seq<u8>,
    endian: Endian,
    legacy: bool,
    dir: igObjectDirectoryId,
    fixup_offset: u32,
    distance: int,
    before: &IgzLoaderContext,
    after: &IgzLoaderContext,
    mgr_before: &igObjectStreamManager,
    mgr_after: &igObjectStreamManager,
    handles_before: &igObjectHandleManager,
    handles_after: &igObjectHandleManager,
    r: Result<(), igLoadError>,
) -> bool {
    let at = fixup_offset + distance;
    let header = spec_fixup_header(data, at, legacy, endian);
    let kept = *after == *before && *mgr_after == *mgr_before && *handles_after
        == *handles_before;
    if at + spec_fixup_header_len(legacy) > data.len() || at + header.3 > u64::MAX {
        kept && r == Err::<(), igLoadError>(igLoadError::UnexpectedEof)
    } else {
        match header.0 {
            None => kept && r == spec_fixup_passed(distance, header.2),
            Some(kind) => exists|end: int, applied: Result<(), igLoadError>| #[trigger]
                spec_fix_applied(
                    kind,
                    imm,
                    data,
                    at + header.3,
                    endian,
                    header.2,
                    header.3,
                    header.1,
                    dir,
                    before,
                    after,
                    mgr_before,
                    mgr_after,
                    handles_before,
                    handles_after,
                    end,
                    applied,
                ) && r == (match applied {
                    Err(e) => Err::<(), igLoadError>(e),
                    Ok(_) => spec_fixup_passed(distance, header.2),
                }),
        }
    }
}

/// What the walk over the fixups changes: the state of the load, the store
/// and the handle table.
pub struct igWalkState {
    pub ctx: IgzLoaderContext,
    pub store: igObjectStreamManager,
    pub handles: igObjectHandleManager,
}

/// Whether the step from state `i` to the next of `states` is a step of
/// the walk that succeeded, at fixup `i` of the table.
pub open spec fn spec_chain_link(
    imm: &igMetadataManager,
    data: Seq<u8>,
    endian: Endian,
    legacy: bool,
    dir: igObjectDirectoryId,
    fixup_offset: u32,
    states: Seq<igWalkState>,
    i: int,
) -> bool {
    spec_fixup_stepped(
        imm,
        data,
        endian,
        legacy,
        dir,
        fixup_offset,
        spec_fixup_distance(data, fixup_offset, legacy, endian, i as nat),
        &states[i].ctx,
        &states[i + 1].ctx,
        &states[i].store,
        &states[i + 1].store,
        &states[i].handles,
        &states[i + 1].handles,
        Ok(()),
    )
}

/// Whether `states` are the states that a walk over at most `n` fixups
/// passes through, from fixup to fixup, with the result `r`: every step is
/// as `spec_fixup_stepped` says, every step but the last succeeds, and the
/// last has the result of the walk. A walk that succeeds has taken all `n`
/// steps; one that fails ends at the fixup that failed.
pub open spec fn spec_walk_chain(
    imm: &igMetadataManager,
    data: Seq<u8>,
    endian: Endian,
    legacy: bool,
    dir: igObjectDirectoryId,
    fixup_offset: u32,
    n: nat,
    states: Seq<igWalkState>,
    r: Result<(), igLoadError>,
) -> bool {
    &&& 1 <= states.len() <= n + 1
    &&& r.is_ok() ==> states.len() == n + 1
    &&& r.is_err() ==> states.len() >= 2
    &&& forall|i: int|
        0 <= i < states.len() - 2 ==> #[trigger] spec_chain_link(
            imm,
            data,
            endian,
            legacy,
            dir,
            fixup_offset,
            states,
            i,
        )
    &&& states.len() >= 2 ==> spec_fixup_stepped(
        imm,
        data,
        endian,
        legacy,
        dir,
        fixup_offset,
        spec_fixup_distance(data, fixup_offset, legacy, endian, (states.len() - 2) as nat),
        &states[states.len() - 2].ctx,
        &states[states.len() - 1].ctx,
        &states[states.len() - 2].store,
        &states[states.len() - 1].store,
        &states[states.len() - 2].handles,
        &states[states.len() - 1].handles,
        r,
    )
}

/// What the walk over the `n` fixups of the table does: it takes the state
/// of the load, the store and the handle table from `before` to `after`,
/// fixup by fixup in the order of the file, and ends with the error of the
/// first fixup that fails.
pub open spec fn spec_fixups_walked(
    imm: &igMetadataManager,
    data: Seq<u8>,
    endian: Endian,
    legacy: bool,
    dir: igObjectDirectoryId,
    fixup_offset: u32,
    n: nat,
    before: igWalkState,
    after: igWalkState,
    r: Result<(), igLoadError>,
) -> bool {
    exists|states: Seq<igWalkState>| #[trigger]
        spec_walk_chain(imm, data, endian, legacy, dir, fixup_offset, n, states, r)
            && states.first() == before && states.last() == after
}

/// The states that a walk has passed through, and the state in which its
/// last step ended, are the states of a walk with the result of that step,
/// where the step failed or was the last of the table.
pub proof fn lemma_chain_ends(
    imm: &igMetadataManager,
    data: Seq<u8>,
    endian: Endian,
    legacy: bool,
    dir: igObjectDirectoryId,
    fixup_offset: u32,
    n: nat,
    known: Seq<igWalkState>,
    last: igWalkState,
    r: Result<(), igLoadError>,
)
    requires
        1 <= known.len() <= n,
        r.is_ok() ==> known.len() == n,
        forall|j: int|
            0 <= j < known.len() - 1 ==> #[trigger] spec_chain_link(
                imm,
                data,
                endian,
                legacy,
                dir,
                fixup_offset,
                known,
                j,
            ),
        spec_fixup_stepped(
            imm,
            data,
            endian,
            legacy,
            dir,
            fixup_offset,
            spec_fixup_distance(data, fixup_offset, legacy, endian, (known.len() - 1) as nat),
            &known.last().ctx,
            &last.ctx,
            &known.last().store,
            &last.store,
            &known.last().handles,
            &last.handles,
            r,
        ),
    ensures
        spec_walk_chain(imm, data, endian, legacy, dir, fixup_offset, n, known.push(last), r),
{
    let states = known.push(last);
    assert forall|i: int| 0 <= i < states.len() - 2 implies #[trigger] spec_chain_link(
        imm,
        data,
        endian,
        legacy,
        dir,
        fixup_offset,
        states,
        i,
    ) by {
        assert(states[i] == known[i] && states[i + 1] == known[i + 1]);
        assert(spec_chain_link(imm, data, endian, legacy, dir, fixup_offset, known, i));
    }
    assert(states[states.len() - 2] == known.last());
}

/// A walk that has succeeded so far goes on from the state it has reached.
pub proof fn lemma_chain_grows(
    imm: &igMetadataManager,
    data: Seq<u8>,
    endian: Endian,
    legacy: bool,
    dir: igObjectDirectoryId,
    fixup_offset: u32,
    known: Seq<igWalkState>,
    last: igWalkState,
)
    requires
        1 <= known.len(),
        forall|j: int|
            0 <= j < known.len() - 1 ==> #[trigger] spec_chain_link(
                imm,
                data,
                endian,
                legacy,
                dir,
                fixup_offset,
                known,
                j,
            ),
        spec_fixup_stepped(
            imm,
            data,
            endian,
            legacy,
            dir,
            fixup_offset,
            spec_fixup_distance(data, fixup_offset, legacy, endian, (known.len() - 1) as nat),
            &known.last().ctx,
            &last.ctx,
            &known.last().store,
            &last.store,
            &known.last().handles,
            &last.handles,
            Ok(()),
        ),
    ensures
        forall|j: int|
            0 <= j < known.len() ==> #[trigger] spec_chain_link(
                imm,
                data,
                endian,
                legacy,
                dir,
                fixup_offset,
                known.push(last),
                j,
            ),
{
    let states = known.push(last);
    assert forall|j: int| 0 <= j < known.len() implies #[trigger] spec_chain_link(
        imm,
        data,
        endian,
        legacy,
        dir,
        fixup_offset,
        states,
        j,
    ) by {
        if j < known.len() - 1 {
            assert(states[j] == known[j] && states[j + 1] == known[j + 1]);
            assert(spec_chain_link(imm, data, endian, legacy, dir, fixup_offset, known, j));
        } else {
            assert(states[j] == known.last() && states[j + 1] == last);
        }
    }
}

/// A table that holds one type fixup without entries, in the newer layout,
/// is walked without an error, and the walk leaves the type table, the
/// recorded objects, the store and the handle table as they were.
pub proof fn lemma_empty_type_fixup(
    imm: &igMetadataManager,
    data: Seq<u8>,
    endian: Endian,
    dir: igObjectDirectoryId,
    fixup_offset: u32,
    before: igWalkState,
    after: igWalkState,
    r: Result<(), igLoadError>,
)
    requires
        fixup_offset + 16 <= data.len(),
        spec_fixup_header(data, fixup_offset as int, false, endian).0 == Some(Fixup::T_METADATA),
        spec_fixup_header(data, fixup_offset as int, false, endian).1 == 0,
        spec_fixups_walked(imm, data, endian, false, dir, fixup_offset, 1, before, after, r),
    ensures
        r.is_ok(),
        after.ctx.vtbl_list@ == before.ctx.vtbl_list@,
        after.ctx.offset_object_list == before.ctx.offset_object_list,
        after.ctx.runtime_fields.vtables == before.ctx.runtime_fields.vtables,
        after.store == before.store,
        after.handles == before.handles,
{
    let states = choose|states: Seq<igWalkState>| #[trigger]
        spec_walk_chain(imm, data, endian, false, dir, fixup_offset, 1, states, r)
            && states.first() == before && states.last() == after;
    assert(states.len() == 2);
    assert(states[0] == before && states[1] == after);
    assert(spec_fixup_distance(data, fixup_offset, false, endian, 0) == 0);
    reveal(spec_fixup_stepped);
    reveal(spec_fix_applied);
    assert(after.ctx.vtbl_list@ =~= before.ctx.vtbl_list@);
}

/// The result of a step of the walk that ended with `r`.
pub open spec fn spec_step_result(r: Result<u64, igLoadError>) -> Result<(), igLoadError> {
    match r {
        Ok(_) => Ok(()),
        Err(e) => Err(e),
    }
}

impl igIGZLoader {
    /// Walks the fixup table of a container of version 7 or later and
    /// applies every fixup in the order of the file.
    ///
    /// A fixup starts with its tag, the number of its entries, its length and
    /// the length of its header; its payload starts behind the header and
    /// the next fixup behind its end. A fixup with an unknown tag is passed
    /// over. The walk fails with `UnexpectedEof` where the file ends inside a
    /// fixup header, and with the error of the first fixup that fails.
    pub fn process_modern_fixup_sections<H: igHostStorage>(
        host: &H,
        handle: &mut ByteCursor,
        endian: Endian,
        shared_state: &mut IgzLoaderContext,
        ig_file_context: &igFileContext,
        ig_registry: &igRegistry,
        ig_object_stream_manager: &mut igObjectStreamManager,
        ig_ext_ref_system: &igExternalReferenceSystem,
        ig_object_handle_manager: &mut igObjectHandleManager,
        imm: &igMetadataManager,
        dir: igObjectDirectoryId,
    ) -> (r: Result<(), igLoadError>)
        requires
            old(ig_object_stream_manager).wf(),
            old(shared_state).runtime_fields.wf(),
            dir < old(ig_object_stream_manager).directories@.len(),
            !old(ig_object_stream_manager).directories@[dir as int].use_name_list,
            spec_objects_known(
                old(shared_state),
                old(ig_object_stream_manager),
                old(handle).data@,
                endian,
                dir,
            ),
        ensures
            final(handle).data == old(handle).data,
            spec_store_kept(old(ig_object_stream_manager), final(ig_object_stream_manager), dir),
            spec_header_kept(old(shared_state), final(shared_state)),
            r.is_ok() ==> spec_objects_known(
                final(shared_state),
                final(ig_object_stream_manager),
                old(handle).data@,
                endian,
                dir,
            ),
            final(shared_state).runtime_fields.wf(),
            old(shared_state).fixup_count == 0
                ==> r.is_ok()
                && *final(shared_state) == *old(shared_state)
                && *final(ig_object_stream_manager) == *old(ig_object_stream_manager)
                && *final(ig_object_handle_manager) == *old(ig_object_handle_manager),
            r.is_ok() ==> spec_fixup_headers_held(
                old(handle).data@,
                old(shared_state).fixup_offset,
                false,
                endian,
                old(shared_state).fixup_count as nat,
            ),
            spec_fixups_walked(
                imm,
                old(handle).data@,
                endian,
                false,
                dir,
                old(shared_state).fixup_offset,
                old(shared_state).fixup_count as nat,
                (igWalkState {
                    ctx: *old(shared_state),
                    store: *old(ig_object_stream_manager),
                    handles: *old(ig_object_handle_manager),
                }),
                (igWalkState {
                    ctx: *final(shared_state),
                    store: *final(ig_object_stream_manager),
                    handles: *final(ig_object_handle_manager),
                }),
                r,
            ),
        decreases old(ig_object_stream_manager).spec_room(), 5int,
    {
        igIGZLoader::process_fixup_sections(
            host,
            handle,
            endian,
            shared_state,
            ig_file_context,
            ig_registry,
            ig_object_stream_manager,
            ig_ext_ref_system,
            ig_object_handle_manager,
            imm,
            dir,
            false,
        )
    }

    /// Walks the fixup table of a container of version 6 or earlier and
    /// applies every fixup in the order of the file.
    ///
    /// The table starts behind a preamble of 28 bytes. A fixup starts with a
    /// number whose low byte names its kind, two numbers that are not used,
    /// the number of its entries, its length and the length of its header.
    /// A fixup of a kind that is not assigned is passed over.
    pub fn process_legacy_fixup_sections<H: igHostStorage>(
        host: &H,
        handle: &mut ByteCursor,
        endian: Endian,
        shared_state: &mut IgzLoaderContext,
        ig_file_context: &igFileContext,
        ig_registry: &igRegistry,
        ig_object_stream_manager: &mut igObjectStreamManager,
        ig_ext_ref_system: &igExternalReferenceSystem,
        ig_object_handle_manager: &mut igObjectHandleManager,
        imm: &igMetadataManager,
        dir: igObjectDirectoryId,
    ) -> (r: Result<(), igLoadError>)
        requires
            old(ig_object_stream_manager).wf(),
            old(shared_state).runtime_fields.wf(),
            dir < old(ig_object_stream_manager).directories@.len(),
            !old(ig_object_stream_manager).directories@[dir as int].use_name_list,
            spec_objects_known(
                old(shared_state),
                old(ig_object_stream_manager),
                old(handle).data@,
                endian,
                dir,
            ),
        ensures
            final(handle).data == old(handle).data,
            spec_store_kept(old(ig_object_stream_manager), final(ig_object_stream_manager), dir),
            spec_header_kept(old(shared_state), final(shared_state)),
            r.is_ok() ==> spec_objects_known(
                final(shared_state),
                final(ig_object_stream_manager),
                old(handle).data@,
                endian,
                dir,
            ),
            final(shared_state).runtime_fields.wf(),
            old(shared_state).fixup_count == 0
                ==> r.is_ok()
                && *final(shared_state) == *old(shared_state)
                && *final(ig_object_stream_manager) == *old(ig_object_stream_manager)
                && *final(ig_object_handle_manager) == *old(ig_object_handle_manager),
            r.is_ok() ==> spec_fixup_headers_held(
                old(handle).data@,
                old(shared_state).fixup_offset,
                true,
                endian,
                old(shared_state).fixup_count as nat,
            ),
            spec_fixups_walked(
                imm,
                old(handle).data@,
                endian,
                true,
                dir,
                old(shared_state).fixup_offset,
                old(shared_state).fixup_count as nat,
                (igWalkState {
                    ctx: *old(shared_state),
                    store: *old(ig_object_stream_manager),
                    handles: *old(ig_object_handle_manager),
                }),
                (igWalkState {
                    ctx: *final(shared_state),
                    store: *final(ig_object_stream_manager),
                    handles: *final(ig_object_handle_manager),
                }),
                r,
            ),
        decreases old(ig_object_stream_manager).spec_room(), 5int,
    {
        igIGZLoader::process_fixup_sections(
            host,
            handle,
            endian,
            shared_state,
            ig_file_context,
            ig_registry,
            ig_object_stream_manager,
            ig_ext_ref_system,
            ig_object_handle_manager,
            imm,
            dir,
            true,
        )
    }

    /// Reads the header of one fixup at the cursor: its kind, if known, the
    /// number of its entries, its length and the length of its header.
    pub fn read_fixup_header(handle: &mut ByteCursor, endian: Endian, legacy: bool) -> (r: Option<
        (Option<Fixup>, u32, u32, u32),
    >)
        ensures
            final(handle).data == old(handle).data,
            r.is_some() <==> old(handle).spec_remaining() >= (if legacy {
                24int
            } else {
                16int
            }),
            r matches Some((fixup, count, length, start)) ==> {
                let at = old(handle).position as int;
                let data = old(handle).data@;
                if legacy {
                    &&& fixup == spec_fixup_from_id((spec_uint(data, at, 4, endian) % 256) as u8)
                    &&& count == spec_uint(data, at + 12, 4, endian)
                    &&& length == spec_uint(data, at + 16, 4, endian)
                    &&& start == spec_uint(data, at + 20, 4, endian)
                } else {
                    &&& fixup == spec_fixup_from_magic(spec_uint(data, at, 4, endian) as u32)
                    &&& count == spec_uint(data, at + 4, 4, endian)
                    &&& length == spec_uint(data, at + 8, 4, endian)
                    &&& start == spec_uint(data, at + 12, 4, endian)
                }
            },
    {
        let needed: usize = if legacy {
            24
        } else {
            16
        };
        if handle.remaining() < needed {
            return None;
        }
        proof {
            let at = handle.position as int;
            crate::util::byteorder_fixes::lemma_uint_bound(handle.data@, at, 4, endian);
            crate::util::byteorder_fixes::lemma_uint_bound(handle.data@, at + 4, 4, endian);
            crate::util::byteorder_fixes::lemma_uint_bound(handle.data@, at + 8, 4, endian);
            crate::util::byteorder_fixes::lemma_uint_bound(handle.data@, at + 12, 4, endian);
            crate::util::byteorder_fixes::lemma_uint_bound(handle.data@, at + 16, 4, endian);
            crate::util::byteorder_fixes::lemma_uint_bound(handle.data@, at + 20, 4, endian);
        }
        let magic = match read_u32(handle, endian) {
            Ok(v) => v,
            Err(_) => {
                return None;
            },
        };
        if legacy {
            let _padding = read_u32(handle, endian);
            let _padding = read_u32(handle, endian);
        }
        let count = match read_u32(handle, endian) {
            Ok(v) => v,
            Err(_) => {
                return None;
            },
        };
        let length = match read_u32(handle, endian) {
            Ok(v) => v,
            Err(_) => {
                return None;
            },
        };
        let start = match read_u32(handle, endian) {
            Ok(v) => v,
            Err(_) => {
                return None;
            },
        };
        let fixup = if legacy {
            Fixup::try_from_id((magic % 256) as u8)
        } else {
            Fixup::try_from(magic)
        };
        Some((fixup, count, length, start))
    }

    /// Applies the fixup whose header stands `distance` bytes behind the
    /// start of the fixups, and tells where the header of the next fixup
    /// stands.
    ///
    /// The header is read, and the fixup is applied at its payload; one with
    /// an unknown tag is passed over. The step fails with `UnexpectedEof`
    /// where the file does not hold the header, and with the error of the
    /// fixup where that fails.
    pub fn process_fixup<H: igHostStorage>(
        host: &H,
        handle: &mut ByteCursor,
        endian: Endian,
        shared_state: &mut IgzLoaderContext,
        ig_file_context: &igFileContext,
        ig_registry: &igRegistry,
        ig_object_stream_manager: &mut igObjectStreamManager,
        ig_ext_ref_system: &igExternalReferenceSystem,
        ig_object_handle_manager: &mut igObjectHandleManager,
        imm: &igMetadataManager,
        dir: igObjectDirectoryId,
        legacy: bool,
        distance: u64,
    ) -> (r: Result<u64, igLoadError>)
        requires
            old(ig_object_stream_manager).wf(),
            old(shared_state).runtime_fields.wf(),
            dir < old(ig_object_stream_manager).directories@.len(),
            !old(ig_object_stream_manager).directories@[dir as int].use_name_list,
            spec_objects_known(
                old(shared_state),
                old(ig_object_stream_manager),
                old(handle).data@,
                endian,
                dir,
            ),
        ensures
            final(handle).data == old(handle).data,
            spec_store_kept(old(ig_object_stream_manager), final(ig_object_stream_manager), dir),
            spec_header_kept(old(shared_state), final(shared_state)),
            final(shared_state).runtime_fields.wf(),
            r.is_ok() ==> spec_objects_known(
                final(shared_state),
                final(ig_object_stream_manager),
                old(handle).data@,
                endian,
                dir,
            ),
            spec_fixup_stepped(
                imm,
                old(handle).data@,
                endian,
                legacy,
                dir,
                old(shared_state).fixup_offset,
                distance as int,
                old(shared_state),
                final(shared_state),
                old(ig_object_stream_manager),
                final(ig_object_stream_manager),
                old(ig_object_handle_manager),
                final(ig_object_handle_manager),
                spec_step_result(r),
            ),
            r matches Ok(next) ==> old(shared_state).fixup_offset + distance
                + spec_fixup_header_len(legacy) <= old(handle).data@.len() && next == distance
                + spec_fixup_length(
                old(handle).data@,
                old(shared_state).fixup_offset + distance,
                legacy,
                endian,
            ),
        decreases old(ig_object_stream_manager).spec_room(), 3int,
    {
        let ghost data = handle.data@;
        proof {
            reveal(spec_fixup_stepped);
            assert(handle.data@.len() == handle.data.len());
            lemma_progress_reflexive(
                ig_object_stream_manager,
                dir as int,
                ig_object_stream_manager.objects@.len() as int,
            );
        }
        let at: u64 = match distance.checked_add(shared_state.fixup_offset as u64) {
            Some(at) => at,
            None => {
                return Err(igLoadError::UnexpectedEof);
            },
        };
        handle.set_position(at);
        let (fixup, count, length, start) = match igIGZLoader::read_fixup_header(
            handle,
            endian,
            legacy,
        ) {
            Some(header) => header,
            None => {
                return Err(igLoadError::UnexpectedEof);
            },
        };
        proof {
            crate::util::byteorder_fixes::lemma_uint_bound(data, at as int, 4, endian);
            crate::util::byteorder_fixes::lemma_uint_bound(data, at + 4, 4, endian);
            crate::util::byteorder_fixes::lemma_uint_bound(data, at + 8, 4, endian);
            crate::util::byteorder_fixes::lemma_uint_bound(data, at + 12, 4, endian);
            crate::util::byteorder_fixes::lemma_uint_bound(data, at + 16, 4, endian);
            crate::util::byteorder_fixes::lemma_uint_bound(data, at + 20, 4, endian);
        }
        assert((fixup, count, length, start) == spec_fixup_header(data, at as int, legacy, endian));
        match at.checked_add(start as u64) {
            Some(payload) => handle.set_position(payload),
            None => {
                return Err(igLoadError::UnexpectedEof);
            },
        }
        match fixup {
            Some(fixup) => {
                proof {
                    ig_object_stream_manager.lemma_room();
                }
                let applied = fixup.fix(
                    host,
                    handle,
                    endian,
                    imm,
                    length,
                    start,
                    count,
                    dir,
                    ig_file_context,
                    ig_registry,
                    ig_object_stream_manager,
                    ig_ext_ref_system,
                    ig_object_handle_manager,
                    shared_state,
                );
                match applied {
                    Ok(_) => {},
                    Err(e) => {
                        return Err(e);
                    },
                }
            },
            None => {},
        }
        match distance.checked_add(length as u64) {
            Some(next) => Ok(next),
            None => Err(igLoadError::UnexpectedEof),
        }
    }

    /// Walks the fixup table in either dialect.
    pub fn process_fixup_sections<H: igHostStorage>(
        host: &H,
        handle: &mut ByteCursor,
        endian: Endian,
        shared_state: &mut IgzLoaderContext,
        ig_file_context: &igFileContext,
        ig_registry: &igRegistry,
        ig_object_stream_manager: &mut igObjectStreamManager,
        ig_ext_ref_system: &igExternalReferenceSystem,
        ig_object_handle_manager: &mut igObjectHandleManager,
        imm: &igMetadataManager,
        dir: igObjectDirectoryId,
        legacy: bool,
    ) -> (r: Result<(), igLoadError>)
        requires
            old(ig_object_stream_manager).wf(),
            old(shared_state).runtime_fields.wf(),
            dir < old(ig_object_stream_manager).directories@.len(),
            !old(ig_object_stream_manager).directories@[dir as int].use_name_list,
            spec_objects_known(
                old(shared_state),
                old(ig_object_stream_manager),
                old(handle).data@,
                endian,
                dir,
            ),
        ensures
            final(handle).data == old(handle).data,
            spec_store_kept(old(ig_object_stream_manager), final(ig_object_stream_manager), dir),
            spec_header_kept(old(shared_state), final(shared_state)),
            r.is_ok() ==> spec_objects_known(
                final(shared_state),
                final(ig_object_stream_manager),
                old(handle).data@,
                endian,
                dir,
            ),
            final(shared_state).runtime_fields.wf(),
            old(shared_state).fixup_count == 0
                ==> r.is_ok()
                && *final(shared_state) == *old(shared_state)
                && *final(ig_object_stream_manager) == *old(ig_object_stream_manager)
                && *final(ig_object_handle_manager) == *old(ig_object_handle_manager),
            r.is_ok() ==> spec_fixup_headers_held(
                old(handle).data@,
                old(shared_state).fixup_offset,
                legacy,
                endian,
                old(shared_state).fixup_count as nat,
            ),
            spec_fixups_walked(
                imm,
                old(handle).data@,
                endian,
                legacy,
                dir,
                old(shared_state).fixup_offset,
                old(shared_state).fixup_count as nat,
                (igWalkState {
                    ctx: *old(shared_state),
                    store: *old(ig_object_stream_manager),
                    handles: *old(ig_object_handle_manager),
                }),
                (igWalkState {
                    ctx: *final(shared_state),
                    store: *final(ig_object_stream_manager),
                    handles: *final(ig_object_handle_manager),
                }),
                r,
            ),
        decreases old(ig_object_stream_manager).spec_room(), 4int,
    {
        let ghost start_mgr = *ig_object_stream_manager;
        let ghost data = handle.data@;
        let ghost offset = shared_state.fixup_offset;
        let ghost mut states: Seq<igWalkState> = seq![
            (igWalkState {
                ctx: *shared_state,
                store: *ig_object_stream_manager,
                handles: *ig_object_handle_manager,
            }),
        ];
        proof {
            lemma_progress_reflexive(
                ig_object_stream_manager,
                dir as int,
                ig_object_stream_manager.objects@.len() as int,
            );
        }
        let mut bytes_processed: u64 = if legacy {
            0x1C
        } else {
            0
        };
        let fixup_count: u32 = shared_state.fixup_count;
        let mut i: u32 = 0;
        while i < fixup_count
            invariant
                i <= fixup_count,
                fixup_count == old(shared_state).fixup_count,
                handle.data == old(handle).data,
                data == handle.data@,
                offset == old(shared_state).fixup_offset,
                start_mgr == *old(ig_object_stream_manager),
                ig_object_stream_manager.wf(),
                start_mgr.spec_progress(
                    ig_object_stream_manager,
                    dir as int,
                    start_mgr.objects@.len() as int,
                ),
                dir < ig_object_stream_manager.directories@.len(),
                !ig_object_stream_manager.directories@[dir as int].use_name_list,
                spec_header_kept(old(shared_state), shared_state),
                shared_state.runtime_fields.wf(),
                i == 0 ==> *shared_state == *old(shared_state) && *ig_object_stream_manager
                    == start_mgr && *ig_object_handle_manager == *old(ig_object_handle_manager),
                bytes_processed == spec_fixup_distance(data, offset, legacy, endian, i as nat),
                spec_fixup_headers_held(data, offset, legacy, endian, i as nat),
                spec_objects_known(shared_state, ig_object_stream_manager, data, endian, dir),
                states.len() == i + 1,
                states[0] == (igWalkState {
                    ctx: *old(shared_state),
                    store: *old(ig_object_stream_manager),
                    handles: *old(ig_object_handle_manager),
                }),
                states[i as int] == (igWalkState {
                    ctx: *shared_state,
                    store: *ig_object_stream_manager,
                    handles: *ig_object_handle_manager,
                }),
                i == fixup_count ==> spec_walk_chain(
                    imm,
                    data,
                    endian,
                    legacy,
                    dir,
                    offset,
                    fixup_count as nat,
                    states,
                    Ok(()),
                ),
                forall|j: int|
                    0 <= j < i ==> #[trigger] spec_chain_link(
                        imm,
                        data,
                        endian,
                        legacy,
                        dir,
                        offset,
                        states,
                        j,
                    ),
            decreases fixup_count - i,
        {
            let ghost known = states;
            let ghost mgr_before = *ig_object_stream_manager;
            proof {
                ig_object_stream_manager.lemma_room();
            }
            let stepped = igIGZLoader::process_fixup(
                host,
                handle,
                endian,
                shared_state,
                ig_file_context,
                ig_registry,
                ig_object_stream_manager,
                ig_ext_ref_system,
                ig_object_handle_manager,
                imm,
                dir,
                legacy,
                bytes_processed,
            );
            let ghost last = igWalkState {
                ctx: *shared_state,
                store: *ig_object_stream_manager,
                handles: *ig_object_handle_manager,
            };
            proof {
                lemma_progress_weaken(
                    &mgr_before,
                    ig_object_stream_manager,
                    dir as int,
                    mgr_before.objects@.len() as int,
                    start_mgr.objects@.len() as int,
                );
                lemma_progress_transitive(
                    &start_mgr,
                    &mgr_before,
                    ig_object_stream_manager,
                    dir as int,
                    start_mgr.objects@.len() as int,
                );
                if stepped.is_err() || i + 1 == fixup_count {
                    lemma_chain_ends(
                        imm,
                        data,
                        endian,
                        legacy,
                        dir,
                        offset,
                        fixup_count as nat,
                        known,
                        last,
                        spec_step_result(stepped),
                    );
                }
                if stepped.is_ok() {
                    lemma_chain_grows(imm, data, endian, legacy, dir, offset, known, last);
                }
                states = states.push(last);
            }
            bytes_processed = match stepped {
                Ok(next) => next,
                Err(e) => {
                    return Err(e);
                },
            };
            i = i + 1;
        }
        Ok(())
    }

    /// The field pass: decodes what every object of the load holds, in the
    /// order in which the type fixup listed the objects.
    ///
    /// Only objects that this load created, for the directory `dir` and at
    /// or behind position `first` of the store, are decoded; an offset
    /// without such an object fails the pass with `BadIndex`. Without
    /// objects the pass does nothing.
    pub fn read_objects(
        imm: &igMetadataManager,
        object_stream_manager: &mut igObjectStreamManager,
        handle: &mut ByteCursor,
        endian: Endian,
        ctx: &mut IgzLoaderContext,
        dir: igObjectDirectoryId,
        first: usize,
    ) -> (r: Result<(), igLoadError>)
        requires
            old(object_stream_manager).wf(),
            old(ctx).runtime_fields.wf(),
            dir < old(object_stream_manager).directories@.len(),
            !old(object_stream_manager).directories@[dir as int].use_name_list,
        ensures
            final(handle).data == old(handle).data,
            final(object_stream_manager).wf(),
            old(object_stream_manager).spec_progress(
                final(object_stream_manager),
                dir as int,
                first as int,
            ),
            final(object_stream_manager).directories == old(object_stream_manager).directories,
            final(object_stream_manager).objects@.len()
                == old(object_stream_manager).objects@.len(),
            old(ctx).spec_fields_decoded(final(ctx)),
            old(ctx).runtime_fields.vtables@.len() == 0
                ==> r.is_ok()
                && *final(object_stream_manager) == *old(object_stream_manager)
                && *final(ctx) == *old(ctx)
                && *final(handle) == *old(handle),
            match spec_pass_error(
                imm,
                old(ctx),
                old(object_stream_manager),
                old(handle).data@,
                endian,
                dir,
                first as int,
                old(ctx).runtime_fields.vtables@.len(),
            ) {
                Some(e) => r == Err::<(), igLoadError>(e),
                None => r.is_ok(),
            },
            r.is_ok() && spec_objects_recorded(old(ctx), old(object_stream_manager), dir)
                ==> spec_objects_decoded(
                imm,
                final(ctx),
                final(object_stream_manager),
                old(handle).data@,
                endian,
                old(ctx).runtime_fields.vtables@.len() as int,
            ),
    {
        let ghost start_mgr = *object_stream_manager;
        proof {
            lemma_progress_reflexive(object_stream_manager, dir as int, first as int);
        }
        let mut i: usize = 0;
        while i < ctx.runtime_fields.vtables.len()
            invariant
                i <= ctx.runtime_fields.vtables@.len(),
                handle.data == old(handle).data,
                start_mgr == *old(object_stream_manager),
                object_stream_manager.wf(),
                start_mgr.spec_progress(object_stream_manager, dir as int, first as int),
                object_stream_manager.directories == start_mgr.directories,
                object_stream_manager.objects@.len() == start_mgr.objects@.len(),
                dir < object_stream_manager.directories@.len(),
                !object_stream_manager.directories@[dir as int].use_name_list,
                old(ctx).spec_fields_decoded(ctx),
                ctx.runtime_fields.wf(),
                i == 0 ==> *object_stream_manager == start_mgr && *ctx == *old(ctx) && *handle
                    == *old(handle),
                spec_pass_error(
                    imm,
                    old(ctx),
                    old(object_stream_manager),
                    handle.data@,
                    endian,
                    dir,
                    first as int,
                    i as nat,
                ).is_none(),
                spec_objects_recorded(old(ctx), old(object_stream_manager), dir)
                    ==> spec_objects_decoded(
                    imm,
                    ctx,
                    object_stream_manager,
                    handle.data@,
                    endian,
                    i as int,
                ),
            decreases ctx.runtime_fields.vtables@.len() - i,
        {
            let offset: u64 = ctx.runtime_fields.vtables[i];
            proof {
                lemma_object_error_kept(
                    imm,
                    old(ctx),
                    old(object_stream_manager),
                    ctx,
                    object_stream_manager,
                    handle.data@,
                    endian,
                    dir,
                    first as int,
                    offset,
                );
                if spec_pass_error(
                    imm,
                    old(ctx),
                    old(object_stream_manager),
                    handle.data@,
                    endian,
                    dir,
                    first as int,
                    (i + 1) as nat,
                ) is Some {
                    lemma_pass_failed(
                        imm,
                        old(ctx),
                        old(object_stream_manager),
                        handle.data@,
                        endian,
                        dir,
                        first as int,
                        (i + 1) as nat,
                        ctx.runtime_fields.vtables@.len(),
                    );
                }
            }
            let object: usize = match ctx.offset_object_list.get(&offset) {
                Some(object) => *object,
                None => {
                    return Err(igLoadError::BadIndex);
                },
            };
            if object < first {
                return Err(igLoadError::BadIndex);
            }
            let position = match ctx.deserialize_offset(offset) {
                Some(position) => position,
                None => {
                    return Err(igLoadError::BadIndex);
                },
            };
            handle.set_position(position);
            let ghost mgr_before = *object_stream_manager;
            let ghost ctx_before = *ctx;
            let decoded = imm.read_igz_fields(
                object_stream_manager,
                handle,
                endian,
                ctx,
                object,
                dir,
            );
            proof {
                lemma_progress_reflexive(&mgr_before, dir as int, first as int);
                assert(mgr_before.spec_progress(object_stream_manager, dir as int, first as int));
                lemma_progress_transitive(
                    &start_mgr,
                    &mgr_before,
                    object_stream_manager,
                    dir as int,
                    first as int,
                );
            }
            match decoded {
                Ok(_) => {},
                Err(e) => {
                    return Err(e);
                },
            }
            proof {
                if spec_objects_recorded(old(ctx), old(object_stream_manager), dir) {
                    assert forall|k: int| 0 <= k < i + 1 implies {
                        let other = #[trigger] ctx.runtime_fields.vtables@[k];
                        let held = ctx.offset_object_list@[other];
                        &&& ctx.offset_object_list@.contains_key(other)
                        &&& ctx.spec_deserialize_offset(other).is_some()
                        &&& held < object_stream_manager.objects@.len()
                        &&& object_stream_manager.objects@[held as int].meta
                            < imm.meta_objects@.len()
                        &&& spec_content_decoded(
                            imm.meta_objects@[object_stream_manager.objects@[held as int].meta
                                as int],
                            handle.data@,
                            ctx.spec_deserialize_offset(other)->0 as int,
                            endian,
                            *ctx,
                            object_stream_manager.objects@[held as int].content,
                        )
                    } by {
                        let other = ctx.runtime_fields.vtables@[k];
                        let held = ctx.offset_object_list@[other];
                        if k < i {
                            assert(ctx_before.offset_object_list@.contains_key(
                                ctx_before.runtime_fields.vtables@[k],
                            ));
                        }
                        if held == object {
                            assert(other == offset);
                        } else {
                            assert(object_stream_manager.objects@[held as int]
                                == mgr_before.objects@[held as int]);
                        }
                        lemma_content_decoded_kept(
                            imm.meta_objects@[object_stream_manager.objects@[held as int].meta
                                as int],
                            handle.data@,
                            ctx.spec_deserialize_offset(other)->0 as int,
                            endian,
                            ctx_before,
                            *ctx,
                            object_stream_manager.objects@[held as int].content,
                        );
                    }
                }
            }
            i = i + 1;
        }
        Ok(())
    }

    /// Loads the container that `handle` holds into the directory `dir`.
    ///
    /// Header and section table are read, the fixups are applied in the
    /// order of the file, and then the field pass decodes the objects. At
    /// the end a container that names its root objects makes its directory
    /// do so, provided it brought one name for every root object; otherwise
    /// the load fails with `NameListMismatch`. Of what existed in the store
    /// only `dir` may have changed. A load that succeeds hands back the
    /// state it ended in.
    pub fn read_stream<H: igHostStorage>(
        host: &H,
        handle: &mut ByteCursor,
        ig_file_context: &igFileContext,
        ig_registry: &igRegistry,
        ig_object_stream_manager: &mut igObjectStreamManager,
        ig_ext_ref_system: &igExternalReferenceSystem,
        ig_object_handle_manager: &mut igObjectHandleManager,
        imm: &igMetadataManager,
        dir: igObjectDirectoryId,
        read_dependencies: bool,
    ) -> (r: Result<IgzLoaderContext, igLoadError>)
        requires
            old(handle).position == 0,
            old(ig_object_stream_manager).wf(),
            dir < old(ig_object_stream_manager).directories@.len(),
            !old(ig_object_stream_manager).directories@[dir as int].use_name_list,
        ensures
            final(handle).data == old(handle).data,
            final(ig_object_stream_manager).wf(),
            old(ig_object_stream_manager).spec_progress(
                final(ig_object_stream_manager),
                dir as int,
                old(ig_object_stream_manager).objects@.len() as int,
            ),
            spec_parse_head(old(handle).data@) is Err ==> r == Err::<
                IgzLoaderContext,
                igLoadError,
            >(spec_parse_head(old(handle).data@)->Err_0)
                && *final(ig_object_stream_manager) == *old(ig_object_stream_manager)
                && *final(ig_object_handle_manager) == *old(ig_object_handle_manager),
            spec_parse_head(old(handle).data@) is Ok && spec_parse_head(
                old(handle).data@,
            )->Ok_0.1.fixup_count == 0
                ==> r.is_ok()
                && *final(ig_object_stream_manager) == *old(ig_object_stream_manager)
                && *final(ig_object_handle_manager) == *old(ig_object_handle_manager),
            r.is_ok() ==> spec_stream_loaded(
                imm,
                &r->Ok_0,
                final(ig_object_stream_manager),
                old(handle).data@,
                dir,
                read_dependencies,
            ),
            spec_stream_read(
                imm,
                old(handle).data@,
                dir,
                read_dependencies,
                *old(ig_object_stream_manager),
                *old(ig_object_handle_manager),
                *final(ig_object_stream_manager),
                *final(ig_object_handle_manager),
                spec_unit_result(r),
            ),
        decreases old(ig_object_stream_manager).spec_room(), 6int,
    {
        proof {
            lemma_progress_reflexive(
                ig_object_stream_manager,
                dir as int,
                ig_object_stream_manager.objects@.len() as int,
            );
        }
        let first: usize = ig_object_stream_manager.objects.len();
        let header = match read_header(handle) {
            Ok(header) => header,
            Err(e) => {
                return Err(e);
            },
        };
        let mut shared_state = IgzLoaderContext::new(header, read_dependencies);
        assert(shared_state.spec_sections() =~= spec_empty_sections(header.fixup_count)) by {
            assert(shared_state.loaded_pools@ =~= Seq::new(32, |i: int| igMemoryPool::Default));
            assert(shared_state.loaded_pointers@ =~= Seq::new(32, |i: int| 0u32));
        }
        match igIGZLoader::parse_sections(handle, header.endian, &mut shared_state) {
            Ok(_) => {},
            Err(e) => {
                return Err(e);
            },
        }
        let ghost start_mgr = *ig_object_stream_manager;
        let ghost start_state = shared_state;
        assert(spec_load_start(&start_state, handle.data@, read_dependencies));
        let processed = if shared_state.version > 0x06 {
            igIGZLoader::process_modern_fixup_sections(
                host,
                handle,
                header.endian,
                &mut shared_state,
                ig_file_context,
                ig_registry,
                ig_object_stream_manager,
                ig_ext_ref_system,
                ig_object_handle_manager,
                imm,
                dir,
            )
        } else {
            igIGZLoader::process_legacy_fixup_sections(
                host,
                handle,
                header.endian,
                &mut shared_state,
                ig_file_context,
                ig_registry,
                ig_object_stream_manager,
                ig_ext_ref_system,
                ig_object_handle_manager,
                imm,
                dir,
            )
        };
        let ghost fixed_mgr = *ig_object_stream_manager;
        let ghost fixed_state = shared_state;
        let ghost fixed = igWalkState {
            ctx: shared_state,
            store: *ig_object_stream_manager,
            handles: *ig_object_handle_manager,
        };
        assert(header == spec_parse_head(handle.data@)->Ok_0.0);
        assert(spec_fixups_walked(
            imm,
            handle.data@,
            spec_parse_head(handle.data@)->Ok_0.0.endian,
            spec_is_legacy(spec_parse_head(handle.data@)->Ok_0.0.version),
            dir,
            start_state.fixup_offset,
            start_state.fixup_count as nat,
            (igWalkState {
                ctx: start_state,
                store: *old(ig_object_stream_manager),
                handles: *old(ig_object_handle_manager),
            }),
            fixed,
            processed,
        ));
        assert(spec_stream_walked(
            imm,
            handle.data@,
            dir,
            read_dependencies,
            *old(ig_object_stream_manager),
            *old(ig_object_handle_manager),
            fixed,
            processed,
        ));
        match processed {
            Ok(_) => {},
            Err(e) => {
                return Err(e);
            },
        }
        let decoded = igIGZLoader::read_objects(
            imm,
            ig_object_stream_manager,
            handle,
            header.endian,
            &mut shared_state,
            dir,
            first,
        );
        proof {
            lemma_progress_transitive(
                &start_mgr,
                &fixed_mgr,
                ig_object_stream_manager,
                dir as int,
                first as int,
            );
            assert(shared_state.vtbl_list@.subrange(0, fixed_state.vtbl_list@.len() as int)
                =~= fixed_state.vtbl_list@);
            lemma_objects_known_kept(
                &fixed_state,
                &shared_state,
                &fixed_mgr,
                ig_object_stream_manager,
                handle.data@,
                header.endian,
                dir,
                first as int,
            );
        }
        match decoded {
            Ok(_) => {},
            Err(e) => {
                return Err(e);
            },
        }
        if shared_state.use_name_list {
            let ghost decoded_mgr = *ig_object_stream_manager;
            let raised = ig_object_stream_manager.raise_use_name_list(dir);
            proof {
                lemma_progress_reflexive(&decoded_mgr, dir as int, first as int);
                assert(decoded_mgr.spec_progress(
                    ig_object_stream_manager,
                    dir as int,
                    first as int,
                ));
                lemma_progress_transitive(
                    &start_mgr,
                    &decoded_mgr,
                    ig_object_stream_manager,
                    dir as int,
                    first as int,
                );
                assert(shared_state.vtbl_list@.subrange(0, shared_state.vtbl_list@.len() as int)
                    =~= shared_state.vtbl_list@);
                lemma_objects_known_kept(
                    &shared_state,
                    &shared_state,
                    &decoded_mgr,
                    ig_object_stream_manager,
                    handle.data@,
                    header.endian,
                    dir,
                    first as int,
                );
            }
            assert(ig_object_stream_manager.spec_can_name(dir as int) == decoded_mgr.spec_can_name(
                dir as int,
            ));
            if !raised {
                return Err(igLoadError::NameListMismatch);
            }
        }
        assert(spec_stream_decoded(
            imm,
            fixed.ctx,
            *ig_object_stream_manager,
            handle.data@,
            dir,
            read_dependencies,
        )) by {
            assert(spec_stream_loaded(
                imm,
                &shared_state,
                ig_object_stream_manager,
                handle.data@,
                dir,
                read_dependencies,
            ));
        }
        Ok(shared_state)
    }

    /// Loads the container at `file_path` into the directory `dir`.
    ///
    /// The file is opened through the file context; a file that no processor
    /// produces fails the load with `FileNotFound`. What the file holds is
    /// then loaded as `read_stream` says.
    pub fn read<H: igHostStorage>(
        host: &H,
        ig_file_context: &igFileContext,
        ig_registry: &igRegistry,
        ig_object_stream_manager: &mut igObjectStreamManager,
        ig_ext_ref_system: &igExternalReferenceSystem,
        ig_object_handle_manager: &mut igObjectHandleManager,
        imm: &igMetadataManager,
        dir: igObjectDirectoryId,
        file_path: &str,
        read_dependencies: bool,
    ) -> (r: Result<(), igLoadError>)
        requires
            old(ig_object_stream_manager).wf(),
            dir < old(ig_object_stream_manager).directories@.len(),
            !old(ig_object_stream_manager).directories@[dir as int].use_name_list,
        ensures
            final(ig_object_stream_manager).wf(),
            old(ig_object_stream_manager).spec_progress(
                final(ig_object_stream_manager),
                dir as int,
                old(ig_object_stream_manager).objects@.len() as int,
            ),
            spec_archived_failure(ig_file_context, file_path@) matches Some(e) ==> r == Err::<
                (),
                igLoadError,
            >(e)
                && *final(ig_object_stream_manager) == *old(ig_object_stream_manager)
                && *final(ig_object_handle_manager) == *old(ig_object_handle_manager),
            spec_archived_without_fixups(ig_file_context, file_path@)
                ==> r.is_ok()
                && *final(ig_object_stream_manager) == *old(ig_object_stream_manager)
                && *final(ig_object_handle_manager) == *old(ig_object_handle_manager),
            spec_file_read(
                imm,
                ig_file_context,
                file_path@,
                dir,
                read_dependencies,
                *old(ig_object_stream_manager),
                *old(ig_object_handle_manager),
                *final(ig_object_stream_manager),
                *final(ig_object_handle_manager),
                r,
            ),
        decreases old(ig_object_stream_manager).spec_room(), 7int,
    {
        proof {
            lemma_progress_reflexive(
                ig_object_stream_manager,
                dir as int,
                ig_object_stream_manager.objects@.len() as int,
            );
        }
        let fd = ig_file_context.open(host, ig_registry, file_path, 0);
        let mut handle = match fd._handle {
            Some(handle) => handle,
            None => {
                return Err(igLoadError::FileNotFound);
            },
        };
        let ghost data = handle.data@;
        let loaded = igIGZLoader::read_stream(
            host,
            &mut handle,
            ig_file_context,
            ig_registry,
            ig_object_stream_manager,
            ig_ext_ref_system,
            ig_object_handle_manager,
            imm,
            dir,
            read_dependencies,
        );
        let r = match loaded {
            Ok(_) => Ok(()),
            Err(e) => Err(e),
        };
        assert(spec_stream_read(
            imm,
            data,
            dir,
            read_dependencies,
            *old(ig_object_stream_manager),
            *old(ig_object_handle_manager),
            *ig_object_stream_manager,
            *ig_object_handle_manager,
            r,
        ));
        r
    }
}

/// What the head of a container holds: its header and its table of
/// sections, or the error with which reading them ends.
pub open spec fn spec_parse_head(data: Seq<u8>) -> Result<(IgzHeader, IgzSections), igLoadError> {
    match spec_parse_header(data) {
        Err(e) => Err(e),
        Ok(header) => match spec_parse_sections(
            data,
            header.endian,
            header.version,
            0,
            spec_empty_sections(header.fixup_count),
        ) {
            Err(e) => Err(e),
            Ok(sections) => Ok((header, sections)),
        },
    }
}

/// Whether `ctx` is the state in which the fixups of the container `data`
/// are met: it holds what the head of the container says, and nothing
/// else yet.
pub open spec fn spec_load_start(ctx: &IgzLoaderContext, data: Seq<u8>, read_dependencies: bool)
    -> bool {
    &&& spec_parse_head(data) is Ok
    &&& ctx.version == spec_parse_head(data)->Ok_0.0.version
    &&& ctx.meta_object_version == spec_parse_head(data)->Ok_0.0.meta_object_version
    &&& ctx.platform == spec_parse_head(data)->Ok_0.0.platform
    &&& ctx.spec_sections() == spec_parse_head(data)->Ok_0.1
    &&& ctx.read_dependencies == read_dependencies
    &&& !ctx.use_name_list
    &&& ctx.vtbl_list@.len() == 0
    &&& ctx.string_list@.len() == 0
    &&& ctx.external_list@.len() == 0
    &&& ctx.named_external_list@.len() == 0
    &&& ctx.named_handle_list@.len() == 0
    &&& ctx.thumbnails@.len() == 0
    &&& ctx.runtime_fields.vtables@.len() == 0
    &&& ctx.runtime_fields.wf()
    &&& ctx.offset_object_list@ == Map::<u64, igObject>::empty()
}

/// Whether a container of version `version` has the older layout of
/// fixups.
pub open spec fn spec_is_legacy(version: u32) -> bool {
    version <= 6
}

/// Whether `fixed` and `walked` are the state and the result in which the
/// walk over the fixups of the container `data` ends, from the store
/// `store` and the handle table `handles` and from the state in which the
/// fixups are met.
pub open spec fn spec_stream_walked(
    imm: &igMetadataManager,
    data: Seq<u8>,
    dir: igObjectDirectoryId,
    read_dependencies: bool,
    store: igObjectStreamManager,
    handles: igObjectHandleManager,
    fixed: igWalkState,
    walked: Result<(), igLoadError>,
) -> bool {
    exists|start: IgzLoaderContext|
        spec_load_start(&start, data, read_dependencies) && #[trigger] spec_fixups_walked(
            imm,
            data,
            spec_parse_head(data)->Ok_0.0.endian,
            spec_is_legacy(spec_parse_head(data)->Ok_0.0.version),
            dir,
            start.fixup_offset,
            start.fixup_count as nat,
            (igWalkState { ctx: start, store, handles }),
            fixed,
            walked,
        )
}

/// The result of loading the container `data` once the walk over its
/// fixups has ended in `fixed` with `walked`: the error of the walk; else
/// the error of the field pass over the objects of `fixed`; else
/// `NameListMismatch` where the container names its root objects and did
/// not bring one name for each; else success.
pub open spec fn spec_stream_result(
    imm: &igMetadataManager,
    data: Seq<u8>,
    dir: igObjectDirectoryId,
    first: int,
    fixed: igWalkState,
    walked: Result<(), igLoadError>,
    can_name: bool,
) -> Result<(), igLoadError> {
    match walked {
        Err(e) => Err(e),
        Ok(_) => match spec_pass_error(
            imm,
            &fixed.ctx,
            &fixed.store,
            data,
            spec_parse_head(data)->Ok_0.0.endian,
            dir,
            first,
            fixed.ctx.runtime_fields.vtables@.len(),
        ) {
            Some(e) => Err(e),
            None => if fixed.ctx.use_name_list && !can_name {
                Err(igLoadError::NameListMismatch)
            } else {
                Ok(())
            },
        },
    }
}

/// Whether two results agree: both succeed, or both fail with the same
/// error.
pub open spec fn spec_same_outcome<T>(r: Result<T, igLoadError>, expected: Result<(), igLoadError>)
    -> bool {
    match expected {
        Ok(_) => r.is_ok(),
        Err(e) => r == Err::<T, igLoadError>(e),
    }
}

/// Whether the store `store` holds what the field pass made of the state
/// `fixed` of a load of the container `data`: a state that the pass reaches
/// from `fixed` is the state of a finished load.
pub open spec fn spec_stream_decoded(
    imm: &igMetadataManager,
    fixed: IgzLoaderContext,
    store: igObjectStreamManager,
    data: Seq<u8>,
    dir: igObjectDirectoryId,
    read_dependencies: bool,
) -> bool {
    exists|ctx: IgzLoaderContext| #[trigger]
        spec_stream_loaded(imm, &ctx, &store, data, dir, read_dependencies)
            && fixed.spec_fields_decoded(&ctx)
}

/// What loading the container `data` into directory `dir` does to the
/// store and the handle table, and with what result.
///
/// A head that cannot be read fails the load with its error, and nothing
/// changes. Otherwise the fixups are walked from the state in which they
/// are met, and the result is as `spec_stream_result` says. A walk that
/// fails leaves the store and the handle table as the walk left them; the
/// field pass leaves the handle table as the walk left it. After a load
/// that succeeds the directory names its root objects exactly when the
/// container does, and the store holds what `spec_stream_loaded` says.
pub open spec fn spec_stream_read(
    imm: &igMetadataManager,
    data: Seq<u8>,
    dir: igObjectDirectoryId,
    read_dependencies: bool,
    store_before: igObjectStreamManager,
    handles_before: igObjectHandleManager,
    store_after: igObjectStreamManager,
    handles_after: igObjectHandleManager,
    r: Result<(), igLoadError>,
) -> bool {
    match spec_parse_head(data) {
        Err(e) => r == Err::<(), igLoadError>(e) && store_after == store_before && handles_after
            == handles_before,
        Ok(_) => exists|fixed: igWalkState, walked: Result<(), igLoadError>| #[trigger]
            spec_stream_walked(
                imm,
                data,
                dir,
                read_dependencies,
                store_before,
                handles_before,
                fixed,
                walked,
            ) && spec_same_outcome(
                r,
                spec_stream_result(
                    imm,
                    data,
                    dir,
                    store_before.objects@.len() as int,
                    fixed,
                    walked,
                    store_after.spec_can_name(dir as int),
                ),
            ) && fixed.handles == handles_after && (walked.is_err() ==> fixed.store == store_after)
                && (r.is_ok() ==> store_after.directories@[dir as int].use_name_list
                == fixed.ctx.use_name_list && spec_stream_decoded(
                imm,
                fixed.ctx,
                store_after,
                data,
                dir,
                read_dependencies,
            )),
    }
}

/// What loading the container at `file_path` into directory `dir` does to
/// the store and the handle table, and with what result.
///
/// A file that no processor of the file system produces fails the load
/// with `FileNotFound`, and nothing changes. Every other load is the load
/// of the bytes that were produced, as `spec_stream_read` says; with no
/// update provider in front, a file that the archives hold is loaded from
/// the bytes that they hold.
pub open spec fn spec_file_read(
    imm: &igMetadataManager,
    ig_file_context: &igFileContext,
    file_path: Seq<char>,
    dir: igObjectDirectoryId,
    read_dependencies: bool,
    store_before: igObjectStreamManager,
    handles_before: igObjectHandleManager,
    store_after: igObjectStreamManager,
    handles_after: igObjectHandleManager,
    r: Result<(), igLoadError>,
) -> bool {
    let archived = ig_file_context.spec_served_from_archive(spec_interpret_path(file_path));
    if ig_file_context.update_provider.is_none() && archived.is_some() {
        spec_stream_read(
            imm,
            archived->0,
            dir,
            read_dependencies,
            store_before,
            handles_before,
            store_after,
            handles_after,
            r,
        )
    } else {
        (r == Err::<(), igLoadError>(igLoadError::FileNotFound) && store_after == store_before
            && handles_after == handles_before) || exists|data: Seq<u8>| #[trigger]
            spec_stream_read(
                imm,
                data,
                dir,
                read_dependencies,
                store_before,
                handles_before,
                store_after,
                handles_after,
                r,
            )
    }
}

/// What a load does depends on its result only as far as success and the
/// error go.
pub proof fn lemma_stream_read_outcome(
    imm: &igMetadataManager,
    data: Seq<u8>,
    dir: igObjectDirectoryId,
    read_dependencies: bool,
    store_before: igObjectStreamManager,
    handles_before: igObjectHandleManager,
    store_after: igObjectStreamManager,
    handles_after: igObjectHandleManager,
    a: Result<(), igLoadError>,
    b: Result<(), igLoadError>,
)
    requires
        spec_stream_read(
            imm,
            data,
            dir,
            read_dependencies,
            store_before,
            handles_before,
            store_after,
            handles_after,
            a,
        ),
        a.is_ok() == b.is_ok(),
        a.is_err() ==> a->Err_0 == b->Err_0,
    ensures
        spec_stream_read(
            imm,
            data,
            dir,
            read_dependencies,
            store_before,
            handles_before,
            store_after,
            handles_after,
            b,
        ),
{
    if spec_parse_head(data) is Ok {
        let (fixed, walked) = choose|fixed: igWalkState, walked: Result<(), igLoadError>| #[trigger]
            spec_stream_walked(
                imm,
                data,
                dir,
                read_dependencies,
                store_before,
                handles_before,
                fixed,
                walked,
            ) && spec_same_outcome(
                a,
                spec_stream_result(
                    imm,
                    data,
                    dir,
                    store_before.objects@.len() as int,
                    fixed,
                    walked,
                    store_after.spec_can_name(dir as int),
                ),
            ) && fixed.handles == handles_after && (walked.is_err() ==> fixed.store == store_after)
                && (a.is_ok() ==> store_after.directories@[dir as int].use_name_list
                == fixed.ctx.use_name_list && spec_stream_decoded(
                imm,
                fixed.ctx,
                store_after,
                data,
                dir,
                read_dependencies,
            ));
        assert(spec_stream_walked(
            imm,
            data,
            dir,
            read_dependencies,
            store_before,
            handles_before,
            fixed,
            walked,
        ));
    }
}

/// What a load of a file does depends on its result only as far as success
/// and the error go.
pub proof fn lemma_file_read_outcome(
    imm: &igMetadataManager,
    ig_file_context: &igFileContext,
    file_path: Seq<char>,
    dir: igObjectDirectoryId,
    read_dependencies: bool,
    store_before: igObjectStreamManager,
    handles_before: igObjectHandleManager,
    store_after: igObjectStreamManager,
    handles_after: igObjectHandleManager,
    a: Result<(), igLoadError>,
    b: Result<(), igLoadError>,
)
    requires
        spec_file_read(
            imm,
            ig_file_context,
            file_path,
            dir,
            read_dependencies,
            store_before,
            handles_before,
            store_after,
            handles_after,
            a,
        ),
        a.is_ok() == b.is_ok(),
        a.is_err() ==> a->Err_0 == b->Err_0,
    ensures
        spec_file_read(
            imm,
            ig_file_context,
            file_path,
            dir,
            read_dependencies,
            store_before,
            handles_before,
            store_after,
            handles_after,
            b,
        ),
{
    let archived = ig_file_context.spec_served_from_archive(spec_interpret_path(file_path));
    if ig_file_context.update_provider.is_none() && archived.is_some() {
        lemma_stream_read_outcome(
            imm,
            archived->0,
            dir,
            read_dependencies,
            store_before,
            handles_before,
            store_after,
            handles_after,
            a,
            b,
        );
    } else if !(a == Err::<(), igLoadError>(igLoadError::FileNotFound) && store_after
        == store_before && handles_after == handles_before) {
        let data = choose|data: Seq<u8>| #[trigger]
            spec_stream_read(
                imm,
                data,
                dir,
                read_dependencies,
                store_before,
                handles_before,
                store_after,
                handles_after,
                a,
            );
        lemma_stream_read_outcome(
            imm,
            data,
            dir,
            read_dependencies,
            store_before,
            handles_before,
            store_after,
            handles_after,
            a,
            b,
        );
    }
}

/// The result of a load without what it hands back.
pub open spec fn spec_unit_result<T>(r: Result<T, igLoadError>) -> Result<(), igLoadError> {
    match r {
        Ok(_) => Ok(()),
        Err(e) => Err(e),
    }
}

/// What holds when the container `data` has been loaded into directory
/// `dir`, of the state `ctx` in which the load ended and of the store.
///
/// The state holds what the head of the container says. Every fixup lay
/// within the file. Every object that the type fixup lists exists, belongs
/// to the directory, has the type that the file names and holds what that
/// type decodes to at the object's place. A container that names its root
/// objects has made its directory do so.
pub open spec fn spec_stream_loaded(
    imm: &igMetadataManager,
    ctx: &IgzLoaderContext,
    mgr: &igObjectStreamManager,
    data: Seq<u8>,
    dir: igObjectDirectoryId,
    read_dependencies: bool,
) -> bool {
    let header = spec_parse_head(data)->Ok_0.0;
    let sections = spec_parse_head(data)->Ok_0.1;
    &&& spec_parse_head(data) is Ok
    &&& ctx.version == header.version
    &&& ctx.meta_object_version == header.meta_object_version
    &&& ctx.platform == header.platform
    &&& ctx.spec_sections() == sections
    &&& ctx.read_dependencies == read_dependencies
    &&& ctx.runtime_fields.wf()
    &&& spec_fixup_headers_held(
        data,
        sections.fixup_offset,
        header.version <= 6,
        header.endian,
        sections.fixup_count as nat,
    )
    &&& spec_objects_known(ctx, mgr, data, header.endian, dir)
    &&& spec_objects_decoded(
        imm,
        ctx,
        mgr,
        data,
        header.endian,
        ctx.runtime_fields.vtables@.len() as int,
    )
    &&& dir < mgr.directories@.len()
    &&& mgr.directories@[dir as int].use_name_list == ctx.use_name_list
}

/// The error with which the field pass fails at the object of the
/// serialized offset `offset`, or `None` where the object is decoded.
///
/// An offset without an object, an object that this load did not create
/// (one before position `first` of the store, or of another directory), an
/// offset outside the sections and a type that is not registered give
/// `BadIndex`. Every other object fails as `spec_content_error` says of its
/// type at its place.
pub open spec fn spec_object_error(
    imm: &igMetadataManager,
    ctx: &IgzLoaderContext,
    mgr: &igObjectStreamManager,
    data: Seq<u8>,
    endian: Endian,
    dir: igObjectDirectoryId,
    first: int,
    offset: u64,
) -> Option<igLoadError> {
    let object = ctx.offset_object_list@[offset];
    if !ctx.offset_object_list@.contains_key(offset) || object < first
        || ctx.spec_deserialize_offset(offset).is_none() || object >= mgr.objects@.len()
        || mgr.objects@[object as int].owner != dir || mgr.objects@[object as int].meta
        >= imm.meta_objects@.len() {
        Some(igLoadError::BadIndex)
    } else {
        spec_content_error(
            imm.meta_objects@[mgr.objects@[object as int].meta as int],
            *ctx,
            *mgr,
            data,
            ctx.spec_deserialize_offset(offset)->0 as int,
            endian,
        )
    }
}

/// The error of the first of the first `n` objects of the type fixup at
/// which the field pass fails, or `None` where it decodes all of them.
pub open spec fn spec_pass_error(
    imm: &igMetadataManager,
    ctx: &IgzLoaderContext,
    mgr: &igObjectStreamManager,
    data: Seq<u8>,
    endian: Endian,
    dir: igObjectDirectoryId,
    first: int,
    n: nat,
) -> Option<igLoadError>
    decreases n,
{
    if n == 0 {
        None
    } else {
        match spec_pass_error(imm, ctx, mgr, data, endian, dir, first, (n - 1) as nat) {
            Some(e) => Some(e),
            None => spec_object_error(
                imm,
                ctx,
                mgr,
                data,
                endian,
                dir,
                first,
                ctx.runtime_fields.vtables@[n - 1],
            ),
        }
    }
}

/// An object that cannot be decoded ends the field pass with its error,
/// however many objects follow.
pub proof fn lemma_pass_failed(
    imm: &igMetadataManager,
    ctx: &IgzLoaderContext,
    mgr: &igObjectStreamManager,
    data: Seq<u8>,
    endian: Endian,
    dir: igObjectDirectoryId,
    first: int,
    n: nat,
    m: nat,
)
    requires
        n <= m,
        spec_pass_error(imm, ctx, mgr, data, endian, dir, first, n) is Some,
    ensures
        spec_pass_error(imm, ctx, mgr, data, endian, dir, first, m) == spec_pass_error(
            imm,
            ctx,
            mgr,
            data,
            endian,
            dir,
            first,
            n,
        ),
    decreases m,
{
    if n < m {
        lemma_pass_failed(imm, ctx, mgr, data, endian, dir, first, n, (m - 1) as nat);
    }
}

/// Whether the field pass can decode an object is the same at every moment
/// of the pass: decoding changes what objects hold and what handles have
/// resolved to, and neither decides it.
pub proof fn lemma_object_error_kept(
    imm: &igMetadataManager,
    before: &IgzLoaderContext,
    mgr_before: &igObjectStreamManager,
    after: &IgzLoaderContext,
    mgr_after: &igObjectStreamManager,
    data: Seq<u8>,
    endian: Endian,
    dir: igObjectDirectoryId,
    first: int,
    offset: u64,
)
    requires
        before.spec_fields_decoded(after),
        mgr_after.objects@.len() == mgr_before.objects@.len(),
        forall|i: int|
            0 <= i < mgr_before.objects@.len() ==> (#[trigger] mgr_after.objects@[i]).owner
                == mgr_before.objects@[i].owner && mgr_after.objects@[i].meta
                == mgr_before.objects@[i].meta,
    ensures
        spec_object_error(imm, after, mgr_after, data, endian, dir, first, offset)
            == spec_object_error(imm, before, mgr_before, data, endian, dir, first, offset),
{
    let object = before.offset_object_list@[offset];
    if before.offset_object_list@.contains_key(offset) && object < mgr_before.objects@.len()
        && mgr_before.objects@[object as int].meta < imm.meta_objects@.len() {
        assert(mgr_after.objects@[object as int].meta == mgr_before.objects@[object as int].meta);
        lemma_content_error_kept(
            imm.meta_objects@[mgr_before.objects@[object as int].meta as int],
            *before,
            *mgr_before,
            *after,
            *mgr_after,
            data,
            before.spec_deserialize_offset(offset)->0 as int,
            endian,
        );
    }
}

/// Whether the first `upto` objects that the type fixup lists hold what the
/// file says of them: each has its place in the file and its object, and
/// the object holds what its type decodes to at that place.
pub open spec fn spec_objects_decoded(
    imm: &igMetadataManager,
    ctx: &IgzLoaderContext,
    mgr: &igObjectStreamManager,
    data: Seq<u8>,
    endian: Endian,
    upto: int,
) -> bool {
    forall|k: int|
        0 <= k < upto ==> {
            let offset = #[trigger] ctx.runtime_fields.vtables@[k];
            let object = ctx.offset_object_list@[offset];
            &&& ctx.offset_object_list@.contains_key(offset)
            &&& ctx.spec_deserialize_offset(offset).is_some()
            &&& object < mgr.objects@.len()
            &&& mgr.objects@[object as int].meta < imm.meta_objects@.len()
            &&& spec_content_decoded(
                imm.meta_objects@[mgr.objects@[object as int].meta as int],
                data,
                ctx.spec_deserialize_offset(offset)->0 as int,
                endian,
                *ctx,
                mgr.objects@[object as int].content,
            )
        }
}

/// The error that a load of `file_path` is bound to end with, as far as the
/// archives alone decide it: with no update provider in front, a file that
/// the archives hold fails to load if its header or its section table
/// cannot be read.
pub open spec fn spec_archived_failure(ig_file_context: &igFileContext, file_path: Seq<char>)
    -> Option<igLoadError> {
    match ig_file_context.spec_served_from_archive(spec_interpret_path(file_path)) {
        Some(data) => match spec_parse_header(data) {
            Err(e) => Some(e),
            Ok(header) => match spec_parse_sections(
                data,
                header.endian,
                header.version,
                0,
                spec_empty_sections(header.fixup_count),
            ) {
                Err(e) => Some(e),
                Ok(_) => None,
            },
        },
        None => None,
    }
}

/// Whether the archives hold `file_path` as a container without fixups,
/// which loads to an empty directory.
pub open spec fn spec_archived_without_fixups(
    ig_file_context: &igFileContext,
    file_path: Seq<char>,
) -> bool {
    match ig_file_context.spec_served_from_archive(spec_interpret_path(file_path)) {
        Some(data) => match spec_parse_header(data) {
            Err(e) => false,
            Ok(header) => match spec_parse_sections(
                data,
                header.endian,
                header.version,
                0,
                spec_empty_sections(header.fixup_count),
            ) {
                Err(e) => false,
                Ok(sections) => sections.fixup_count == 0,
            },
        },
        None => false,
    }
}

/// The section state before the table is read: no pool, no base pointer,
/// and the number of fixups that the header gave.
pub open spec fn spec_empty_sections(fixup_count: u32) -> IgzSections {
    IgzSections {
        loaded_pools: Seq::new(32, |i: int| igMemoryPool::Default),
        loaded_pointers: Seq::new(32, |i: int| 0u32),
        fixup_offset: 0,
        fixup_count,
        section_count: 0,
    }
}

impl igIGZObjectLoader {
    /// Loads the container at `file_path` into the directory `dir`, with
    /// its dependencies.
    pub fn read_file<H: igHostStorage>(
        &self,
        host: &H,
        ig_file_context: &igFileContext,
        ig_registry: &igRegistry,
        ig_object_stream_manager: &mut igObjectStreamManager,
        ig_ext_ref_system: &igExternalReferenceSystem,
        ig_object_handle_manager: &mut igObjectHandleManager,
        ig_metadata_manager: &igMetadataManager,
        dir: igObjectDirectoryId,
        file_path: &str,
    ) -> (r: Result<(), igLoadError>)
        requires
            old(ig_object_stream_manager).wf(),
            dir < old(ig_object_stream_manager).directories@.len(),
            !old(ig_object_stream_manager).directories@[dir as int].use_name_list,
        ensures
            final(ig_object_stream_manager).wf(),
            old(ig_object_stream_manager).spec_progress(
                final(ig_object_stream_manager),
                dir as int,
                old(ig_object_stream_manager).objects@.len() as int,
            ),
            spec_archived_failure(ig_file_context, file_path@) matches Some(e) ==> r == Err::<
                (),
                igLoadError,
            >(e)
                && *final(ig_object_stream_manager) == *old(ig_object_stream_manager)
                && *final(ig_object_handle_manager) == *old(ig_object_handle_manager),
            spec_archived_without_fixups(ig_file_context, file_path@)
                ==> r.is_ok()
                && *final(ig_object_stream_manager) == *old(ig_object_stream_manager)
                && *final(ig_object_handle_manager) == *old(ig_object_handle_manager),
            spec_file_read(
                ig_metadata_manager,
                ig_file_context,
                file_path@,
                dir,
                true,
                *old(ig_object_stream_manager),
                *old(ig_object_handle_manager),
                *final(ig_object_stream_manager),
                *final(ig_object_handle_manager),
                r,
            ),
        decreases old(ig_object_stream_manager).spec_room(), 8int,
    {
        igIGZLoader::read(
            host,
            ig_file_context,
            ig_registry,
            ig_object_stream_manager,
            ig_ext_ref_system,
            ig_object_handle_manager,
            ig_metadata_manager,
            dir,
            file_path,
            true,
        )
    }
}

} // verus!
