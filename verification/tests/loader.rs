use ig_library::base::ig_core_platform::{Endian, IG_CORE_PLATFORM};
use ig_library::base::ig_memory::igMemoryPool;
use ig_library::base::ig_registry::igRegistry;
use ig_library::load::ig_igz_fixups::{
    fix_metadata, fix_option_named_list, fix_runtime_list, fix_string_list, fix_thumbnail,
    read_entry, read_runtime_list, take_dependency,
};
use ig_library::load::ig_igz_loader::{
    get_attribute_location, get_chunk_descriptor_start, get_mem_pool_from_serialized_offset,
    igIGZLoader, igIGZObjectLoader, read_header, unpack_compressed_ints, Fixup, IgzHeader,
    IgzLoaderContext, RuntimeFields,
};
use ig_library::load::ig_load_error::igLoadError;
use ig_library::load::ig_loader::{get_loader, igObjectLoader};
use ig_library::load::packed_ints::pack_offsets;
use ig_library::meta::ig_metadata_manager::{
    igMetaFieldInfo, igMetaFieldKind, igMetaObject, igMetaShape, igMetadataManager,
};
use ig_library::object::ig_external_ref::igExternalReferenceSystem;
use ig_library::object::ig_handle::igObjectHandleManager;
use ig_library::object::ig_objects::{igAny, igObjectContent, igObjectStreamManager, ObjectExt};
use ig_library::util::byteorder_fixes::ByteCursor;
use ig_library::util::ig_hash::{hash, hash_lower};
use ig_library::util::ig_name::igName;
use ig_library::vfs::ig_file_context::igFileContext;
use ig_library::vfs::ig_memory_storage::igMemoryStorage;

struct Fix {
    tag: [u8; 4],
    count: u32,
    payload: Vec<u8>,
}

fn put32(out: &mut Vec<u8>, at: usize, v: u32) {
    out[at..at + 4].copy_from_slice(&v.to_le_bytes());
}

fn strings(items: &[&str], even: bool) -> Vec<u8> {
    let mut out = Vec::new();
    for s in items {
        let start = out.len();
        out.extend_from_slice(s.as_bytes());
        out.push(0);
        if even && (out.len() - start) % 2 == 1 {
            out.push(0);
        }
    }
    out
}

/// A little-endian container of version 7 to 9 for the default platform:
/// header, section table, pool names, fixups at 0x800 and the data sections
/// behind them.
fn build(version: u32, fixups: &[Fix], sections: &[(&str, Vec<u8>)]) -> Vec<u8> {
    let attributes: usize = if version >= 8 { 0x224 } else { 0x56C };
    let fix_at: usize = 0x800;
    let mut fix_bytes: Vec<u8> = Vec::new();
    for f in fixups {
        fix_bytes.extend_from_slice(&f.tag);
        fix_bytes.extend_from_slice(&f.count.to_le_bytes());
        fix_bytes.extend_from_slice(&((16 + f.payload.len()) as u32).to_le_bytes());
        fix_bytes.extend_from_slice(&16u32.to_le_bytes());
        fix_bytes.extend_from_slice(&f.payload);
    }
    let mut data_at: usize = (fix_at + fix_bytes.len() + 15) / 16 * 16;
    let mut out = vec![0u8; data_at];
    out[0..4].copy_from_slice(&[0x01, 0x5A, 0x47, 0x49]);
    put32(&mut out, 4, version);
    put32(&mut out, 8, 0);
    put32(&mut out, 12, 0);
    put32(&mut out, 16, fixups.len() as u32);
    let mut names: Vec<u8> = b"Default\0".to_vec();
    put32(&mut out, 0x14, 0);
    put32(&mut out, 0x18, fix_at as u32);
    put32(&mut out, 0x1C, fix_bytes.len() as u32);
    put32(&mut out, 0x20, 4);
    for (i, (pool, data)) in sections.iter().enumerate() {
        let entry = 0x14 + 16 * (i + 1);
        put32(&mut out, entry, names.len() as u32);
        put32(&mut out, entry + 4, data_at as u32);
        put32(&mut out, entry + 8, data.len() as u32);
        put32(&mut out, entry + 12, 4);
        names.extend_from_slice(pool.as_bytes());
        names.push(0);
        out.extend_from_slice(data);
        while out.len() % 16 != 0 {
            out.push(0);
        }
        data_at = out.len();
    }
    out[attributes..attributes + names.len()].copy_from_slice(&names);
    out[fix_at..fix_at + fix_bytes.len()].copy_from_slice(&fix_bytes);
    out
}

fn registry_of_types() -> igMetadataManager {
    let mut imm = igMetadataManager::new();
    for (name, shape) in [
        ("igObjectList", igMetaShape::ObjectList),
        ("igNameList", igMetaShape::NameList),
        ("igStringRefList", igMetaShape::StringRefList),
    ] {
        imm.register(igMetaObject {
            name: name.to_string(),
            parent: None,
            shape,
            fields: Vec::new(),
        });
    }
    imm.register(igMetaObject {
        name: "igThing".to_string(),
        parent: None,
        shape: igMetaShape::Fields,
        fields: vec![
            igMetaFieldInfo { name: "_value".to_string(), kind: igMetaFieldKind::U32, offset: 4 },
            igMetaFieldInfo {
                name: "_other".to_string(),
                kind: igMetaFieldKind::ObjectRef,
                offset: 8,
            },
            igMetaFieldInfo {
                name: "_label".to_string(),
                kind: igMetaFieldKind::StringRef,
                offset: 12,
            },
            igMetaFieldInfo { name: "_small".to_string(), kind: igMetaFieldKind::I8, offset: 16 },
        ],
    });
    imm
}

struct World {
    host: igMemoryStorage,
    files: igFileContext,
    registry: igRegistry,
    mgr: igObjectStreamManager,
    refs: igExternalReferenceSystem,
    handles: igObjectHandleManager,
    imm: igMetadataManager,
}

fn world(files: Vec<(&str, Vec<u8>)>) -> World {
    let mut host = igMemoryStorage::new();
    for (path, data) in files {
        host.add_file(path, data);
    }
    World {
        host,
        files: igFileContext::new(String::new(), None),
        registry: igRegistry::new(IG_CORE_PLATFORM::IG_CORE_PLATFORM_DEFAULT),
        mgr: igObjectStreamManager::new(),
        refs: igExternalReferenceSystem::new(),
        handles: igObjectHandleManager::new(),
        imm: registry_of_types(),
    }
}

fn load(w: &mut World, path: &str) -> Result<usize, igLoadError> {
    w.mgr.load(&w.host, &w.files, &w.registry, &w.imm, &w.refs, &mut w.handles, path.to_string())
}

fn load_as(w: &mut World, path: &str, namespace: &str) -> Result<usize, igLoadError> {
    w.mgr.load_with_namespace(
        &w.host,
        &w.files,
        &w.registry,
        &w.imm,
        &w.refs,
        &mut w.handles,
        path.to_string(),
        igName::new(namespace.to_string()),
    )
}

/// Objects of the test container, in one data section:
///   0: igObjectList [-> object at 32]
///  16: igNameList ["alpha"]
///  32: igThing { _value: 0xDEADBEEF, _other: null, _label: "beta", _small: -2 }
fn thing_section() -> Vec<u8> {
    let mut d = vec![0u8; 52];
    put32(&mut d, 0, 0);
    put32(&mut d, 4, 1);
    put32(&mut d, 8, 32);
    put32(&mut d, 16, 1);
    put32(&mut d, 20, 1);
    put32(&mut d, 24, 0);
    put32(&mut d, 32, 3);
    put32(&mut d, 36, 0xDEAD_BEEF);
    put32(&mut d, 40, 0);
    put32(&mut d, 44, 1);
    d[48] = 0xFE;
    d
}

fn thing_container() -> Vec<u8> {
    build(
        9,
        &[
            Fix {
                tag: *b"TMET",
                count: 4,
                payload: strings(&["igObjectList", "igNameList", "igStringRefList", "igThing"], true),
            },
            Fix { tag: *b"TSTR", count: 2, payload: strings(&["alpha", "beta"], true) },
            Fix { tag: *b"RVTB", count: 3, payload: pack_offsets(&[0, 16, 32], 9).unwrap() },
            Fix { tag: *b"ROOT", count: 1, payload: pack_offsets(&[0], 9).unwrap() },
            Fix { tag: *b"ONAM", count: 1, payload: 16u32.to_le_bytes().to_vec() },
            Fix { tag: *b"ROFS", count: 1, payload: pack_offsets(&[8], 9).unwrap() },
        ],
        &[("Default", thing_section())],
    )
}

#[test]
fn minimal_v8_container() {
    let bytes = build(8, &[Fix { tag: *b"TMET", count: 0, payload: vec![] }], &[]);
    assert_eq!(&bytes[..20], &[
        0x01, 0x5A, 0x47, 0x49, 8, 0, 0, 0, 0, 0, 0, 0, 0, 0, 0, 0, 1, 0, 0, 0
    ]);
    let mut handle = ByteCursor::new(bytes);
    let header = read_header(&mut handle).expect("header");
    assert_eq!(header.version, 8);
    assert_eq!(header.endian, Endian::Little);
    assert_eq!(header.fixup_count, 1);
    assert_eq!(header.platform, IG_CORE_PLATFORM::IG_CORE_PLATFORM_DEFAULT);
    let mut ctx = IgzLoaderContext::new(header, true);
    assert_eq!(igIGZLoader::parse_sections(&mut handle, header.endian, &mut ctx), Ok(()));
    assert_eq!(ctx.section_count, 0);
    assert_eq!(ctx.fixup_offset, 0x800);
    assert_eq!(ctx.loaded_pointers, [0u32; 32]);
    assert_eq!(ctx.loaded_pools, [igMemoryPool::Default; 32]);

    let mut w = world(vec![]);
    let dir = w.mgr.push_dir("minimal.igz", igName::new("minimal.igz".to_string()));
    let before = w.mgr.objects.len();
    assert_eq!(
        igIGZLoader::process_modern_fixup_sections(
            &w.host,
            &mut handle,
            header.endian,
            &mut ctx,
            &w.files,
            &w.registry,
            &mut w.mgr,
            &w.refs,
            &mut w.handles,
            &w.imm,
            dir,
        ),
        Ok(())
    );
    assert!(ctx.vtbl_list.is_empty());
    assert!(ctx.runtime_fields.vtables.is_empty());
    assert_eq!(
        igIGZLoader::read_objects(&w.imm, &mut w.mgr, &mut handle, header.endian, &mut ctx, dir, 0),
        Ok(())
    );
    assert_eq!(w.mgr.objects.len(), before);
}

#[test]
fn minimal_container_loads_to_an_empty_directory() {
    let bytes = build(8, &[Fix { tag: *b"TMET", count: 0, payload: vec![] }], &[]);
    let mut w = world(vec![("minimal.igz", bytes)]);
    let dir = load(&mut w, "minimal.igz").expect("loads");
    assert_eq!(dir, 0);
    assert!(w.mgr.objects.is_empty());
    assert!(w.mgr.directories[dir].object_list.is_none());
    assert!(!w.mgr.directories[dir].use_name_list);
    assert!(w.mgr.directories[dir].dependencies.is_empty());
}

#[test]
fn big_endian_magic_with_little_endian_fields_is_refused() {
    let mut bytes = vec![0x49, 0x47, 0x5A, 0x01, 0x08, 0, 0, 0, 0, 0, 0, 0, 0, 0, 0, 0, 0, 0, 0, 0];
    bytes.resize(64, 0);
    let mut handle = ByteCursor::new(bytes);
    assert_eq!(read_header(&mut handle), Err(igLoadError::UnsupportedVersion));
}

#[test]
fn big_endian_header_is_read_big_endian() {
    let bytes = vec![
        0x49, 0x47, 0x5A, 0x01, 0, 0, 0, 9, 0, 0, 0, 2, 0, 0, 0, 9, 0, 0, 0, 5,
    ];
    let mut handle = ByteCursor::new(bytes);
    assert_eq!(
        read_header(&mut handle),
        Ok(IgzHeader {
            endian: Endian::Big,
            version: 9,
            meta_object_version: 2,
            platform: IG_CORE_PLATFORM::IG_CORE_PLATFORM_CAFE,
            fixup_count: 5,
        })
    );
    assert_eq!(handle.position(), 20);
}

#[test]
fn header_errors() {
    assert_eq!(read_header(&mut ByteCursor::new(vec![1, 2])), Err(igLoadError::UnexpectedEof));
    assert_eq!(
        read_header(&mut ByteCursor::new(vec![0x49, 0x47, 0x5A, 0x02, 0, 0, 0, 0])),
        Err(igLoadError::BadMagic)
    );
    assert_eq!(
        read_header(&mut ByteCursor::new(vec![0x01, 0x5A, 0x47, 0x49, 8, 0, 0, 0])),
        Err(igLoadError::UnexpectedEof)
    );
    let mut v4 = vec![0x01, 0x5A, 0x47, 0x49, 4, 0, 0, 0];
    v4.resize(20, 0);
    assert_eq!(read_header(&mut ByteCursor::new(v4)), Err(igLoadError::UnsupportedVersion));
    let mut odd = vec![0x01, 0x5A, 0x47, 0x49, 8, 0, 0, 0, 0, 0, 0, 0, 99, 0, 0, 0];
    odd.resize(20, 0);
    assert_eq!(read_header(&mut ByteCursor::new(odd)), Err(igLoadError::UnknownPlatform));
    let mut short = vec![0x01, 0x5A, 0x47, 0x49, 7, 0, 0, 0];
    short.resize(16, 0);
    assert_eq!(read_header(&mut ByteCursor::new(short)), Err(igLoadError::UnexpectedEof));
    let mut legacy = vec![0x01, 0x5A, 0x47, 0x49, 6, 0, 0, 0];
    legacy.resize(16, 0);
    let header = read_header(&mut ByteCursor::new(legacy)).expect("version 6 has a short header");
    assert_eq!(header.version, 6);
    assert_eq!(header.fixup_count, 0);
}

#[test]
fn section_table_fills_pools_and_pointers() {
    let bytes = build(9, &[], &[("Vertex", vec![1, 2, 3, 4]), ("Image", vec![5; 20])]);
    let mut handle = ByteCursor::new(bytes);
    let header = read_header(&mut handle).unwrap();
    let mut ctx = IgzLoaderContext::new(header, true);
    assert_eq!(igIGZLoader::parse_sections(&mut handle, header.endian, &mut ctx), Ok(()));
    assert_eq!(ctx.section_count, 2);
    assert_eq!(ctx.fixup_offset, 0x800);
    assert_eq!(ctx.loaded_pools[0], igMemoryPool::Vertex);
    assert_eq!(ctx.loaded_pools[1], igMemoryPool::Image);
    assert_eq!(ctx.loaded_pools[2], igMemoryPool::Default);
    assert_eq!(ctx.loaded_pointers[0], 0x800);
    assert_eq!(ctx.loaded_pointers[1], 0x810);
    assert_eq!(ctx.loaded_pointers[2], 0);
    assert_eq!(ctx.deserialize_offset(4), Some(0x804));
    assert_eq!(ctx.deserialize_offset((1 << 27) | 8), Some(0x818));
    assert_eq!(ctx.deserialize_offset(1 << 32), None);
    assert_eq!(ctx.get_pool_from_serialized_offset(1 << 27), Some(igMemoryPool::Image));
    assert_eq!(get_mem_pool_from_serialized_offset(&ctx, 0), Some(igMemoryPool::Vertex));
    assert_eq!(ctx.get_pool_from_serialized_offset(32 << 27), None);
}

#[test]
fn unknown_pool_name_is_fatal() {
    let bytes = build(9, &[], &[("NoSuchPool", vec![0; 4])]);
    let mut handle = ByteCursor::new(bytes.clone());
    let header = read_header(&mut handle).unwrap();
    let mut ctx = IgzLoaderContext::new(header, true);
    assert_eq!(
        igIGZLoader::parse_sections(&mut handle, header.endian, &mut ctx),
        Err(igLoadError::UnknownPool)
    );
    let mut w = world(vec![("bad.igz", bytes)]);
    assert_eq!(load(&mut w, "bad.igz"), Err(igLoadError::UnknownPool));
    // the directory stays cached, empty; other containers are not touched
    assert_eq!(w.mgr.directories.len(), 1);
    assert_eq!(load(&mut w, "bad.igz"), Ok(0));
}

#[test]
fn legacy_offsets_use_24_bits() {
    let header = IgzHeader {
        endian: Endian::Little,
        version: 6,
        meta_object_version: 0,
        platform: IG_CORE_PLATFORM::IG_CORE_PLATFORM_WII,
        fixup_count: 0,
    };
    let mut ctx = IgzLoaderContext::new(header, true);
    ctx.loaded_pointers[1] = 0x1000;
    assert_eq!(ctx.deserialize_offset((1 << 24) | 0x20), Some(0x1020));
    assert_eq!(ctx.deserialize_offset(32 << 24), None);
    assert_eq!(get_chunk_descriptor_start(6), Some(0xC));
    assert_eq!(get_chunk_descriptor_start(7), Some(0x14));
    assert_eq!(get_chunk_descriptor_start(10), None);
    assert_eq!(get_attribute_location(7), Some(0x56C));
    assert_eq!(get_attribute_location(8), Some(0x224));
    assert_eq!(get_attribute_location(4), None);
}

#[test]
fn fixup_tags() {
    assert_eq!(Fixup::try_from(u32::from_le_bytes(*b"TDEP")), Some(Fixup::T_DEPENDENCIES));
    assert_eq!(Fixup::try_from(u32::from_le_bytes(*b"TMET")), Some(Fixup::T_METADATA));
    assert_eq!(Fixup::try_from(u32::from_le_bytes(*b"TSTR")), Some(Fixup::T_STRING_LIST));
    assert_eq!(
        Fixup::try_from(u32::from_le_bytes(*b"EXID")),
        Some(Fixup::EXTERNAL_DEPENDENCIES_BY_ID)
    );
    assert_eq!(
        Fixup::try_from(u32::from_le_bytes(*b"EXNM")),
        Some(Fixup::EXTERNAL_DEPENDENCIES_BY_NAME)
    );
    assert_eq!(Fixup::try_from(u32::from_le_bytes(*b"TMHN")), Some(Fixup::THUMBNAIL));
    assert_eq!(Fixup::try_from(u32::from_le_bytes(*b"RVTB")), Some(Fixup::RUNTIME_V_TABLES));
    assert_eq!(Fixup::try_from(u32::from_le_bytes(*b"ROOT")), Some(Fixup::RUNTIME_OBJECT_LISTS));
    assert_eq!(Fixup::try_from(u32::from_le_bytes(*b"ROFS")), Some(Fixup::RUNTIME_OFFSETS));
    assert_eq!(Fixup::try_from(u32::from_le_bytes(*b"RPID")), Some(Fixup::RUNTIME_POOL_IDS));
    assert_eq!(Fixup::try_from(u32::from_le_bytes(*b"RSTT")), Some(Fixup::RUNTIME_STRING_TABLES));
    assert_eq!(
        Fixup::try_from(u32::from_le_bytes(*b"RSTR")),
        Some(Fixup::RUNTIME_STRING_REFERENCES)
    );
    assert_eq!(Fixup::try_from(u32::from_le_bytes(*b"RMHN")), Some(Fixup::RUNTIME_MEMORY_HANDLES));
    assert_eq!(Fixup::try_from(u32::from_le_bytes(*b"REXT")), Some(Fixup::RUNTIME_EXTERNALS));
    assert_eq!(
        Fixup::try_from(u32::from_le_bytes(*b"RNEX")),
        Some(Fixup::RUNTIME_NAMED_EXTERNALS)
    );
    assert_eq!(Fixup::try_from(u32::from_le_bytes(*b"RHND")), Some(Fixup::RUNTIME_HANDLES));
    assert_eq!(Fixup::try_from(u32::from_le_bytes(*b"ONAM")), Some(Fixup::OPTION_NAMED_LIST));
    assert_eq!(Fixup::try_from(u32::from_le_bytes(*b"XXXX")), None);
    assert_eq!(Fixup::try_from_id(0x00), Some(Fixup::T_METADATA));
    assert_eq!(Fixup::try_from_id(0x01), Some(Fixup::T_STRING_LIST));
    assert_eq!(Fixup::try_from_id(0x02), Some(Fixup::EXTERNAL_DEPENDENCIES_BY_ID));
    assert_eq!(Fixup::try_from_id(0x03), Some(Fixup::EXTERNAL_DEPENDENCIES_BY_NAME));
    assert_eq!(Fixup::try_from_id(0x05), Some(Fixup::RUNTIME_V_TABLES));
    assert_eq!(Fixup::try_from_id(0x0A), Some(Fixup::THUMBNAIL));
    assert_eq!(Fixup::try_from_id(0x0C), Some(Fixup::METADATA_SIZES));
    assert_eq!(Fixup::try_from_id(0x0E), Some(Fixup::RUNTIME_STRING_REFERENCES));
    for id in [0x04u8, 0x06, 0x07, 0x08, 0x09, 0x0B, 0x0D, 0x0F, 0x10, 0x11, 0x12, 0x13, 0xFF] {
        assert_eq!(Fixup::try_from_id(id), None);
    }
}

#[test]
fn string_entries_are_padded_from_version_8() {
    let mut c = ByteCursor::new(b"abc\0de\0\0f\0".to_vec());
    assert_eq!(read_entry(&mut c, true), Some("abc".to_string()));
    assert_eq!(c.position(), 4);
    assert_eq!(read_entry(&mut c, true), Some("de".to_string()));
    assert_eq!(c.position(), 8);
    c.set_position(4);
    assert_eq!(read_entry(&mut c, false), Some("de".to_string()));
    assert_eq!(c.position(), 7);
    c.set_position(9);
    assert_eq!(read_entry(&mut c, true), Some(String::new()));
    c.set_position(10);
    assert_eq!(read_entry(&mut c, true), None);
}

fn fresh_ctx(version: u32) -> IgzLoaderContext {
    IgzLoaderContext::new(
        IgzHeader {
            endian: Endian::Little,
            version,
            meta_object_version: 0,
            platform: IG_CORE_PLATFORM::IG_CORE_PLATFORM_DEFAULT,
            fixup_count: 0,
        },
        true,
    )
}

#[test]
fn string_fixup_appends_to_the_table() {
    let mut ctx = fresh_ctx(8);
    let mut c = ByteCursor::new(strings(&["one", "three"], true));
    assert_eq!(fix_string_list(&mut c, 2, &mut ctx), Ok(()));
    assert_eq!(ctx.string_list, vec!["one".to_string(), "three".to_string()]);
    assert_eq!(c.position(), 10);
    let mut c = ByteCursor::new(b"x\0y".to_vec());
    assert_eq!(fix_string_list(&mut c, 2, &mut ctx), Err(igLoadError::UnexpectedEof));
    assert_eq!(ctx.string_list.len(), 3);
    assert_eq!(ctx.string_list[2], "x");
}

#[test]
fn type_fixup_resolves_names() {
    let imm = registry_of_types();
    let mut ctx = fresh_ctx(7);
    let mut c = ByteCursor::new(strings(&["igThing", "igNameList"], false));
    assert_eq!(fix_metadata(&mut c, &imm, 2, &mut ctx), Ok(()));
    assert_eq!(ctx.vtbl_list, vec![3, 1]);
    let mut c = ByteCursor::new(strings(&["igThing", "igNothing", "igNameList"], false));
    assert_eq!(fix_metadata(&mut c, &imm, 3, &mut ctx), Err(igLoadError::UnknownType));
    assert_eq!(ctx.vtbl_list, vec![3, 1, 3]);
    let mut c = ByteCursor::new(b"igThing".to_vec());
    assert_eq!(fix_metadata(&mut c, &imm, 1, &mut ctx), Err(igLoadError::UnexpectedEof));
}

#[test]
fn thumbnail_fixup_reads_pairs() {
    let mut ctx = fresh_ctx(8);
    let mut payload = Vec::new();
    for v in [10u32, 20, 30, 40] {
        payload.extend_from_slice(&v.to_le_bytes());
    }
    let mut c = ByteCursor::new(payload.clone());
    assert_eq!(fix_thumbnail(&mut c, Endian::Little, 2, &mut ctx), Ok(()));
    assert_eq!(ctx.thumbnails, vec![(10, 20), (30, 40)]);
    let mut c = ByteCursor::new(payload);
    assert_eq!(fix_thumbnail(&mut c, Endian::Little, 3, &mut ctx), Err(igLoadError::UnexpectedEof));
    assert_eq!(ctx.thumbnails.len(), 4);
}

#[test]
fn runtime_lists_are_kept_sorted() {
    let mut ctx = fresh_ctx(9);
    ctx.loaded_pointers[0] = 0x900;
    ctx.loaded_pointers[1] = 0x100;
    // positions 0x908, 0x104, 0x10C after deserializing: stored ascending
    let raw = [8u32, (1 << 27) | 4, (1 << 27) | 12];
    let payload = pack_offsets(&raw, 9).unwrap();
    let mut c = ByteCursor::new(payload.clone());
    assert_eq!(
        fix_runtime_list(
            Fixup::RUNTIME_OFFSETS,
            &mut c,
            Endian::Little,
            16 + payload.len() as u32,
            16,
            3,
            &mut ctx
        ),
        Ok(())
    );
    assert_eq!(ctx.runtime_fields.offsets, vec![0x104, 0x10C, 0x908]);
    let mut c = ByteCursor::new(payload.clone());
    assert_eq!(
        read_runtime_list(&mut c, Endian::Little, 16 + payload.len() as u32, 16, 3, &ctx, false),
        Ok(vec![8, (1 << 27) | 4, (1 << 27) | 12])
    );
    assert_eq!(
        unpack_compressed_ints(&ctx, &payload, 3, true),
        Ok(vec![0x908, 0x104, 0x10C])
    );
    let mut c = ByteCursor::new(payload.clone());
    assert_eq!(
        fix_runtime_list(Fixup::RUNTIME_HANDLES, &mut c, Endian::Little, 8, 16, 3, &mut ctx),
        Err(igLoadError::BadIndex)
    );
    let mut c = ByteCursor::new(payload.clone());
    assert_eq!(
        fix_runtime_list(Fixup::RUNTIME_HANDLES, &mut c, Endian::Little, 100, 16, 3, &mut ctx),
        Err(igLoadError::UnexpectedEof)
    );
    let mut c = ByteCursor::new(payload);
    assert_eq!(
        fix_runtime_list(Fixup::RUNTIME_EXTERNALS, &mut c, Endian::Little, 17, 16, 3, &mut ctx),
        Err(igLoadError::PackedTruncated)
    );
    assert!(ctx.runtime_fields.externals.is_empty());
    let empty = RuntimeFields::new();
    assert!(empty.vtables.is_empty() && empty.handles.is_empty());
}

#[test]
fn objects_are_created_and_decoded() {
    let mut w = world(vec![("thing.igz", thing_container())]);
    let dir = load(&mut w, "thing.igz").expect("loads");
    assert_eq!(w.mgr.objects.len(), 3);
    let d = &w.mgr.directories[dir];
    assert_eq!(d.path, "thing.igz");
    assert_eq!(d.name.hash, hash("thing.igz"));
    assert_eq!(d.object_list, Some(0));
    assert_eq!(d.name_list, Some(1));
    assert!(d.use_name_list);
    // every object has the type that the file names at its offset
    assert_eq!(w.mgr.objects[0].meta, 0);
    assert_eq!(w.mgr.objects[1].meta, 1);
    assert_eq!(w.mgr.objects[2].meta, 3);
    for object in &w.mgr.objects {
        assert_eq!(object.owner, dir);
        assert_eq!(object.pool, igMemoryPool::Default);
    }
    assert_eq!(w.mgr.objects[0].as_object_list(), Some(&vec![Some(2)]));
    let names = w.mgr.objects[1].as_name_list().expect("names");
    assert_eq!(names.len(), 1);
    assert_eq!(names[0].string.as_deref(), Some("alpha"));
    assert_eq!(names[0].hash, hash("alpha"));
    // as many names as root objects
    assert_eq!(w.mgr.names_of(dir).unwrap().len(), w.mgr.objects_of(dir).unwrap().len());
    match &w.mgr.objects[2].content {
        igObjectContent::Fields(values) => {
            assert_eq!(values.len(), 4);
            assert!(matches!(values[0], Some(igAny::Unsigned(0xDEAD_BEEF))));
            assert!(values[1].is_none());
            assert!(matches!(&values[2], Some(igAny::Text(t)) if t == "beta"));
            assert!(matches!(values[3], Some(igAny::Signed(-2))));
        }
        _ => panic!("igThing is a bag of fields"),
    }
    assert!(w.mgr.objects[2].as_string_ref_list().is_none());
}

#[test]
fn name_list_without_a_name_for_every_object_is_refused() {
    let mut data = thing_section();
    put32(&mut data, 20, 0);
    let bytes = build(
        9,
        &[
            Fix {
                tag: *b"TMET",
                count: 4,
                payload: strings(&["igObjectList", "igNameList", "igStringRefList", "igThing"], true),
            },
            Fix { tag: *b"TSTR", count: 2, payload: strings(&["alpha", "beta"], true) },
            Fix { tag: *b"RVTB", count: 3, payload: pack_offsets(&[0, 16, 32], 9).unwrap() },
            Fix { tag: *b"ROOT", count: 1, payload: pack_offsets(&[0], 9).unwrap() },
            Fix { tag: *b"ONAM", count: 1, payload: 16u32.to_le_bytes().to_vec() },
            Fix { tag: *b"ROFS", count: 1, payload: pack_offsets(&[8], 9).unwrap() },
        ],
        &[("Default", data)],
    );
    let mut w = world(vec![("thing.igz", bytes)]);
    assert_eq!(load(&mut w, "thing.igz"), Err(igLoadError::NameListMismatch));
    assert!(!w.mgr.directories[0].use_name_list);
}

#[test]
fn unlisted_reference_that_is_not_null_is_fatal() {
    let mut data = thing_section();
    put32(&mut data, 40, 32);
    let bytes = build(
        9,
        &[
            Fix {
                tag: *b"TMET",
                count: 4,
                payload: strings(&["igObjectList", "igNameList", "igStringRefList", "igThing"], true),
            },
            Fix { tag: *b"TSTR", count: 2, payload: strings(&["alpha", "beta"], true) },
            Fix { tag: *b"RVTB", count: 3, payload: pack_offsets(&[0, 16, 32], 9).unwrap() },
            Fix { tag: *b"ROFS", count: 1, payload: pack_offsets(&[8], 9).unwrap() },
        ],
        &[("Default", data)],
    );
    let mut w = world(vec![("thing.igz", bytes)]);
    assert_eq!(load(&mut w, "thing.igz"), Err(igLoadError::UnresolvedReference));
}

#[test]
fn unknown_fixups_are_passed_over() {
    let bytes = build(
        9,
        &[
            Fix { tag: *b"WHAT", count: 7, payload: vec![1, 2, 3, 4, 5] },
            Fix { tag: *b"TSTR", count: 1, payload: strings(&["kept"], true) },
        ],
        &[],
    );
    let mut handle = ByteCursor::new(bytes);
    let header = read_header(&mut handle).unwrap();
    let mut ctx = IgzLoaderContext::new(header, true);
    igIGZLoader::parse_sections(&mut handle, header.endian, &mut ctx).unwrap();
    let mut w = world(vec![]);
    let dir = w.mgr.push_dir("x.igz", igName::from_hash(1));
    assert_eq!(
        igIGZLoader::process_modern_fixup_sections(
            &w.host,
            &mut handle,
            header.endian,
            &mut ctx,
            &w.files,
            &w.registry,
            &mut w.mgr,
            &w.refs,
            &mut w.handles,
            &w.imm,
            dir,
        ),
        Ok(())
    );
    assert_eq!(ctx.string_list, vec!["kept".to_string()]);
}

#[test]
fn truncated_fixup_table_is_reported() {
    let mut bytes = build(9, &[Fix { tag: *b"TSTR", count: 0, payload: vec![] }], &[]);
    put32(&mut bytes, 16, 2);
    bytes.truncate(0x810);
    let mut w = world(vec![("cut.igz", bytes)]);
    assert_eq!(load(&mut w, "cut.igz"), Err(igLoadError::UnexpectedEof));
}

#[test]
fn missing_file_is_reported() {
    let mut w = world(vec![]);
    assert_eq!(load(&mut w, "nowhere.igz"), Err(igLoadError::FileNotFound));
    assert_eq!(w.mgr.directories.len(), 1);
}

#[test]
fn file_without_loader_yields_an_empty_directory() {
    let mut w = world(vec![("notes.txt", vec![1, 2, 3])]);
    let dir = load(&mut w, "notes.txt").expect("retained empty");
    assert!(w.mgr.directories[dir].object_list.is_none());
    assert!(w.mgr.objects.is_empty());
}

#[test]
fn loader_is_chosen_by_extension() {
    let loader = igIGZObjectLoader;
    assert!(loader.can_read("a/b.igz"));
    assert!(loader.can_read("level.bld"));
    assert!(loader.can_read("strings.lng"));
    assert!(!loader.can_read("b.igz.bak"));
    assert!(!loader.can_read("igz"));
    assert_eq!(loader.get_name(), "Alchemy Platform");
    assert_eq!(loader.get_type(), "Alchemy");
    assert!(get_loader("x.igz").is_some());
    assert!(get_loader("x.iga").is_none());
}

#[test]
fn cached_directory_is_returned_whatever_the_namespace() {
    let mut w = world(vec![("thing.igz", thing_container())]);
    let first = load_as(&mut w, "thing.igz", "one").expect("loads");
    let objects = w.mgr.objects.len();
    assert_eq!(load_as(&mut w, "thing.igz", "two"), Ok(first));
    assert_eq!(load_as(&mut w, "THING.IGZ", "three"), Ok(first));
    assert_eq!(load(&mut w, "app:/thing.igz"), Ok(first));
    assert_eq!(load(&mut w, "app:\\thing.igz"), Ok(first));
    assert_eq!(w.mgr.directories.len(), 1);
    assert_eq!(w.mgr.directories[first].name.string.as_deref(), Some("one"));
    assert_eq!(w.mgr.objects.len(), objects);
    // both indexes lead to the directory
    assert_eq!(w.mgr.path_to_directory_lookup[&hash_lower("thing.igz")], first);
    assert!(w.mgr.name_to_directory_lookup[&hash("one")].contains(&first));
}

fn dependency_container(name: &str, path: &str) -> Vec<u8> {
    build(9, &[Fix { tag: *b"TDEP", count: 1, payload: strings(&[name, path], false) }], &[])
}

#[test]
fn cycle_safe_dependency() {
    let mut w = world(vec![
        ("A.igz", dependency_container("B", "B.igz")),
        ("B.igz", dependency_container("A", "A.igz")),
    ]);
    let a = load(&mut w, "A.igz").expect("A loads");
    assert_eq!(w.mgr.directories.len(), 2);
    let b = w.mgr.path_to_directory_lookup[&hash_lower("B.igz")];
    assert_ne!(a, b);
    assert_eq!(w.mgr.directories[a].dependencies, vec![b]);
    assert_eq!(w.mgr.directories[b].dependencies, vec![a]);
    assert_eq!(w.mgr.directories[b].name.string.as_deref(), Some("B"));
    assert_eq!(load(&mut w, "B.igz"), Ok(b));
    assert_eq!(load_as(&mut w, "A.igz", "other"), Ok(a));
    assert_eq!(w.mgr.directories.len(), 2);
}

#[test]
fn build_products_are_not_loaded() {
    let bytes = build(
        9,
        &[Fix {
            tag: *b"TDEP",
            count: 2,
            payload: strings(&["x", "<build>/x.igz", "y", "<build>y"], false),
        }],
        &[],
    );
    let mut w = world(vec![("root.igz", bytes)]);
    let dir = load(&mut w, "root.igz").expect("loads");
    assert!(w.mgr.directories[dir].dependencies.is_empty());
    assert_eq!(w.mgr.directories.len(), 1);
}

#[test]
fn failed_dependency_is_passed_over() {
    let bytes = build(
        9,
        &[Fix {
            tag: *b"TDEP",
            count: 2,
            payload: strings(&["gone", "gone.igz", "thing", "thing.igz"], false),
        }],
        &[],
    );
    let mut w = world(vec![("root.igz", bytes), ("thing.igz", thing_container())]);
    let dir = load(&mut w, "root.igz").expect("loads");
    let thing = w.mgr.path_to_directory_lookup[&hash_lower("thing.igz")];
    assert_eq!(w.mgr.directories[dir].dependencies, vec![thing]);
    assert_eq!(w.mgr.directories.len(), 3);
}

#[test]
fn dependencies_can_be_switched_off() {
    let mut w = world(vec![
        ("A.igz", dependency_container("B", "B.igz")),
        ("B.igz", dependency_container("A", "A.igz")),
    ]);
    let dir = w.mgr.push_dir("A.igz", igName::from_hash(1));
    assert_eq!(
        igIGZLoader::read(
            &w.host, &w.files, &w.registry, &mut w.mgr, &w.refs, &mut w.handles, &w.imm, dir,
            "A.igz", false,
        ),
        Ok(())
    );
    assert_eq!(w.mgr.directories.len(), 1);
    assert!(w.mgr.directories[dir].dependencies.is_empty());
}

/// A container with one igThing whose reference is listed as a named
/// external and carries the index 0; the string table names the namespace
/// and the alias.
fn referring_container(fixup: &[u8; 4], entry: Vec<u8>, list: &[u8; 4]) -> Vec<u8> {
    let mut d = vec![0u8; 20];
    put32(&mut d, 0, 0);
    put32(&mut d, 8, 0x8000_0000);
    put32(&mut d, 12, 0);
    build(
        9,
        &[
            Fix { tag: *b"TDEP", count: 1, payload: strings(&["things", "thing.igz"], false) },
            Fix { tag: *b"TMET", count: 1, payload: strings(&["igThing"], true) },
            Fix { tag: *b"TSTR", count: 2, payload: strings(&["things", "alpha"], true) },
            Fix { tag: *fixup, count: 1, payload: entry },
            Fix { tag: *b"RVTB", count: 1, payload: pack_offsets(&[0], 9).unwrap() },
            Fix { tag: *list, count: 1, payload: pack_offsets(&[8], 9).unwrap() },
        ],
        &[("Default", d)],
    )
}

fn reference_of(w: &World, dir: usize) -> Option<usize> {
    let object = w
        .mgr
        .objects
        .iter()
        .position(|o| o.owner == dir)
        .expect("the container has an object");
    match &w.mgr.objects[object].content {
        igObjectContent::Fields(values) => match &values[1] {
            Some(igAny::Object(o)) => Some(*o),
            None => None,
            other => panic!("unexpected value {:?}", other),
        },
        _ => panic!("igThing is a bag of fields"),
    }
}

#[test]
fn named_external_resolves_through_the_dependency() {
    let entry = (((0u64) << 32) | 1).to_le_bytes().to_vec();
    let mut w = world(vec![
        ("user.igz", referring_container(b"EXNM", entry, b"RNEX")),
        ("thing.igz", thing_container()),
    ]);
    let user = load(&mut w, "user.igz").expect("loads");
    let thing = w.mgr.path_to_directory_lookup[&hash_lower("thing.igz")];
    assert_eq!(w.mgr.directories[user].dependencies, vec![thing]);
    // the root object named "alpha" in the namespace "things"
    assert_eq!(reference_of(&w, user), Some(2));
}

#[test]
fn named_external_that_names_nothing_is_null() {
    let entry = (((1u64) << 32) | 1).to_le_bytes().to_vec();
    let mut w = world(vec![
        ("user.igz", referring_container(b"EXNM", entry, b"RNEX")),
        ("thing.igz", thing_container()),
    ]);
    let user = load(&mut w, "user.igz").expect("loads");
    assert_eq!(reference_of(&w, user), None);
}

#[test]
fn external_by_hash_is_resolved_when_the_field_is_read() {
    let mut entry = hash("alpha").to_le_bytes().to_vec();
    entry.extend_from_slice(&hash("nowhere").to_le_bytes());
    let mut w = world(vec![
        ("user.igz", referring_container(b"EXID", entry, b"REXT")),
        ("thing.igz", thing_container()),
    ]);
    let user = load(&mut w, "user.igz").expect("loads");
    // the namespace is not loaded: the handle is interned and stays unresolved
    assert_eq!(w.handles.handle_count(), 1);
    assert_eq!(reference_of(&w, user), None);
}

#[test]
fn external_by_hash_that_resolves_at_once_keeps_no_handle() {
    let mut entry = hash("alpha").to_le_bytes().to_vec();
    entry.extend_from_slice(&hash("things").to_le_bytes());
    let mut w = world(vec![
        ("user.igz", referring_container(b"EXID", entry, b"REXT")),
        ("thing.igz", thing_container()),
    ]);
    // the list of externals stays empty, so index 0 of the field leads nowhere
    assert_eq!(load(&mut w, "user.igz"), Err(igLoadError::BadIndex));
    assert_eq!(w.handles.handle_count(), 0);
}

#[test]
fn name_list_fixup_needs_a_list_of_names() {
    let mut w = world(vec![]);
    let dir = w.mgr.push_dir("x.igz", igName::from_hash(1));
    let mut ctx = fresh_ctx(9);
    let mut c = ByteCursor::new(vec![0, 0]);
    assert_eq!(
        fix_option_named_list(&mut c, Endian::Little, dir, &mut w.mgr, &mut ctx),
        Err(igLoadError::UnexpectedEof)
    );
    let mut c = ByteCursor::new(16u32.to_le_bytes().to_vec());
    assert_eq!(
        fix_option_named_list(&mut c, Endian::Little, dir, &mut w.mgr, &mut ctx),
        Err(igLoadError::BadIndex)
    );
    assert!(!ctx.use_name_list);
}

#[test]
fn loading_from_bytes_hands_back_the_state_of_the_load() {
    let mut w = world(vec![]);
    let dir = w.mgr.push_dir("thing.igz", igName::new("thing".to_string()));
    let mut cursor = ByteCursor::new(thing_container());
    let ctx = igIGZLoader::read_stream(
        &w.host,
        &mut cursor,
        &w.files,
        &w.registry,
        &mut w.mgr,
        &w.refs,
        &mut w.handles,
        &w.imm,
        dir,
        true,
    )
    .expect("loads");
    assert_eq!(ctx.version, 9);
    assert!(ctx.read_dependencies);
    assert!(ctx.use_name_list);
    assert!(w.mgr.directories[dir].use_name_list);
    // every offset of the type fixup has its object, of the type named there
    assert_eq!(ctx.runtime_fields.vtables.len(), 3);
    assert_eq!(ctx.offset_object_list.len(), 3);
    for offset in &ctx.runtime_fields.vtables {
        let object = ctx.offset_object_list[offset];
        assert!(object < w.mgr.objects.len());
        assert_eq!(w.mgr.objects[object].owner, dir);
    }
    assert_eq!(w.mgr.objects.len(), 3);
    assert_eq!(w.mgr.objects[2].meta, 3);
    assert_eq!(cursor.data, thing_container());
}

#[test]
fn loading_from_bytes_reports_a_bad_head_and_changes_nothing() {
    let mut w = world(vec![]);
    let dir = w.mgr.push_dir("bad.igz", igName::new("bad".to_string()));
    let mut bytes = thing_container();
    bytes[0] = 0x00;
    let mut cursor = ByteCursor::new(bytes);
    let r = igIGZLoader::read_stream(
        &w.host,
        &mut cursor,
        &w.files,
        &w.registry,
        &mut w.mgr,
        &w.refs,
        &mut w.handles,
        &w.imm,
        dir,
        true,
    );
    assert!(matches!(r, Err(igLoadError::BadMagic)));
    assert_eq!(w.mgr.objects.len(), 0);
    assert_eq!(w.mgr.directories.len(), 1);
    assert!(!w.mgr.directories[dir].use_name_list);
}

fn container_of(data: Vec<u8>, objects: &[u32]) -> Vec<u8> {
    build(
        9,
        &[
            Fix {
                tag: *b"TMET",
                count: 4,
                payload: strings(&["igObjectList", "igNameList", "igStringRefList", "igThing"], true),
            },
            Fix { tag: *b"TSTR", count: 2, payload: strings(&["alpha", "beta"], true) },
            Fix {
                tag: *b"RVTB",
                count: objects.len() as u32,
                payload: pack_offsets(objects, 9).unwrap(),
            },
        ],
        &[("Default", data)],
    )
}

#[test]
fn name_beyond_the_string_table_is_a_bad_index() {
    let mut data = thing_section();
    put32(&mut data, 8, 0);
    put32(&mut data, 24, 7);
    let mut w = world(vec![("thing.igz", container_of(data, &[0, 16, 32]))]);
    assert_eq!(load(&mut w, "thing.igz"), Err(igLoadError::BadIndex));
}

#[test]
fn list_fails_with_the_error_of_its_first_bad_entry() {
    // The list claims a thousand entries: the second is null, the third
    // holds a number at a place that no fixup lists.
    let mut data = thing_section();
    put32(&mut data, 4, 1000);
    put32(&mut data, 8, 0);
    put32(&mut data, 24, 7);
    let mut w = world(vec![("thing.igz", container_of(data, &[0, 16, 32]))]);
    assert_eq!(load(&mut w, "thing.igz"), Err(igLoadError::UnresolvedReference));
}

#[test]
fn list_that_runs_past_the_end_of_the_file_is_cut_short() {
    // The section is the last of the file and holds 32 bytes: a type, a
    // count and room for six entries.
    let mut data = vec![0u8; 32];
    put32(&mut data, 4, 7);
    let mut w = world(vec![("list.igz", container_of(data, &[0]))]);
    assert_eq!(load(&mut w, "list.igz"), Err(igLoadError::UnexpectedEof));
    let mut data = vec![0u8; 32];
    put32(&mut data, 4, 6);
    let mut w = world(vec![("list.igz", container_of(data, &[0]))]);
    let dir = load(&mut w, "list.igz").expect("loads");
    assert_eq!(w.mgr.objects[0].owner, dir);
    assert_eq!(w.mgr.objects[0].as_object_list(), Some(&vec![None; 6]));
}

#[test]
fn dependency_listed_twice_is_added_once() {
    let twice = build(
        9,
        &[Fix {
            tag: *b"TDEP",
            count: 3,
            payload: strings(&["B", "B.igz", "C", "C.igz", "again", "B.igz"], false),
        }],
        &[],
    );
    let mut w = world(vec![
        ("A.igz", twice),
        ("B.igz", build(9, &[], &[])),
        ("C.igz", build(9, &[], &[])),
    ]);
    let a = load(&mut w, "A.igz").expect("A loads");
    let b = w.mgr.path_to_directory_lookup[&hash_lower("B.igz")];
    let c = w.mgr.path_to_directory_lookup[&hash_lower("C.igz")];
    assert_eq!(w.mgr.directories[a].dependencies, vec![b, c]);
}

#[test]
fn dependency_that_fails_to_load_adds_nothing() {
    let deps = build(
        9,
        &[Fix {
            tag: *b"TDEP",
            count: 2,
            payload: strings(&["gone", "gone.igz", "C", "C.igz"], false),
        }],
        &[],
    );
    let mut w = world(vec![("A.igz", deps), ("C.igz", build(9, &[], &[]))]);
    let a = load(&mut w, "A.igz").expect("A loads");
    let c = w.mgr.path_to_directory_lookup[&hash_lower("C.igz")];
    assert_eq!(w.mgr.directories[a].dependencies, vec![c]);
}

#[test]
fn type_that_is_not_registered_fails_the_type_fixup() {
    let bytes = build(
        9,
        &[Fix { tag: *b"TMET", count: 1, payload: strings(&["igNoSuchType"], true) }],
        &[],
    );
    let mut w = world(vec![("odd.igz", bytes)]);
    assert_eq!(load(&mut w, "odd.igz"), Err(igLoadError::UnknownType));
}

#[test]
fn type_index_beyond_the_type_table_is_a_bad_index() {
    let mut data = thing_section();
    put32(&mut data, 32, 9);
    let mut w = world(vec![("thing.igz", container_of(data, &[0, 16, 32]))]);
    assert_eq!(load(&mut w, "thing.igz"), Err(igLoadError::BadIndex));
    // the objects before the failing one were created, and nothing was decoded
    assert_eq!(w.mgr.objects.len(), 2);
}

fn load_alchemy() -> ig_library::util::ig_common::igAlchemy {
    ig_library::util::ig_common::igAlchemy::new(
        igFileContext::new("".to_string(), None),
        igRegistry::new(IG_CORE_PLATFORM::IG_CORE_PLATFORM_CAFE),
        ig_library::base::ig_ark_core::igArkCore::new(
            ig_library::base::ig_ark_core::EGame::EV_SkylandersSuperchargers,
            IG_CORE_PLATFORM::IG_CORE_PLATFORM_CAFE,
        ),
    )
}

/// Verifies the types can be worked with in a fluent way.
#[test]
fn test_type_usability() {
    let host = igMemoryStorage::new();
    let mut ig_alchemy = load_alchemy();
    let file_driver_moneybone = ig_alchemy
        .object_stream_manager
        .load(
            &host,
            &ig_alchemy.file_context,
            &ig_alchemy.registry,
            &ig_alchemy.ark_core.metadata_manager,
            &ig_alchemy.ig_ext_ref_system,
            &mut ig_alchemy.ig_object_handle_manager,
            "DriverMoneybone".to_string(),
        )
        .unwrap();

    let driver_moneybone = &ig_alchemy.object_stream_manager.directories[file_driver_moneybone];
    assert_eq!(driver_moneybone.path, "DriverMoneybone");
    assert!(driver_moneybone.object_list.is_none());
    assert!(driver_moneybone.dependencies.is_empty());
    let models: Vec<usize> = ig_alchemy
        .object_stream_manager
        .objects_of(file_driver_moneybone)
        .map(|list| list.iter().filter_map(|x| *x).collect())
        .unwrap_or_default();
    println!("Model Count: {}", models.len());
    for model in models {
        if let Some(fields) = ig_alchemy.object_stream_manager.objects[model].as_object_list() {
            println!("Model Draw Call Count: {}", fields.len());
        }
    }
    assert!(ig_alchemy.object_stream_manager.objects.is_empty());
}

#[test]
fn result_of_a_load_is_taken_into_the_dependencies() {
    let mut mgr = igObjectStreamManager::new();
    let a = mgr.push_dir("a.igz", igName::new("a".to_string()));
    let b = mgr.push_dir("b.igz", igName::new("b".to_string()));
    assert!(!take_dependency(&mut mgr, a, Err(igLoadError::FileNotFound)));
    assert!(mgr.directories[a].dependencies.is_empty());
    assert!(take_dependency(&mut mgr, a, Ok(b)));
    assert_eq!(mgr.directories[a].dependencies, vec![b]);
    assert!(!take_dependency(&mut mgr, a, Ok(b)));
    assert_eq!(mgr.directories[a].dependencies, vec![b]);
    assert!(take_dependency(&mut mgr, a, Ok(a)));
    assert_eq!(mgr.directories[a].dependencies, vec![b, a]);
    assert!(mgr.directories[b].dependencies.is_empty());
}

#[test]
fn field_pass_fails_with_the_error_of_the_first_object_that_fails() {
    // The second object is a list of names beyond the string table, the
    // third holds a number at a place that no fixup lists: the pass ends
    // at the second.
    let mut data = thing_section();
    put32(&mut data, 8, 0);
    put32(&mut data, 24, 7);
    put32(&mut data, 40, 32);
    let mut w = world(vec![("thing.igz", container_of(data, &[0, 16, 32]))]);
    assert_eq!(load(&mut w, "thing.igz"), Err(igLoadError::BadIndex));
    // the first object was decoded, the others were not
    assert_eq!(w.mgr.objects[0].as_object_list(), Some(&vec![None]));
    assert_eq!(w.mgr.objects[1].as_name_list().map(|n| n.len()), Some(0));
}

#[test]
fn directory_names_its_roots_exactly_when_the_container_does() {
    let mut w = world(vec![
        ("named.igz", thing_container()),
        ("bare.igz", container_of({
            let mut data = thing_section();
            put32(&mut data, 8, 0);
            data
        }, &[0, 16, 32])),
    ]);
    let named = load(&mut w, "named.igz").expect("loads");
    let bare = load(&mut w, "bare.igz").expect("loads");
    assert!(w.mgr.directories[named].use_name_list);
    assert!(!w.mgr.directories[bare].use_name_list);
}
