use ig_library::base::ig_core_platform::{Endian, IG_CORE_PLATFORM};
use ig_library::base::ig_memory::igMemoryPool;
use ig_library::base::ig_registry::igRegistry;
use ig_library::load::ig_igz_loader::{igIGZLoader, read_header, IgzLoaderContext};
use ig_library::load::ig_load_error::igLoadError;
use ig_library::meta::ig_metadata_manager::{igMetaObject, igMetaShape, igMetadataManager};
use ig_library::object::ig_external_ref::igExternalReferenceSystem;
use ig_library::object::ig_handle::igObjectHandleManager;
use ig_library::object::ig_objects::igObjectStreamManager;
use ig_library::util::byteorder_fixes::ByteCursor;
use ig_library::util::ig_name::igName;
use ig_library::vfs::ig_file_context::igFileContext;
use ig_library::vfs::ig_memory_storage::igMemoryStorage;

fn put32be(out: &mut Vec<u8>, at: usize, v: u32) {
    out[at..at + 4].copy_from_slice(&v.to_be_bytes());
}

/// A big-endian container of version 6 for the Wii: a short header, the
/// section table at 0xC, pool names at 0x56C, the number of fixups 16 bytes
/// into the first section and the fixups behind a preamble of 28 bytes. The
/// section table begins where the header holds the platform, so the number
/// of the platform is also where the name of the first section stands.
fn legacy(fixups: &[(u8, u32, Vec<u8>)], data: &[u8]) -> Vec<u8> {
    let fix_at: usize = 0x600;
    let mut fix_bytes = vec![0u8; 0x1C];
    for (id, count, payload) in fixups {
        fix_bytes.extend_from_slice(&(0xAB00_0000u32 | *id as u32).to_be_bytes());
        fix_bytes.extend_from_slice(&[0; 8]);
        fix_bytes.extend_from_slice(&count.to_be_bytes());
        fix_bytes.extend_from_slice(&((24 + payload.len()) as u32).to_be_bytes());
        fix_bytes.extend_from_slice(&24u32.to_be_bytes());
        fix_bytes.extend_from_slice(payload);
    }
    let data_at = (fix_at + fix_bytes.len() + 15) / 16 * 16;
    let mut out = vec![0u8; data_at];
    out[0..4].copy_from_slice(&[0x49, 0x47, 0x5A, 0x01]);
    put32be(&mut out, 4, 6);
    put32be(&mut out, 12, 2);
    put32be(&mut out, 0xC + 4, fix_at as u32);
    put32be(&mut out, 0xC + 16, 10);
    put32be(&mut out, 0xC + 20, data_at as u32);
    out[0x56C..0x56C + 17].copy_from_slice(b"\0\0Default\0Vertex\0");
    out[fix_at..fix_at + fix_bytes.len()].copy_from_slice(&fix_bytes);
    put32be(&mut out, fix_at + 0x10, fixups.len() as u32);
    out.extend_from_slice(data);
    out
}

fn types() -> igMetadataManager {
    let mut imm = igMetadataManager::new();
    imm.register(igMetaObject {
        name: "igThing".to_string(),
        parent: None,
        shape: igMetaShape::Fields,
        fields: Vec::new(),
    });
    imm
}

#[test]
fn legacy_header_and_sections() {
    let bytes = legacy(&[], &[0; 16]);
    let mut handle = ByteCursor::new(bytes);
    let header = read_header(&mut handle).expect("header");
    assert_eq!(header.endian, Endian::Big);
    assert_eq!(header.version, 6);
    assert_eq!(header.platform, IG_CORE_PLATFORM::IG_CORE_PLATFORM_WII);
    assert_eq!(header.fixup_count, 0);
    assert_eq!(handle.position(), 16);
    let mut ctx = IgzLoaderContext::new(header, true);
    assert_eq!(igIGZLoader::parse_sections(&mut handle, header.endian, &mut ctx), Ok(()));
    assert_eq!(ctx.section_count, 1);
    assert_eq!(ctx.fixup_offset, 0x600);
    assert_eq!(ctx.loaded_pools[0], igMemoryPool::Vertex);
    assert_eq!(ctx.loaded_pointers[0], 0x620);
}

#[test]
fn legacy_fixups_are_named_by_number() {
    let bytes = legacy(
        &[
            (0x00, 1, b"igThing\0".to_vec()),
            (0x07, 3, vec![9, 9, 9]),
            (0x01, 2, b"odd\0even\0".to_vec()),
            (0x0C, 0, vec![1, 2, 3, 4]),
        ],
        &[0; 16],
    );
    let mut handle = ByteCursor::new(bytes);
    let header = read_header(&mut handle).unwrap();
    let mut ctx = IgzLoaderContext::new(header, true);
    igIGZLoader::parse_sections(&mut handle, header.endian, &mut ctx).unwrap();
    assert_eq!(ctx.fixup_count, 4);
    let host = igMemoryStorage::new();
    let files = igFileContext::new(String::new(), None);
    let registry = igRegistry::new(IG_CORE_PLATFORM::IG_CORE_PLATFORM_WII);
    let refs = igExternalReferenceSystem::new();
    let mut handles = igObjectHandleManager::new();
    let mut mgr = igObjectStreamManager::new();
    let dir = mgr.push_dir("old.igz", igName::from_hash(1));
    assert_eq!(
        igIGZLoader::process_legacy_fixup_sections(
            &host,
            &mut handle,
            header.endian,
            &mut ctx,
            &files,
            &registry,
            &mut mgr,
            &refs,
            &mut handles,
            &types(),
            dir,
        ),
        Ok(())
    );
    assert_eq!(ctx.vtbl_list, vec![0]);
    // strings are not padded before version 8
    assert_eq!(ctx.string_list, vec!["odd".to_string(), "even".to_string()]);
}

#[test]
fn legacy_container_loads() {
    let bytes = legacy(&[(0x01, 1, b"only\0".to_vec())], &[0; 16]);
    let mut host = igMemoryStorage::new();
    host.add_file("old.igz", bytes.clone());
    let mut cut = bytes;
    cut.truncate(0x610);
    host.add_file("cut.igz", cut);
    let files = igFileContext::new(String::new(), None);
    let registry = igRegistry::new(IG_CORE_PLATFORM::IG_CORE_PLATFORM_WII);
    let refs = igExternalReferenceSystem::new();
    let mut handles = igObjectHandleManager::new();
    let mut mgr = igObjectStreamManager::new();
    let imm = types();
    assert_eq!(
        mgr.load(&host, &files, &registry, &imm, &refs, &mut handles, "old.igz".to_string()),
        Ok(0)
    );
    // the number of fixups lies behind the end of the file
    assert_eq!(
        mgr.load(&host, &files, &registry, &imm, &refs, &mut handles, "cut.igz".to_string()),
        Err(igLoadError::UnexpectedEof)
    );
}
