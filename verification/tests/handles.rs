use ig_library::base::ig_core_platform::{Endian, IG_CORE_PLATFORM};
use ig_library::base::ig_memory::igMemoryPool;
use ig_library::load::ig_igz_loader::{IgzHeader, IgzLoaderContext};
use ig_library::load::ig_load_error::igLoadError;
use ig_library::meta::ig_metadata_manager::{
    igMetaFieldInfo, igMetaFieldKind, igMetaInstantiationError, igMetaObject, igMetaShape,
    igMetadataManager,
};
use ig_library::meta::ig_handle_meta_field::{igHandleMetaField, igMemoryRefMetaField};
use ig_library::meta::ig_object_ref_meta_field::{classify, igObjectRefKind, igObjectRefMetaField};
use ig_library::object::ig_external_ref::{
    find_named, igExternalReferenceSystem, igReferenceResolverContext,
};
use ig_library::object::ig_handle::{igHandle, igHandleName, igObjectHandleManager};
use ig_library::object::ig_objects::{
    igAny, igObjectContent, igObjectData, igObjectDirectory, igObjectStreamManager,
};
use ig_library::util::byteorder_fixes::ByteCursor;
use ig_library::util::ig_hash::hash;
use ig_library::util::ig_name::igName;

fn name(text: &str) -> igName {
    igName::new(text.to_string())
}

/// A store with one directory under the namespace `things` that names its
/// two root objects `alpha` and `beta`.
fn store() -> igObjectStreamManager {
    let mut mgr = igObjectStreamManager::new();
    let dir = mgr.push_dir("things.igz", name("things"));
    let first = mgr.add_object(igObjectData {
        meta: 0,
        pool: igMemoryPool::Default,
        owner: dir,
        content: igObjectContent::Fields(vec![]),
    });
    let second = mgr.add_object(igObjectData {
        meta: 0,
        pool: igMemoryPool::Default,
        owner: dir,
        content: igObjectContent::Fields(vec![]),
    });
    let objects = mgr.add_object(igObjectData {
        meta: 1,
        pool: igMemoryPool::Default,
        owner: dir,
        content: igObjectContent::ObjectList(vec![Some(first), Some(second)]),
    });
    let names = mgr.add_object(igObjectData {
        meta: 2,
        pool: igMemoryPool::Default,
        owner: dir,
        content: igObjectContent::NameList(vec![name("alpha"), name("beta")]),
    });
    mgr.set_lists(dir, Some(objects), Some(names));
    assert!(mgr.raise_use_name_list(dir));
    mgr
}

#[test]
fn handle_key_holds_both_hashes() {
    let key = igObjectHandleManager::get_handle_key(&igName::from_hash(0x1234_5678), &igName::from_hash(0x9ABC_DEF0));
    assert_eq!(key, 0x1234_5678_9ABC_DEF0);
    assert_eq!(
        igObjectHandleManager::get_handle_key(&igName::from_hash(0), &igName::from_hash(1)),
        1
    );
    assert_eq!(
        igObjectHandleManager::get_handle_key(&igName::from_hash(1), &igName::from_hash(0)),
        1 << 32
    );
    assert_ne!(
        igObjectHandleManager::get_handle_key(&igName::from_hash(1), &igName::from_hash(2)),
        igObjectHandleManager::get_handle_key(&igName::from_hash(2), &igName::from_hash(1))
    );
}

#[test]
fn handles_are_interned_once_and_texts_are_filled_in() {
    let mut manager = igObjectHandleManager::new();
    assert_eq!(manager.handle_count(), 0);
    let bare = manager.lookup_handle(igName::from_hash(hash("ns")), igName::from_hash(hash("n")));
    assert!(bare.namespace.string.is_none());
    assert!(bare.alias.string.is_none());
    assert!(bare.object.is_none());
    assert_eq!(manager.handle_count(), 1);
    let filled = manager.lookup_handle(name("ns"), igName::from_hash(hash("n")));
    assert_eq!(filled.namespace.string.as_deref(), Some("ns"));
    assert!(filled.alias.string.is_none());
    assert_eq!(manager.handle_count(), 1);
    let again = manager.lookup_handle_name(&igHandleName::new(name("n"), igName::from_hash(hash("ns"))));
    assert_eq!(again.namespace.string.as_deref(), Some("ns"));
    assert_eq!(again.alias.string.as_deref(), Some("n"));
    assert_eq!(again.alias.hash, hash("n"));
    assert_eq!(manager.handle_count(), 1);
    manager.lookup_handle(name("other"), name("n"));
    assert_eq!(manager.handle_count(), 2);
}

#[test]
fn handle_resolves_against_the_name_list() {
    let mgr = store();
    let mut handle = igHandle::from_handle_name(&igHandleName::new(name("beta"), name("things")));
    assert_eq!(handle.alias.hash, hash("beta"));
    assert_eq!(handle.namespace.hash, hash("things"));
    assert!(handle.object.is_none());
    assert_eq!(handle.get_object_alias(&mgr), Some(1));
    assert_eq!(handle.object, Some(1));
    // a resolved handle keeps its object
    let empty = igObjectStreamManager::new();
    assert_eq!(handle.get_object_alias(&empty), Some(1));
    let copy = handle.duplicate();
    assert_eq!(copy.object, Some(1));

    let mut missing = igHandle::from_handle_name(&igHandleName::new(name("gamma"), name("things")));
    assert_eq!(missing.get_object_alias(&mgr), None);
    let mut nowhere = igHandle::from_handle_name(&igHandleName::new(name("alpha"), name("x")));
    assert_eq!(nowhere.get_object_alias(&mgr), None);
    assert!(nowhere.object.is_none());
}

#[test]
fn reference_system_finds_named_objects() {
    let mgr = store();
    let system = igExternalReferenceSystem::new();
    let ctx = igReferenceResolverContext { root_objects: None, base_path: None, data: None };
    assert_eq!(
        system.global_set.resolve_reference(
            &igHandleName::new(name("alpha"), name("things")),
            &ctx,
            &mgr
        ),
        Some(0)
    );
    assert_eq!(find_named(&mgr, hash("things"), hash("beta")), Some(1));
    assert_eq!(find_named(&mgr, hash("things"), hash("gamma")), None);
    assert_eq!(find_named(&mgr, hash("nothing"), hash("alpha")), None);
}

fn context() -> IgzLoaderContext {
    IgzLoaderContext::new(
        IgzHeader {
            endian: Endian::Little,
            version: 9,
            meta_object_version: 0,
            platform: IG_CORE_PLATFORM::IG_CORE_PLATFORM_DEFAULT,
            fixup_count: 0,
        },
        true,
    )
}

fn cursor_with(at: usize, raw: u32) -> ByteCursor {
    let mut data = vec![0u8; at + 4];
    data[at..at + 4].copy_from_slice(&raw.to_le_bytes());
    let mut c = ByteCursor::new(data);
    c.set_position(at as u64);
    c
}

#[test]
fn object_ref_decode() {
    // the field lies at a place that is listed as an external, and carries index 3
    let mgr = store();
    let mut ctx = context();
    ctx.runtime_fields.externals = vec![8, 64, 128];
    for alias in ["zero", "one", "two", "beta"] {
        ctx.external_list.push(igHandle::from_handle_name(&igHandleName::new(
            name(alias),
            name("things"),
        )));
    }
    let field = igObjectRefMetaField;
    let mut c = cursor_with(64, 0x8000_0003);
    assert_eq!(field.value_from_igz(&mgr, &mut c, Endian::Little, &mut ctx), Ok(Some(1)));
    assert_eq!(c.position(), 68);
    assert_eq!(ctx.external_list[3].object, Some(1));

    // the namespace is absent from the store: null
    let empty = igObjectStreamManager::new();
    let mut ctx = context();
    ctx.runtime_fields.externals = vec![64];
    for alias in ["zero", "one", "two", "beta"] {
        ctx.external_list.push(igHandle::from_handle_name(&igHandleName::new(
            name(alias),
            name("things"),
        )));
    }
    let mut c = cursor_with(64, 3);
    assert_eq!(field.value_from_igz(&empty, &mut c, Endian::Little, &mut ctx), Ok(None));
    assert!(ctx.external_list[3].object.is_none());
    let mut c = cursor_with(64, 4);
    assert_eq!(
        field.value_from_igz(&empty, &mut c, Endian::Little, &mut ctx),
        Err(igLoadError::BadIndex)
    );
}

#[test]
fn object_ref_cases_in_order() {
    let mgr = store();
    let mut ctx = context();
    ctx.runtime_fields.offsets = vec![16, 32];
    ctx.runtime_fields.named_externals = vec![32, 48];
    ctx.runtime_fields.externals = vec![48, 64];
    ctx.offset_object_list.insert(100, 0);
    ctx.named_external_list = vec![Some(1), None];
    let fields = &ctx.runtime_fields;
    assert_eq!(classify(fields, 16, 0), igObjectRefKind::Offset);
    assert_eq!(classify(fields, 32, 5), igObjectRefKind::Offset);
    assert_eq!(classify(fields, 48, 5), igObjectRefKind::NamedExternal);
    assert_eq!(classify(fields, 64, 0), igObjectRefKind::External);
    assert_eq!(classify(fields, 80, 0), igObjectRefKind::Null);
    assert_eq!(classify(fields, 80, 1), igObjectRefKind::Inconsistent);

    let field = igObjectRefMetaField;
    let mut c = cursor_with(16, 100);
    assert_eq!(field.value_from_igz(&mgr, &mut c, Endian::Little, &mut ctx), Ok(Some(0)));
    let mut c = cursor_with(16, 104);
    assert_eq!(
        field.value_from_igz(&mgr, &mut c, Endian::Little, &mut ctx),
        Err(igLoadError::BadIndex)
    );
    let mut c = cursor_with(48, 0x8000_0000);
    assert_eq!(field.value_from_igz(&mgr, &mut c, Endian::Little, &mut ctx), Ok(Some(1)));
    let mut c = cursor_with(48, 1);
    assert_eq!(field.value_from_igz(&mgr, &mut c, Endian::Little, &mut ctx), Ok(None));
    let mut c = cursor_with(48, 2);
    assert_eq!(
        field.value_from_igz(&mgr, &mut c, Endian::Little, &mut ctx),
        Err(igLoadError::BadIndex)
    );
    let mut c = cursor_with(80, 0);
    assert_eq!(field.value_from_igz(&mgr, &mut c, Endian::Little, &mut ctx), Ok(None));
    let mut c = cursor_with(80, 9);
    assert_eq!(
        field.value_from_igz(&mgr, &mut c, Endian::Little, &mut ctx),
        Err(igLoadError::UnresolvedReference)
    );
    let mut c = ByteCursor::new(vec![0, 0]);
    assert_eq!(
        field.value_from_igz(&mgr, &mut c, Endian::Little, &mut ctx),
        Err(igLoadError::UnexpectedEof)
    );
    assert_eq!(c.position(), 0);
}

#[test]
fn fields_are_read_by_kind() {
    let imm = igMetadataManager::new();
    let mgr = igObjectStreamManager::new();
    let mut ctx = context();
    ctx.string_list = vec!["zero".to_string(), "one".to_string()];
    let bytes = vec![0xFF, 0xFF, 0xFF, 0xFF, 0x01, 0x00, 0x00, 0x80];
    let read = |kind: igMetaFieldKind, at: u64, ctx: &mut IgzLoaderContext| {
        let mut c = ByteCursor::new(bytes.clone());
        c.set_position(at);
        imm.read_field(kind, &mgr, &mut c, Endian::Little, ctx)
    };
    assert!(matches!(read(igMetaFieldKind::U8, 0, &mut ctx), Ok(Some(igAny::Unsigned(255)))));
    assert!(matches!(read(igMetaFieldKind::I8, 0, &mut ctx), Ok(Some(igAny::Signed(-1)))));
    assert!(matches!(read(igMetaFieldKind::U16, 0, &mut ctx), Ok(Some(igAny::Unsigned(0xFFFF)))));
    assert!(matches!(read(igMetaFieldKind::I16, 0, &mut ctx), Ok(Some(igAny::Signed(-1)))));
    assert!(matches!(
        read(igMetaFieldKind::U32, 4, &mut ctx),
        Ok(Some(igAny::Unsigned(0x8000_0001)))
    ));
    assert!(matches!(
        read(igMetaFieldKind::I32, 4, &mut ctx),
        Ok(Some(igAny::Signed(-0x7FFF_FFFF)))
    ));
    assert!(matches!(
        read(igMetaFieldKind::I64, 0, &mut ctx),
        Ok(Some(igAny::Signed(-0x7FFF_FFFE_0000_0001)))
    ));
    assert!(matches!(
        read(igMetaFieldKind::U64, 0, &mut ctx),
        Ok(Some(igAny::Unsigned(0x8000_0001_FFFF_FFFF)))
    ));
    assert!(matches!(
        read(igMetaFieldKind::F32, 4, &mut ctx),
        Ok(Some(igAny::Float32Bits(0x8000_0001)))
    ));
    assert!(matches!(
        read(igMetaFieldKind::F64, 0, &mut ctx),
        Ok(Some(igAny::Float64Bits(0x8000_0001_FFFF_FFFF)))
    ));
    assert!(matches!(read(igMetaFieldKind::Bool, 4, &mut ctx), Ok(Some(igAny::Boolean(true)))));
    assert!(matches!(read(igMetaFieldKind::Bool, 5, &mut ctx), Ok(Some(igAny::Boolean(false)))));
    assert!(matches!(read(igMetaFieldKind::Enum, 4, &mut ctx), Ok(Some(igAny::Unsigned(_)))));
    assert!(matches!(
        read(igMetaFieldKind::SizeType, 0, &mut ctx),
        Ok(Some(igAny::Unsigned(0xFFFF_FFFF)))
    ));
    assert!(matches!(read(igMetaFieldKind::U32, 6, &mut ctx), Err(igLoadError::UnexpectedEof)));
    let mut c = ByteCursor::new(vec![1, 0, 0, 0, 2, 0, 0, 0]);
    assert!(matches!(
        imm.read_field(igMetaFieldKind::StringRef, &mgr, &mut c, Endian::Little, &mut ctx),
        Ok(Some(igAny::Text(t))) if t == "one"
    ));
    assert!(matches!(
        imm.read_field(igMetaFieldKind::StringRef, &mgr, &mut c, Endian::Little, &mut ctx),
        Err(igLoadError::BadIndex)
    ));
}

#[test]
fn instantiation_failures() {
    let list = igMetaObject {
        name: "igNotAList".to_string(),
        parent: None,
        shape: igMetaShape::ObjectList,
        fields: Vec::new(),
    };
    match list.raw_instantiate(0, igMemoryPool::Default, 0, false) {
        Err(igMetaInstantiationError::TypeMismatchError(expected)) => {
            assert_eq!(expected, "igObjectList")
        }
        other => panic!("unexpected result {:?}", other),
    }
    let nameless = igMetaObject {
        name: "igThing".to_string(),
        parent: None,
        shape: igMetaShape::Fields,
        fields: vec![
            igMetaFieldInfo { name: "a".to_string(), kind: igMetaFieldKind::U8, offset: 0 },
            igMetaFieldInfo { name: String::new(), kind: igMetaFieldKind::U8, offset: 1 },
        ],
    };
    assert!(matches!(
        nameless.raw_instantiate(0, igMemoryPool::Default, 0, false),
        Err(igMetaInstantiationError::SetupDefaultFieldsError)
    ));
    let object = nameless.raw_instantiate(7, igMemoryPool::Vertex, 3, true).expect("deferred");
    assert_eq!(object.meta, 7);
    assert_eq!(object.pool, igMemoryPool::Vertex);
    assert_eq!(object.owner, 3);
    assert!(matches!(&object.content, igObjectContent::Fields(v) if v.len() == 2 && v[0].is_none()));
    let strings = igMetaObject {
        name: "igStringRefList".to_string(),
        parent: None,
        shape: igMetaShape::StringRefList,
        fields: Vec::new(),
    };
    let object = strings.raw_instantiate(1, igMemoryPool::Default, 0, false).expect("a list");
    assert!(matches!(&object.content, igObjectContent::StringRefList(v) if v.is_empty()));
}

#[test]
fn registry_finds_the_first_type_of_a_name() {
    let mut imm = igMetadataManager::new();
    for n in ["a", "b", "a"] {
        imm.register(igMetaObject {
            name: n.to_string(),
            parent: None,
            shape: igMetaShape::Fields,
            fields: Vec::new(),
        });
    }
    assert_eq!(imm.get_or_create_meta("a"), Some(0));
    assert_eq!(imm.get_or_create_meta("b"), Some(1));
    assert_eq!(imm.get_or_create_meta("c"), None);
}

#[test]
fn directories_start_empty() {
    let dir = igObjectDirectory::new("a/b.igz", name("ns"));
    assert_eq!(dir.path, "a/b.igz");
    assert_eq!(dir.name.hash, hash("ns"));
    assert!(dir.dependencies.is_empty());
    assert!(!dir.use_name_list);
    assert!(dir.object_list.is_none() && dir.name_list.is_none());
}

#[test]
fn names_are_raised_only_when_every_root_object_has_one() {
    let mut mgr = igObjectStreamManager::new();
    let dir = mgr.push_dir("x.igz", name("x"));
    assert!(!mgr.raise_use_name_list(dir));
    let objects = mgr.add_object(igObjectData {
        meta: 0,
        pool: igMemoryPool::Default,
        owner: dir,
        content: igObjectContent::ObjectList(vec![None, None]),
    });
    let names = mgr.add_object(igObjectData {
        meta: 0,
        pool: igMemoryPool::Default,
        owner: dir,
        content: igObjectContent::NameList(vec![name("only")]),
    });
    mgr.set_lists(dir, Some(objects), Some(names));
    assert!(!mgr.raise_use_name_list(dir));
    assert!(!mgr.directories[dir].use_name_list);
    mgr.set_object_content(names, dir, igObjectContent::NameList(vec![name("a"), name("b")]));
    assert!(mgr.raise_use_name_list(dir));
    assert!(mgr.directories[dir].use_name_list);
    mgr.add_dependency(dir, dir);
    assert_eq!(mgr.directories[dir].dependencies, vec![dir]);
}

#[test]
fn handle_fields_resolve_through_the_named_handles() {
    let mgr = store();
    let mut ctx = context();
    ctx.runtime_fields.handles = vec![16];
    ctx.named_handle_list.push(igHandle::from_handle_name(&igHandleName::new(
        name("alpha"),
        name("things"),
    )));
    let field = igHandleMetaField;
    let mut c = cursor_with(16, 0x8000_0000);
    assert_eq!(field.value_from_igz(&mgr, &mut c, Endian::Little, &mut ctx), Ok(Some(0)));
    assert_eq!(ctx.named_handle_list[0].object, Some(0));
    let mut c = cursor_with(16, 1);
    assert_eq!(
        field.value_from_igz(&mgr, &mut c, Endian::Little, &mut ctx),
        Err(igLoadError::BadIndex)
    );
    let mut c = cursor_with(32, 0);
    assert_eq!(field.value_from_igz(&mgr, &mut c, Endian::Little, &mut ctx), Ok(None));
    let mut c = cursor_with(32, 5);
    assert_eq!(
        field.value_from_igz(&mgr, &mut c, Endian::Little, &mut ctx),
        Err(igLoadError::UnresolvedReference)
    );
    let imm = igMetadataManager::new();
    let mut c = cursor_with(16, 0);
    assert!(matches!(
        imm.read_field(igMetaFieldKind::Handle, &mgr, &mut c, Endian::Little, &mut ctx),
        Ok(Some(igAny::Object(0)))
    ));
}

#[test]
fn memory_fields_name_blocks_of_the_file() {
    let mgr = igObjectStreamManager::new();
    let mut ctx = context();
    ctx.runtime_fields.memory_handles = vec![8];
    ctx.thumbnails = vec![(100, 0x4000), (12, 0x5000)];
    let field = igMemoryRefMetaField;
    let mut c = cursor_with(8, 1);
    assert_eq!(field.value_from_igz(&mut c, Endian::Little, &ctx), Ok(Some((12, 0x5000))));
    assert_eq!(c.position(), 12);
    let mut c = cursor_with(8, 2);
    assert_eq!(field.value_from_igz(&mut c, Endian::Little, &ctx), Err(igLoadError::BadIndex));
    let mut c = cursor_with(4, 0);
    assert_eq!(field.value_from_igz(&mut c, Endian::Little, &ctx), Ok(None));
    let mut c = cursor_with(4, 1);
    assert_eq!(
        field.value_from_igz(&mut c, Endian::Little, &ctx),
        Err(igLoadError::UnresolvedReference)
    );
    let mut c = ByteCursor::new(vec![0]);
    assert_eq!(field.value_from_igz(&mut c, Endian::Little, &ctx), Err(igLoadError::UnexpectedEof));
    let imm = igMetadataManager::new();
    let mut c = cursor_with(8, 0);
    assert!(matches!(
        imm.read_field(igMetaFieldKind::MemoryHandle, &mgr, &mut c, Endian::Little, &mut ctx),
        Ok(Some(igAny::Memory(100, 0x4000)))
    ));
}

#[test]
fn directory_without_a_name_list_is_passed_over() {
    // Two directories under one namespace: the older has no name list, the
    // younger names the object.
    let mut mgr = igObjectStreamManager::new();
    let bare = mgr.push_dir("bare.igz", name("things"));
    assert!(!mgr.directories[bare].use_name_list);
    let dir = mgr.push_dir("named.igz", name("things"));
    let thing = mgr.add_object(igObjectData {
        meta: 0,
        pool: igMemoryPool::Default,
        owner: dir,
        content: igObjectContent::Fields(vec![]),
    });
    let objects = mgr.add_object(igObjectData {
        meta: 1,
        pool: igMemoryPool::Default,
        owner: dir,
        content: igObjectContent::ObjectList(vec![Some(thing)]),
    });
    let names = mgr.add_object(igObjectData {
        meta: 2,
        pool: igMemoryPool::Default,
        owner: dir,
        content: igObjectContent::NameList(vec![name("alpha")]),
    });
    mgr.set_lists(dir, Some(objects), Some(names));
    assert!(mgr.raise_use_name_list(dir));
    let mut handle = igHandle::from_handle_name(&igHandleName::new(name("alpha"), name("things")));
    assert_eq!(handle.get_object_alias(&mgr), Some(thing));
}

#[test]
fn interned_handles_carry_the_hashes_of_their_key() {
    let mut manager = igObjectHandleManager::new();
    let first = manager.lookup_handle(igName::from_hash(7), igName::from_hash(9));
    assert_eq!((first.namespace.hash, first.alias.hash), (7, 9));
    let again = manager.lookup_handle(igName::from_hash(7), igName::from_hash(9));
    assert_eq!((again.namespace.hash, again.alias.hash), (7, 9));
    let other = manager.lookup_handle(igName::from_hash(9), igName::from_hash(7));
    assert_eq!((other.namespace.hash, other.alias.hash), (9, 7));
    assert_eq!(manager.handle_count(), 2);
}
