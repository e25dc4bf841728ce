use ig_library::base::ig_core_platform::IG_CORE_PLATFORM;
use ig_library::base::ig_registry::igRegistry;
use ig_library::util::byteorder_fixes::ByteCursor;
use ig_library::vfs::ig_archive::{igArchive, igArchiveManager};
use ig_library::vfs::ig_file_context::{
    get_file_name, get_native_path, igFileContext, interpret_path, virtual_device,
};
use ig_library::vfs::ig_fs::{
    igArchiveEntry, igFileDescriptor, igFileWorkItem, igHostRead, igHostStorage,
    igProcessorKind, WorkItemBuffer, WorkStatus, WorkType,
};
use ig_library::vfs::ig_memory_storage::igMemoryStorage;
use ig_library::vfs::ig_std_lib_storage_device::{
    conclude_open, find_case_insensitive_path, finish_open, igStdLibStorageDevice, join_path,
    retry_path, split_parent,
};

#[test]
fn virtual_media_rewrite() {
    assert_eq!(interpret_path("materials:/chair.igz"), "materialInstances/chair.igz");
    assert_eq!(interpret_path("data:/x.igz"), "/x.igz");
    assert_eq!(interpret_path("C:/foo"), "C:/foo");
}

#[test]
fn media_table() {
    assert_eq!(interpret_path("luts:/warm.igz"), "loosetextures/luts/warm.igz");
    assert_eq!(interpret_path("actors:/hero.igz"), "actors/hero.igz");
    assert_eq!(interpret_path("ui:/hud.igz"), "ui/hud.igz");
    assert_eq!(virtual_device("vfx"), Some("vfx"));
    assert_eq!(virtual_device("data"), Some(""));
    assert_eq!(virtual_device("Materials"), None);
    assert_eq!(virtual_device("app"), None);
}

#[test]
fn unknown_media_are_stripped() {
    assert_eq!(interpret_path("app:/archives/a.pak"), "archives/a.pak");
    assert_eq!(interpret_path("cwd:/x"), "x");
    assert_eq!(interpret_path("abc:"), "");
    assert_eq!(interpret_path("abc:/"), "");
}

#[test]
fn paths_without_medium_stand_for_themselves() {
    assert_eq!(interpret_path("plain/path.igz"), "plain/path.igz");
    assert_eq!(interpret_path(""), "");
    assert_eq!(interpret_path(":/x"), ":/x");
    assert_eq!(interpret_path("a:/x"), "a:/x");
}

#[test]
fn interpreting_twice_changes_nothing_without_a_second_medium() {
    for p in ["materials:/chair.igz", "data:/x.igz", "C:/foo", "app:/a/b", "x", "luts:/a.b"] {
        let once = interpret_path(p);
        assert_eq!(interpret_path(&once), once);
    }
    // a second medium in the rest is interpreted by a second pass
    assert_eq!(interpret_path("app:/maps:/x"), "maps:/x");
    assert_eq!(interpret_path("maps:/x"), "maps/x");
}

#[test]
fn native_paths_use_forward_slashes() {
    assert_eq!(get_native_path("actors:\\hero\\a.igz".to_string()), "actors/hero/a.igz");
    assert_eq!(get_native_path("a\\b".to_string()), "a/b");
    assert_eq!(get_native_path("C:\\games\\x".to_string()), "C:/games/x");
}

#[test]
fn file_names_lose_folder_and_extension() {
    assert_eq!(get_file_name("packages/initial_cafe"), Some("initial_cafe".to_string()));
    assert_eq!(get_file_name("a/b/c.igz"), Some("c".to_string()));
    assert_eq!(get_file_name("c.tar.gz"), Some("c.tar".to_string()));
    assert_eq!(get_file_name(".hidden"), Some(".hidden".to_string()));
    assert_eq!(get_file_name(""), None);
    assert_eq!(get_file_name("a/.."), None);
    // separators and a component `.` at the end do not count
    assert_eq!(get_file_name("dir/"), Some("dir".to_string()));
    assert_eq!(get_file_name("dir//"), Some("dir".to_string()));
    assert_eq!(get_file_name("dir/."), Some("dir".to_string()));
    assert_eq!(get_file_name("a/b.igz/./"), Some("b".to_string()));
    assert_eq!(get_file_name("a/../"), None);
    assert_eq!(get_file_name("/"), None);
    assert_eq!(get_file_name("."), None);
    assert_eq!(get_file_name("./."), None);
    assert_eq!(get_file_name(".."), None);
    assert_eq!(get_file_name("a."), Some("a".to_string()));
    // the same as the standard library gives
    for path in ["dir/", "dir/.", "a/../", "/", ".", "./.", "..", "a.", ".hidden", "c.tar.gz", ""] {
        let expected = std::path::Path::new(path)
            .file_stem()
            .map(|stem| stem.to_string_lossy().into_owned());
        assert_eq!(get_file_name(path), expected, "stem of {:?}", path);
    }
}

#[test]
fn joins_and_splits() {
    assert_eq!(join_path("root", "a/b"), "root/a/b");
    assert_eq!(join_path("root/", "a"), "root/a");
    assert_eq!(join_path("", "a"), "a");
    assert_eq!(join_path("root", "/abs"), "/abs");
    assert_eq!(join_path("root", ""), "root/");
    assert_eq!(split_parent("a/b/c.igz"), ("a/b".to_string(), "c.igz".to_string()));
    assert_eq!(split_parent("c.igz"), (".".to_string(), "c.igz".to_string()));
    assert_eq!(split_parent("/c.igz"), ("/".to_string(), "c.igz".to_string()));
}

#[test]
fn case_insensitive_match_takes_the_first_entry() {
    let entries = vec!["readme".to_string(), "BAR.IGZ".to_string(), "bar.igz".to_string()];
    assert_eq!(find_case_insensitive_path(&entries, "Bar.igz"), Some(1));
    assert_eq!(find_case_insensitive_path(&entries, "README"), Some(0));
    assert_eq!(find_case_insensitive_path(&entries, "baz.igz"), None);
    assert_eq!(find_case_insensitive_path(&Vec::new(), "x"), None);
}

fn open_item(path: &str) -> igFileWorkItem {
    igFileWorkItem {
        _file: igFileDescriptor {
            _path: path.to_string(),
            _position: 0,
            _size: 0,
            _device: None,
            _handle: None,
            _flags: 0,
            _work_item_active_count: 0,
            endianness: ig_library::base::ig_core_platform::Endian::Unknown,
        },
        _path: path.to_string(),
        flags: 0,
        work_type: WorkType::kTypeOpen,
        _status: WorkStatus::kStatusActive,
        _offset: 0,
        _buffer: WorkItemBuffer::Invalid,
    }
}

fn host_with(files: &[(&str, &[u8])]) -> igMemoryStorage {
    let mut host = igMemoryStorage::new();
    for (path, data) in files {
        host.add_file(path, data.to_vec());
    }
    host
}

#[test]
fn case_insensitive_open() {
    let host = host_with(&[("game/foo/BAR.IGZ", b"bar")]);
    let device = igStdLibStorageDevice::new();
    let mut item = open_item("foo/Bar.igz");
    device.open(&host, "game", &mut item);
    assert_eq!(item._status, WorkStatus::kStatusComplete);
    assert_eq!(item._file._handle.as_ref().map(|h| h.data.clone()), Some(b"bar".to_vec()));
    assert_eq!(item._file._size, 3);
    assert_eq!(item._file._device, Some(igProcessorKind::StorageDevice));

    // the folder is looked up as it is written
    let mut item = open_item("Foo/Bar.igz");
    device.open(&host, "game", &mut item);
    assert_eq!(item._status, WorkStatus::kStatusInvalidPath);
    assert!(item._file._handle.is_none());

    // without the folder the path is invalid
    let mut item = open_item("nothing/Bar.igz");
    device.open(&host, "game", &mut item);
    assert_eq!(item._status, WorkStatus::kStatusInvalidPath);

    // a folder without a matching entry
    let mut item = open_item("foo/other.igz");
    device.open(&host, "game", &mut item);
    assert_eq!(item._status, WorkStatus::kStatusInvalidPath);
}

#[test]
fn exact_name_wins_over_the_scan() {
    let host = host_with(&[("g/A.IGZ", b"upper"), ("g/a.igz", b"lower")]);
    let device = igStdLibStorageDevice::new();
    let mut item = open_item("a.igz");
    device.open(&host, "g", &mut item);
    assert_eq!(item._file._handle.map(|h| h.data), Some(b"lower".to_vec()));
    let mut item = open_item("a.IGZ");
    device.open(&host, "g", &mut item);
    assert_eq!(item._file._handle.map(|h| h.data), Some(b"upper".to_vec()));
}

#[test]
fn finish_open_maps_the_answer_of_the_host() {
    let mut item = open_item("x");
    finish_open(&mut item, igHostRead::Failed);
    assert_eq!(item._status, WorkStatus::kStatusGeneralError);
    let mut item = open_item("x");
    finish_open(&mut item, igHostRead::NotFound);
    assert_eq!(item._status, WorkStatus::kStatusInvalidPath);
    let mut item = open_item("x");
    finish_open(&mut item, igHostRead::Data(vec![1, 2]));
    assert_eq!(item._status, WorkStatus::kStatusComplete);
    assert_eq!(item._file._handle.map(|h| (h.data, h.position)), Some((vec![1, 2], 0)));
}

#[test]
fn unsupported_work_is_a_status() {
    let host = igMemoryStorage::new();
    let device = igStdLibStorageDevice::new();
    for work in [
        WorkType::kTypeWrite,
        WorkType::kTypeTruncate,
        WorkType::kTypeMkdir,
        WorkType::kTypeFileListWithSizes,
        WorkType::kTypeUnlink,
        WorkType::kTypeRename,
        WorkType::kTypePrefetch,
        WorkType::kTypeFormat,
        WorkType::kTypeCommit,
    ] {
        let mut item = open_item("x");
        item.work_type = work;
        device.process(&host, "", &mut item);
        assert_eq!(item._status, WorkStatus::kStatusUnsupported);
    }
    let mut item = open_item("x");
    item.work_type = WorkType::kTypeInvalid;
    device.process(&host, "", &mut item);
    assert_eq!(item._status, WorkStatus::kStatusActive);
    let mut item = open_item("x");
    item.work_type = WorkType::kTypeRmdir;
    device.process(&host, "", &mut item);
    assert_eq!(item._status, WorkStatus::kStatusUnsupported);
}

#[test]
fn exists_and_listing() {
    let host = host_with(&[("g/a/x.igz", b"1"), ("g/a/b/y.igz", b"2"), ("g/z.igz", b"3")]);
    let device = igStdLibStorageDevice::new();
    let mut item = open_item("a/x.igz");
    item.work_type = WorkType::kTypeExists;
    device.process(&host, "g", &mut item);
    assert_eq!(item._status, WorkStatus::kStatusComplete);
    let mut item = open_item("a/none.igz");
    item.work_type = WorkType::kTypeExists;
    device.process(&host, "g", &mut item);
    assert_eq!(item._status, WorkStatus::kStatusInvalidPath);

    let mut item = open_item("g/a");
    item.work_type = WorkType::kTypeFileList;
    item._buffer = WorkItemBuffer::StringRefList(vec!["kept".to_string()]);
    device.process(&host, "g", &mut item);
    assert_eq!(item._status, WorkStatus::kStatusComplete);
    match item._buffer {
        WorkItemBuffer::StringRefList(list) => {
            assert_eq!(list, vec!["kept", "g/a/x.igz", "g/a/b/y.igz"]);
        }
        _ => panic!("the list is kept"),
    }
    let mut item = open_item("g/a");
    item.work_type = WorkType::kTypeFileList;
    device.process(&host, "g", &mut item);
    assert_eq!(item._status, WorkStatus::kStatusGeneralError);

    assert_eq!(host.list_directory("g/a"), Some(vec!["x.igz".to_string()]));
    assert_eq!(host.list_directory("g"), Some(vec!["z.igz".to_string()]));
    assert_eq!(host.list_directory("none"), None);
    assert!(host.path_exists("g/a"));
    assert!(host.path_exists("g/z.igz"));
    assert!(!host.path_exists("g/zz"));
    assert!(!host.remove_directory("g"));
}

#[test]
fn read_fills_the_buffer_from_the_open_file() {
    let device = igStdLibStorageDevice::new();
    let mut item = open_item("x");
    item.work_type = WorkType::kTypeRead;
    item._file._handle = Some(ByteCursor::new(vec![10, 11, 12, 13, 14]));
    item._offset = 1;
    item._buffer = WorkItemBuffer::Bytes(vec![0; 3]);
    device.read(&mut item);
    assert_eq!(item._status, WorkStatus::kStatusComplete);
    assert!(matches!(&item._buffer, WorkItemBuffer::Bytes(b) if b == &vec![11, 12, 13]));
    assert_eq!(item._file._handle.as_ref().unwrap().position, 0);

    item._offset = 4;
    device.read(&mut item);
    assert_eq!(item._status, WorkStatus::kStatusEndOfFile);

    item._buffer = WorkItemBuffer::Invalid;
    device.read(&mut item);
    assert_eq!(item._status, WorkStatus::kStatusGeneralError);

    let mut item = open_item("x");
    item._buffer = WorkItemBuffer::Bytes(vec![0; 1]);
    device.read(&mut item);
    assert_eq!(item._status, WorkStatus::kStatusStopped);

    let mut item = open_item("x");
    item._file._handle = Some(ByteCursor::new(vec![1]));
    device.close(&mut item);
    assert!(item._file._handle.is_none());
}

#[test]
fn devices_combine_paths_with_their_folder_or_the_root() {
    let plain = igStdLibStorageDevice::new();
    assert_eq!(plain.get_path(), "");
    assert_eq!(plain.get_name(), "");
    assert_eq!(plain.get_combined_path("game", &open_item("a.igz")), "game/a.igz");
    let update = igStdLibStorageDevice::new_tfb_update_provider("patch");
    assert_eq!(update.get_path(), "patch");
    assert_eq!(update.get_name(), "TFB Update Provider");
    assert_eq!(update.get_combined_path("game", &open_item("a.igz")), "patch/a.igz");
}

fn entry(name: &str, data: &[u8]) -> igArchiveEntry {
    igArchiveEntry { name: name.to_string(), data: data.to_vec() }
}

#[test]
fn patch_archives_win_over_base_archives() {
    let mut manager = igArchiveManager::new();
    manager.mount(igArchive {
        _path: "base.pak".to_string(),
        files: vec![entry("a.igz", b"base-a"), entry("b.igz", b"base-b")],
    });
    manager.mount_patch(igArchive {
        _path: "update.pak".to_string(),
        files: vec![entry("A.IGZ", b"patched-a")],
    });
    assert_eq!(manager.find("a.igz"), Some(&b"patched-a".to_vec()));
    assert_eq!(manager.find("B.igz"), Some(&b"base-b".to_vec()));
    assert_eq!(manager.find("c.igz"), None);
    let mut item = open_item("a.igz");
    manager.process(&mut item);
    assert_eq!(item._status, WorkStatus::kStatusComplete);
    assert_eq!(item._file._device, Some(igProcessorKind::ArchiveManager));
    assert_eq!(item._file._handle.map(|h| h.data), Some(b"patched-a".to_vec()));
    let mut item = open_item("c.igz");
    manager.process(&mut item);
    assert_eq!(item._status, WorkStatus::kStatusActive);
    let mut item = open_item("b.igz");
    item.work_type = WorkType::kTypeExists;
    manager.process(&mut item);
    assert_eq!(item._status, WorkStatus::kStatusComplete);
    assert!(item._file._handle.is_none());
}

#[test]
fn chain_goes_update_folder_then_archives_then_host() {
    let host = host_with(&[
        ("game/a.igz", b"host-a"),
        ("game/b.igz", b"host-b"),
        ("game/c.igz", b"host-c"),
        ("patch/a.igz", b"update-a"),
    ]);
    let registry = igRegistry::new(IG_CORE_PLATFORM::IG_CORE_PLATFORM_CAFE);
    let mut ctx = igFileContext::new("game/".to_string(), Some("patch"));
    assert_eq!(ctx._root, "game");
    ctx.archive_manager.mount(igArchive {
        _path: "x.pak".to_string(),
        files: vec![entry("a.igz", b"archive-a"), entry("b.igz", b"archive-b")],
    });
    let fd = ctx.open(&host, &registry, "a.igz", 0);
    assert_eq!(fd._handle.map(|h| h.data), Some(b"update-a".to_vec()));
    assert_eq!(fd._device, Some(igProcessorKind::UpdateProvider));
    let fd = ctx.open(&host, &registry, "b.igz", 0);
    assert_eq!(fd._handle.map(|h| h.data), Some(b"archive-b".to_vec()));
    assert_eq!(fd._device, Some(igProcessorKind::ArchiveManager));
    let fd = ctx.open(&host, &registry, "c.igz", 0);
    assert_eq!(fd._handle.map(|h| h.data), Some(b"host-c".to_vec()));
    assert_eq!(fd._device, Some(igProcessorKind::StorageDevice));
    let fd = ctx.open(&host, &registry, "d.igz", 0);
    assert!(fd._handle.is_none());
    assert_eq!(fd._path, "d.igz");
    // logical paths are interpreted before they are opened
    let fd = ctx.open(&host, &registry, "app:/c.igz", 0);
    assert_eq!(fd._path, "c.igz");
    assert!(fd._handle.is_some());
}

#[test]
fn root_is_trimmed_and_update_folder_can_be_set() {
    let mut ctx = igFileContext::new("C:\\games\\x\\\\".to_string(), None);
    assert_eq!(ctx._root, "C:\\games\\x");
    assert!(ctx.update_provider.is_none());
    let ctx2 = igFileContext::new("games/x//".to_string(), None);
    assert_eq!(ctx2._root, "games/x");
    ctx.set_update_folder("upd");
    assert_eq!(ctx.update_provider.as_ref().map(|d| d.get_path()), Some("upd".to_string()));
}

#[test]
fn archives_are_mounted_through_the_host() {
    let mut host = host_with(&[("g/archives/one.pak", b"IMAGE-1"), ("g/update.pak", b"IMAGE-2")]);
    host.add_archive(b"IMAGE-1".to_vec(), vec![entry("inside.igz", b"in-1")]);
    host.add_archive(b"IMAGE-2".to_vec(), vec![entry("inside.igz", b"in-2")]);
    let registry = igRegistry::new(IG_CORE_PLATFORM::IG_CORE_PLATFORM_CAFE);
    let mut ctx = igFileContext::new("g".to_string(), None);
    assert!(ctx.load_archive(&host, &registry, "app:/archives/one.pak"));
    assert!(!ctx.load_archive(&host, &registry, "app:/archives/two.pak"));
    assert_eq!(ctx.archive_manager._archives.len(), 1);
    assert_eq!(ctx.archive_manager._archives[0]._path, "app:/archives/one.pak");
    let fd = ctx.open(&host, &registry, "inside.igz", 0);
    assert_eq!(fd._handle.map(|h| h.data), Some(b"in-1".to_vec()));
    assert!(ctx.initialize_update(&host, &registry, "g/update.pak".to_string()));
    assert!(!ctx.initialize_update(&host, &registry, "g/none.pak".to_string()));
    assert_eq!(ctx.archive_manager._patch_archives.len(), 1);
    let fd = ctx.open(&host, &registry, "inside.igz", 0);
    assert_eq!(fd._handle.map(|h| h.data), Some(b"in-2".to_vec()));
    // a file that is no archive is not mounted
    let host2 = host_with(&[("g/x.pak", b"junk")]);
    assert!(!ctx.load_archive(&host2, &registry, "x.pak"));
    assert_eq!(host2.decode_archive(&b"junk".to_vec()).map(|f| f.len()), None);
    assert_eq!(host.list_files("g/archives"), vec!["g/archives/one.pak".to_string()]);
}

#[test]
fn decoded_archives_are_mounted_and_others_are_not() {
    let mut manager = igArchiveManager::new();
    assert!(!manager.mount_decoded("none.pak".to_string(), None, false));
    assert!(!manager.mount_decoded("none.pak".to_string(), None, true));
    assert!(manager._archives.is_empty());
    assert!(manager._patch_archives.is_empty());
    assert!(manager.mount_decoded("base.pak".to_string(), Some(vec![entry("a.igz", b"a")]), false));
    assert_eq!(manager._archives.len(), 1);
    assert_eq!(manager._archives[0]._path, "base.pak");
    assert_eq!(manager._archives[0].files.len(), 1);
    assert!(manager._patch_archives.is_empty());
    assert!(manager.mount_decoded("up.pak".to_string(), Some(vec![entry("A.igz", b"b")]), true));
    assert_eq!(manager._patch_archives.len(), 1);
    assert_eq!(manager._patch_archives[0]._path, "up.pak");
    assert_eq!(manager._archives.len(), 1);
    assert_eq!(manager.find("a.igz"), Some(&b"b".to_vec()));
}

#[test]
fn file_not_found_as_written_is_tried_under_the_listed_name() {
    let listing = Some(vec!["other.igz".to_string(), "BAR.IGZ".to_string()]);
    assert_eq!(retry_path("game/foo", "Bar.igz", &listing), Some("game/foo/BAR.IGZ".to_string()));
    assert_eq!(retry_path("game/foo", "baz.igz", &listing), None);
    assert_eq!(retry_path("game/foo", "Bar.igz", &None), None);
}

#[test]
fn open_ends_with_the_answer_for_the_file_that_was_found() {
    // found as written: the later answer does not count
    let mut item = open_item("a.igz");
    conclude_open(&mut item, igHostRead::Data(vec![1, 2]), Some(igHostRead::Failed));
    assert_eq!(item._status, WorkStatus::kStatusComplete);
    assert_eq!(item._file._handle.as_ref().map(|h| h.data.clone()), Some(vec![1, 2]));
    // found under another name
    let mut item = open_item("a.igz");
    conclude_open(&mut item, igHostRead::NotFound, Some(igHostRead::Data(vec![3])));
    assert_eq!(item._status, WorkStatus::kStatusComplete);
    assert_eq!(item._file._handle.as_ref().map(|h| h.data.clone()), Some(vec![3]));
    assert_eq!(item._file._device, Some(igProcessorKind::StorageDevice));
    // found nowhere
    let mut item = open_item("a.igz");
    conclude_open(&mut item, igHostRead::NotFound, None);
    assert_eq!(item._status, WorkStatus::kStatusInvalidPath);
    assert!(item._file._handle.is_none());
    // found, but not readable
    let mut item = open_item("a.igz");
    conclude_open(&mut item, igHostRead::Failed, None);
    assert_eq!(item._status, WorkStatus::kStatusGeneralError);
}
