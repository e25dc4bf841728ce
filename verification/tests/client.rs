use ig_library::base::ig_ark_core::{
    game_from_name, game_name, igArkCore, init_script_path, EGame,
};
use ig_library::base::ig_core_platform::{
    is_64bit, platform_from_index, platform_from_name, platform_name, IG_CORE_PLATFORM,
};
use ig_library::base::ig_memory::{igMemoryPool, EMemoryPoolID, MP_POOL_COUNT};
use ig_library::base::ig_registry::{igRegistry, BuildTool};
use ig_library::client::archive::archive_path;
use ig_library::client::laboratory_editor::{display_name, VVLaboratoryEditor};
use ig_library::client::precache::{
    engine_type, igPrecacheError, igPrecached, igScriptProblem, igTaskResult, load_init_script,
    package_outcome, package_path, package_path_of, parse_file_path, parse_task, process_task,
    script_line, trim_suffix,
    CModelPreCacher, CPreCacher, CPrecacheManager, CScriptPreCacher, igScriptLine, LoaderTask,
};
use ig_library::load::ig_load_error::igLoadError;
use ig_library::load::packed_ints::pack_offsets;
use ig_library::meta::ig_metadata_manager::{igMetaObject, igMetaShape};
use ig_library::util::ig_common::{get_platform_string, has_platform_string, igAlchemy};
use ig_library::util::ig_hash::hash_lower;
use ig_library::util::text::{chars_of, replace_all, string_of};
use ig_library::vfs::ig_file_context::igFileContext;
use ig_library::vfs::ig_fs::igArchiveEntry;
use ig_library::vfs::ig_memory_storage::igMemoryStorage;

fn put32(out: &mut Vec<u8>, at: usize, v: u32) {
    out[at..at + 4].copy_from_slice(&v.to_le_bytes());
}

fn padded(items: &[&str]) -> Vec<u8> {
    let mut out = Vec::new();
    for s in items {
        out.extend_from_slice(s.as_bytes());
        out.push(0);
        if (s.len() + 1) % 2 == 1 {
            out.push(0);
        }
    }
    out
}

/// A package: a container of version 9 whose only root object is a list of
/// strings.
fn package(manifest: &[&str]) -> Vec<u8> {
    let mut fixups: Vec<(&[u8; 4], u32, Vec<u8>)> = vec![
        (b"TMET", 2, padded(&["igObjectList", "igStringRefList"])),
        (b"TSTR", manifest.len() as u32, padded(manifest)),
        (b"RVTB", 2, pack_offsets(&[0, 16], 9).unwrap()),
        (b"ROOT", 1, pack_offsets(&[0], 9).unwrap()),
        (b"ROFS", 1, pack_offsets(&[8], 9).unwrap()),
    ];
    if manifest.is_empty() {
        fixups.remove(1);
    }
    let mut data = vec![0u8; 24 + 4 * manifest.len()];
    put32(&mut data, 0, 0);
    put32(&mut data, 4, 1);
    put32(&mut data, 8, 16);
    put32(&mut data, 16, 1);
    put32(&mut data, 20, manifest.len() as u32);
    for i in 0..manifest.len() {
        put32(&mut data, 24 + 4 * i, i as u32);
    }
    let mut fix_bytes = Vec::new();
    for (tag, count, payload) in &fixups {
        fix_bytes.extend_from_slice(&tag[..]);
        fix_bytes.extend_from_slice(&count.to_le_bytes());
        fix_bytes.extend_from_slice(&((16 + payload.len()) as u32).to_le_bytes());
        fix_bytes.extend_from_slice(&16u32.to_le_bytes());
        fix_bytes.extend_from_slice(payload);
    }
    let data_at = (0x800 + fix_bytes.len() + 15) / 16 * 16;
    let mut out = vec![0u8; data_at];
    out[0..4].copy_from_slice(&[0x01, 0x5A, 0x47, 0x49]);
    put32(&mut out, 4, 9);
    put32(&mut out, 16, fixups.len() as u32);
    put32(&mut out, 0x18, 0x800);
    put32(&mut out, 0x24, 8);
    put32(&mut out, 0x28, data_at as u32);
    out[0x224..0x224 + 16].copy_from_slice(b"Default\0Default\0");
    out[0x800..0x800 + fix_bytes.len()].copy_from_slice(&fix_bytes);
    out.extend_from_slice(&data);
    out
}

fn alchemy(platform: IG_CORE_PLATFORM) -> igAlchemy {
    let mut core = igArkCore::new(EGame::EV_SkylandersSuperchargers, platform);
    for (name, shape) in
        [("igObjectList", igMetaShape::ObjectList), ("igStringRefList", igMetaShape::StringRefList)]
    {
        core.metadata_manager.register(igMetaObject {
            name: name.to_string(),
            parent: None,
            shape,
            fields: Vec::new(),
        });
    }
    igAlchemy::new(igFileContext::new(String::new(), None), igRegistry::new(platform), core)
}

fn lines(text: &str) -> Vec<String> {
    text.lines().map(|l| l.to_string()).collect()
}

#[test]
fn init_script_with_substitution() {
    let mut host = igMemoryStorage::new();
    host.add_file("archives/initial_cafe.pak", b"PAK".to_vec());
    host.add_archive(
        b"PAK".to_vec(),
        vec![igArchiveEntry {
            name: "packages/initial_cafe_pkg.igz".to_string(),
            data: package(&["script", "scripts:/boot.igz", "unheard_of", "x"]),
        }],
    );
    let mut game = alchemy(IG_CORE_PLATFORM::IG_CORE_PLATFORM_CAFE);
    let script = lines("[engine_type]\nAlchemyLaboratory\n[full_package]\ninitial_${platform_string}\n");
    let problems = load_init_script(&host, &script, false, &mut game);
    assert!(problems.is_empty());
    assert_eq!(game.registry.build_tool, BuildTool::AlchemyLaboratory);
    let cached = game
        .object_stream_manager
        .path_to_directory_lookup
        .get(&hash_lower("packages/initial_cafe_pkg.igz"))
        .copied();
    assert_eq!(cached, Some(0));
    assert_eq!(game.object_stream_manager.directories[0].path, "packages/initial_cafe_pkg.igz");
    assert_eq!(game.file_context.archive_manager._archives.len(), 1);
    assert_eq!(
        game.file_context.archive_manager._archives[0]._path,
        "app:/archives/initial_cafe.pak"
    );
}

#[test]
fn weak_load_switches_full_packages_off() {
    let host = igMemoryStorage::new();
    let mut game = alchemy(IG_CORE_PLATFORM::IG_CORE_PLATFORM_CAFE);
    let script = lines("[engine_type]\nAlchemyLaboratory\n[full_package]\ninitial\n");
    let problems = load_init_script(&host, &script, true, &mut game);
    assert!(problems.is_empty());
    assert!(game.object_stream_manager.directories.is_empty());
}

#[test]
fn init_script_reports_problems_by_line() {
    let host = igMemoryStorage::new();
    let mut game = alchemy(IG_CORE_PLATFORM::IG_CORE_PLATFORM_CAFE);
    let script = lines(
        "missing.pak\n\n[what]\nignored\n[engine_type]\nUnreal\n[loose_package]\n${nope}\nabsent\n[loose_pak\nnever\n",
    );
    let problems = load_init_script(&host, &script, false, &mut game);
    let seen: Vec<(usize, igScriptProblem)> =
        problems.iter().map(|p| (p.line_number, p.problem)).collect();
    assert_eq!(
        seen,
        vec![
            (1, igScriptProblem::Failed(igTaskResult::ArchiveNotMounted)),
            (3, igScriptProblem::UnknownTask),
            (6, igScriptProblem::Failed(igTaskResult::InvalidEngineType)),
            (8, igScriptProblem::MalformedPath),
            (9, igScriptProblem::Failed(igTaskResult::ArchiveNotMounted)),
            (10, igScriptProblem::UnterminatedTask),
        ]
    );
    assert_eq!(game.registry.build_tool, BuildTool::NoTool);
}

#[test]
fn script_lines_and_tasks() {
    assert_eq!(script_line(""), igScriptLine::Empty);
    assert_eq!(script_line("[loose_pak]"), igScriptLine::Task);
    assert_eq!(script_line("[loose_pak"), igScriptLine::UnterminatedTask);
    assert_eq!(script_line("["), igScriptLine::UnterminatedTask);
    assert_eq!(script_line("a[b]"), igScriptLine::Path);
    assert_eq!(parse_task("[loose_package]".to_string(), false), LoaderTask::LoosePackage);
    assert_eq!(parse_task("[loose_pak]".to_string(), true), LoaderTask::LooseIga);
    assert_eq!(parse_task("[full_package]".to_string(), false), LoaderTask::FullPackage);
    assert_eq!(parse_task("[full_package]".to_string(), true), LoaderTask::NoOp);
    assert_eq!(parse_task("[engine_type]".to_string(), false), LoaderTask::EngineType);
    assert_eq!(parse_task("[Engine_Type]".to_string(), false), LoaderTask::Unknown);
    assert_eq!(parse_task("[]".to_string(), false), LoaderTask::Unknown);
    assert_eq!(parse_task("[".to_string(), false), LoaderTask::Unknown);
    assert_eq!(engine_type("None"), Some(BuildTool::NoTool));
    assert_eq!(engine_type("AlchemyLaboratory"), Some(BuildTool::AlchemyLaboratory));
    assert_eq!(engine_type("TfbTool"), Some(BuildTool::TfbTool));
    assert_eq!(engine_type("tfbtool"), None);
}

#[test]
fn tokens_are_put_into_paths() {
    let cafe = igRegistry::new(IG_CORE_PLATFORM::IG_CORE_PLATFORM_CAFE);
    let path = |line: &str| parse_file_path(line.to_string(), &cafe);
    assert_eq!(path("initial_${platform_string}"), Some("initial_cafe".to_string()));
    assert_eq!(
        path("${platform_string}/a_${platform_string}.pak"),
        Some("cafe/a_cafe.pak".to_string())
    );
    assert_eq!(path("plain"), Some("plain".to_string()));
    assert_eq!(path(""), Some(String::new()));
    assert_eq!(path("a${}"), None);
    assert_eq!(path("a${platform}"), None);
    assert_eq!(path("a${platform_string"), None);
    assert_eq!(path("a$b"), None);
    assert_eq!(path("cost$"), Some("cost".to_string()));
    assert_eq!(path("a}b"), Some("a}b".to_string()));
    let ngp = igRegistry::new(IG_CORE_PLATFORM::IG_CORE_PLATFORM_NGP);
    assert_eq!(parse_file_path("x_${platform_string}".to_string(), &ngp), None);
    assert_eq!(parse_file_path("x".to_string(), &ngp), Some("x".to_string()));
}

#[test]
fn platform_strings() {
    let name = |p| get_platform_string(p);
    assert_eq!(name(IG_CORE_PLATFORM::IG_CORE_PLATFORM_WIN32), "win");
    assert_eq!(name(IG_CORE_PLATFORM::IG_CORE_PLATFORM_ASPEN), "aspenLow");
    assert_eq!(name(IG_CORE_PLATFORM::IG_CORE_PLATFORM_ASPEN64), "aspenHigh");
    assert_eq!(name(IG_CORE_PLATFORM::IG_CORE_PLATFORM_DEFAULT), "unknown");
    assert_eq!(name(IG_CORE_PLATFORM::IG_CORE_PLATFORM_WII), "wii");
    assert_eq!(name(IG_CORE_PLATFORM::IG_CORE_PLATFORM_DURANGO), "durango");
    assert_eq!(name(IG_CORE_PLATFORM::IG_CORE_PLATFORM_XENON), "xenon");
    assert_eq!(name(IG_CORE_PLATFORM::IG_CORE_PLATFORM_PS3), "ps3");
    assert_eq!(name(IG_CORE_PLATFORM::IG_CORE_PLATFORM_OSX), "osx");
    assert_eq!(name(IG_CORE_PLATFORM::IG_CORE_PLATFORM_WIN64), "win64");
    assert_eq!(name(IG_CORE_PLATFORM::IG_CORE_PLATFORM_CAFE), "cafe");
    assert_eq!(name(IG_CORE_PLATFORM::IG_CORE_PLATFORM_RASPI), "raspi");
    assert_eq!(name(IG_CORE_PLATFORM::IG_CORE_PLATFORM_ANDROID), "android");
    assert_eq!(name(IG_CORE_PLATFORM::IG_CORE_PLATFORM_LGTV), "lgtv");
    assert_eq!(name(IG_CORE_PLATFORM::IG_CORE_PLATFORM_PS4), "ps4");
    assert_eq!(name(IG_CORE_PLATFORM::IG_CORE_PLATFORM_WP8), "wp8");
    assert_eq!(name(IG_CORE_PLATFORM::IG_CORE_PLATFORM_LINUX), "linux");
    assert_eq!(name(IG_CORE_PLATFORM::IG_CORE_PLATFORM_NX), "nx");
    assert!(has_platform_string(IG_CORE_PLATFORM::IG_CORE_PLATFORM_NX));
    assert!(!has_platform_string(IG_CORE_PLATFORM::IG_CORE_PLATFORM_NGP));
    assert!(!has_platform_string(IG_CORE_PLATFORM::IG_CORE_PLATFORM_MARMALADE));
    assert!(!has_platform_string(IG_CORE_PLATFORM::IG_CORE_PLATFORM_DEPRECATED));
}

#[test]
fn platforms_and_pools() {
    assert_eq!(platform_from_index(0), Some(IG_CORE_PLATFORM::IG_CORE_PLATFORM_DEFAULT));
    assert_eq!(platform_from_index(9), Some(IG_CORE_PLATFORM::IG_CORE_PLATFORM_CAFE));
    assert_eq!(platform_from_index(20), Some(IG_CORE_PLATFORM::IG_CORE_PLATFORM_DEPRECATED));
    assert_eq!(platform_from_index(21), None);
    assert!(is_64bit(IG_CORE_PLATFORM::IG_CORE_PLATFORM_PS4));
    assert!(!is_64bit(IG_CORE_PLATFORM::IG_CORE_PLATFORM_WII));
    assert_eq!(igMemoryPool::from_str("Default"), Some(igMemoryPool::Default));
    assert_eq!(igMemoryPool::from_str("VertexObject"), Some(igMemoryPool::VertexObject));
    assert_eq!(igMemoryPool::from_str("MEM2"), Some(igMemoryPool::MEM2));
    assert_eq!(igMemoryPool::from_str("default"), None);
    assert_eq!(igMemoryPool::from_str(""), None);
    assert_eq!(EMemoryPoolID::MP_DEFAULT.index(), 0);
    assert_eq!(EMemoryPoolID::MP_RENDER.index(), MP_POOL_COUNT - 1);
}

#[test]
fn package_names_are_normalized() {
    assert_eq!(package_path("initial_cafe"), "packages/initial_cafe_pkg.igz");
    assert_eq!(package_path("Initial_CAFE"), "packages/initial_cafe_pkg.igz");
    assert_eq!(package_path("packages/generated/a"), "packages/generated/a_pkg.igz");
    assert_eq!(package_path("packagesX"), "packages/packagesx_pkg.igz");
    assert_eq!(package_path("packages_x"), "packages/packages_x_pkg.igz");
    assert_eq!(package_path("Packages/X"), "packages/x_pkg.igz");
    assert_eq!(package_path_of("packages/x"), "packages/x_pkg.igz");
    assert_eq!(package_path_of("X"), "packages/X_pkg.igz");
    assert_eq!(package_path("a_pkg.igz"), "packages/a_pkg.igz");
    assert_eq!(trim_suffix("a_pkg.igz_pkg.igz", "_pkg.igz"), "a");
    assert_eq!(trim_suffix("a_pkg.ig", "_pkg.igz"), "a_pkg.ig");
    assert_eq!(trim_suffix("abc", ""), "abc");
    assert_eq!(archive_path("initial_cafe"), "app:/archives/initial_cafe.pak");
}

#[test]
fn precachers_are_registered_by_tag() {
    let mut manager = CPrecacheManager::new();
    assert!(manager.resource_pre_cachers.is_empty());
    assert_eq!(manager.pool_package_lookup.len(), MP_POOL_COUNT);
    manager.register_pre_cachers();
    assert_eq!(manager.resource_pre_cachers.len(), 27);
    let of = |tag: &str| manager.resource_pre_cacher_lookup.get(tag).map(|i| manager.resource_pre_cachers[*i]);
    assert_eq!(of("model"), Some(CPreCacher::Model(CModelPreCacher)));
    assert_eq!(of("sky_model"), Some(CPreCacher::Model(CModelPreCacher)));
    assert_eq!(of("script"), Some(CPreCacher::Script(CScriptPreCacher)));
    assert!(matches!(of("pkg"), Some(CPreCacher::OtherPackage(_))));
    assert!(matches!(of("hkc_character"), Some(CPreCacher::BehaviorAsset(_))));
    assert!(matches!(of("spawnmesh"), Some(CPreCacher::IgFile(_))));
    assert_eq!(of("Model"), None);
    manager.register("script", CPreCacher::Model(CModelPreCacher));
    let of = |tag: &str| manager.resource_pre_cacher_lookup.get(tag).map(|i| manager.resource_pre_cachers[*i]);
    assert_eq!(of("script"), Some(CPreCacher::Model(CModelPreCacher)));
}

#[test]
fn cached_packages_are_found_in_lowercase() {
    let mut manager = CPrecacheManager::new();
    manager.pool_package_lookup[EMemoryPoolID::MP_DEFAULT.index()]
        .push("packages/a_pkg.igz".to_string());
    assert!(manager.package_cached("packages/a_pkg.igz", EMemoryPoolID::MP_DEFAULT));
    assert!(manager.package_cached("Packages/A_pkg.IGZ", EMemoryPoolID::MP_DEFAULT));
    assert!(!manager.package_cached("packages/a_pkg.igz", EMemoryPoolID::MP_LEVEL));
    assert!(!manager.package_cached("packages/b_pkg.igz", EMemoryPoolID::MP_DEFAULT));
}

#[test]
fn precaching_follows_the_build_tool() {
    let mut host = igMemoryStorage::new();
    host.add_file("archives/a.pak", b"A".to_vec());
    host.add_archive(
        b"A".to_vec(),
        vec![igArchiveEntry { name: "packages/a_pkg.igz".to_string(), data: package(&[]) }],
    );
    host.add_file("archives/n.pak", b"N".to_vec());
    let mut rootless = package(&[]);
    rootless[16] = 1;
    host.add_archive(
        b"N".to_vec(),
        vec![
            igArchiveEntry { name: "packages/n_pkg.igz".to_string(), data: rootless },
            igArchiveEntry { name: "packages/broken_pkg.igz".to_string(), data: vec![0; 64] },
        ],
    );
    host.add_file("archives/broken.pak", b"N".to_vec());
    host.add_file("world/level.bld", package(&["model", "m.igz"]));
    let mut game = alchemy(IG_CORE_PLATFORM::IG_CORE_PLATFORM_CAFE);
    let mut run = |game: &mut igAlchemy, name: &str| {
        game.client.precache_manager.precache_package(
            &host,
            &game.client.archive_loader,
            &game.client.content_deployment,
            &game.registry,
            &mut game.file_context,
            &mut game.object_stream_manager,
            &game.ig_ext_ref_system,
            &mut game.ig_object_handle_manager,
            &game.ark_core.metadata_manager,
            name.to_string(),
            EMemoryPoolID::MP_DEFAULT,
        )
    };
    assert_eq!(run(&mut game, "a"), Ok(igPrecached::NoBuildTool));
    game.registry.build_tool = BuildTool::AlchemyLaboratory;
    assert_eq!(run(&mut game, "A"), Ok(igPrecached::Loaded(0)));
    assert_eq!(run(&mut game, "b"), Err(igPrecacheError::ArchiveUnavailable));
    assert_eq!(run(&mut game, ".."), Err(igPrecacheError::BadPackageName));
    assert_eq!(run(&mut game, "n"), Err(igPrecacheError::NotAPackage));
    assert_eq!(
        run(&mut game, "broken"),
        Err(igPrecacheError::LoadFailed(igLoadError::BadMagic))
    );
    game.client.precache_manager.pool_package_lookup[0].push("packages/c_pkg.igz".to_string());
    assert_eq!(run(&mut game, "C"), Ok(igPrecached::AlreadyCached));
    game.registry.build_tool = BuildTool::TfbTool;
    assert_eq!(run(&mut game, "world"), Ok(igPrecached::Loaded(3)));
    assert_eq!(
        run(&mut game, "moon"),
        Err(igPrecacheError::LoadFailed(igLoadError::FileNotFound))
    );
    assert_eq!(game.object_stream_manager.directories[3].path, "world/level.bld");
}

#[test]
fn tasks_are_carried_out() {
    let mut host = igMemoryStorage::new();
    host.add_file("archives/one.pak", b"1".to_vec());
    host.add_file("loose.pak", b"2".to_vec());
    host.add_archive(b"1".to_vec(), vec![]);
    host.add_archive(b"2".to_vec(), vec![]);
    let mut game = alchemy(IG_CORE_PLATFORM::IG_CORE_PLATFORM_CAFE);
    let mut run = |game: &mut igAlchemy, task: LoaderTask, line: &str| {
        process_task(
            &host,
            &game.client,
            &mut game.file_context,
            &mut game.registry,
            &mut game.object_stream_manager,
            &game.ig_ext_ref_system,
            &mut game.ig_object_handle_manager,
            &game.ark_core.metadata_manager,
            task,
            line.to_string(),
        )
    };
    assert_eq!(run(&mut game, LoaderTask::LoosePackage, "one"), igTaskResult::Done);
    assert_eq!(run(&mut game, LoaderTask::LooseIga, "loose.pak"), igTaskResult::Done);
    assert_eq!(run(&mut game, LoaderTask::LooseIga, "none.pak"), igTaskResult::ArchiveNotMounted);
    assert_eq!(run(&mut game, LoaderTask::NoOp, "anything"), igTaskResult::Done);
    assert_eq!(run(&mut game, LoaderTask::Unknown, "anything"), igTaskResult::Done);
    assert_eq!(run(&mut game, LoaderTask::EngineType, "TfbTool"), igTaskResult::Done);
    assert_eq!(game.registry.build_tool, BuildTool::TfbTool);
    assert_eq!(run(&mut game, LoaderTask::EngineType, "none"), igTaskResult::InvalidEngineType);
    assert_eq!(game.registry.build_tool, BuildTool::TfbTool);
    assert_eq!(run(&mut game, LoaderTask::EngineType, "None"), igTaskResult::Done);
    assert_eq!(
        run(&mut game, LoaderTask::FullPackage, "p"),
        igTaskResult::Precached(igPrecached::NoBuildTool)
    );
    let paths: Vec<&str> =
        game.file_context.archive_manager._archives.iter().map(|a| a._path.as_str()).collect();
    assert_eq!(paths, vec!["app:/archives/one.pak", "loose.pak"]);
}

#[test]
fn replace_takes_every_occurrence() {
    let run = |s: &str, from: &str, to: &str| {
        string_of(&replace_all(&chars_of(s), &chars_of(from), &chars_of(to)))
    };
    assert_eq!(run("aXbXc", "X", "--"), "a--b--c");
    assert_eq!(run("aaa", "aa", "b"), "ba");
    assert_eq!(run("abc", "", "x"), "abc");
    assert_eq!(run("", "a", "x"), "");
    assert_eq!(display_name("packages/generated/zone1_pkg.igz"), "zone1");
    assert_eq!(display_name("zone1"), "zone1");
}

#[test]
fn browser_lists_and_filters_packages() {
    let mut host = igMemoryStorage::new();
    host.add_file(
        "packages/generated/zone1_pkg.igz",
        package(&["lang_file", "strings/en.lng", "model", "m.igz", "lang_file", "strings/no.lng"]),
    );
    host.add_file("packages/generated/menu_pkg.igz", package(&[]));
    host.add_file("strings/en.lng", package(&[]));
    host.add_file("plain.igz", package(&[]));
    let mut game = alchemy(IG_CORE_PLATFORM::IG_CORE_PLATFORM_CAFE);
    for path in ["packages/generated/zone1_pkg.igz", "plain.igz", "packages/generated/menu_pkg.igz"] {
        game.object_stream_manager
            .load(
                &host,
                &game.file_context,
                &game.registry,
                &game.ark_core.metadata_manager,
                &game.ig_ext_ref_system,
                &mut game.ig_object_handle_manager,
                path.to_string(),
            )
            .expect("loads");
    }
    let mut editor = VVLaboratoryEditor::new(&host, &mut game);
    let shown: Vec<&str> = editor.loaded_packages.iter().map(|p| p.display_name.as_str()).collect();
    assert_eq!(shown, vec!["zone1", "menu"]);
    let en = game.object_stream_manager.path_to_directory_lookup[&hash_lower("strings/en.lng")];
    assert_eq!(editor.loaded_packages[0].lang_file_list, vec![en]);
    assert!(editor.loaded_packages[1].lang_file_list.is_empty());
    assert!(editor.filtered_packages.is_empty());

    editor.search_bar_contents = "n".to_string();
    editor.filter_packages();
    assert_eq!(editor.filtered_packages, vec!["zone1", "menu"]);
    assert_eq!(editor.old_search_bar_contents, "n");
    editor.search_bar_contents = "zone".to_string();
    editor.filter_packages();
    assert_eq!(editor.filtered_packages, vec!["zone1"]);
    editor.search_bar_contents = "Zone".to_string();
    editor.filter_packages();
    assert!(editor.filtered_packages.is_empty());
    editor.search_bar_contents = String::new();
    editor.filter_packages();
    assert_eq!(editor.filtered_packages.len(), 2);
}

#[test]
fn game_names_are_read_back() {
    let name = game_name(EGame::EV_SkylandersSuperchargers);
    assert_eq!(name, "EV_SkylandersSuperchargers");
    assert_eq!(game_from_name(&name), Some(EGame::EV_SkylandersSuperchargers));
    assert_eq!(game_from_name("EV_SkylandersGiants_3DS"), Some(EGame::EV_SkylandersGiants_3DS));
    assert_eq!(game_from_name("ev_none"), None);
    assert_eq!(game_from_name(""), None);
    assert_eq!(
        init_script_path(EGame::EV_SkylandersImaginators),
        "ArkCore/EV_SkylandersImaginators/initscript"
    );
}

#[test]
fn platform_names_are_read_back() {
    let name = platform_name(IG_CORE_PLATFORM::IG_CORE_PLATFORM_CAFE);
    assert_eq!(name, "IG_CORE_PLATFORM_CAFE");
    assert_eq!(platform_from_name(&name), Some(IG_CORE_PLATFORM::IG_CORE_PLATFORM_CAFE));
    assert_eq!(
        platform_from_name("IG_CORE_PLATFORM_ASPEN64"),
        Some(IG_CORE_PLATFORM::IG_CORE_PLATFORM_ASPEN64)
    );
    assert_eq!(platform_from_name("IG_CORE_PLATFORM_ASPEN6"), None);
    assert_eq!(platform_from_name("CAFE"), None);
}

#[test]
fn files_go_to_the_precacher_of_their_type() {
    let mut game = igAlchemy::new(
        igFileContext::new(String::new(), None),
        igRegistry::new(IG_CORE_PLATFORM::IG_CORE_PLATFORM_CAFE),
        igArkCore::new(EGame::EV_SkylandersSuperchargers, IG_CORE_PLATFORM::IG_CORE_PLATFORM_CAFE),
    );
    let host = igMemoryStorage::new();
    let manifest: Vec<String> =
        ["model", "a.igz", "nothing", "b.igz", "script", "c.lua", "model"]
            .iter()
            .map(|s| s.to_string())
            .collect();
    let handed = game.client.precache_manager.precache_files(
        &host,
        &game.client.archive_loader,
        &game.client.content_deployment,
        &game.registry,
        &mut game.file_context,
        &mut game.object_stream_manager,
        &game.ig_ext_ref_system,
        &game.ark_core.metadata_manager,
        &manifest,
    );
    assert_eq!(
        handed,
        vec![(CPreCacher::Model(CModelPreCacher), 1), (CPreCacher::Script(CScriptPreCacher), 5)]
    );
    assert!(game.object_stream_manager.directories.is_empty());
    let none = game.client.precache_manager.precache_files(
        &host,
        &game.client.archive_loader,
        &game.client.content_deployment,
        &game.registry,
        &mut game.file_context,
        &mut game.object_stream_manager,
        &game.ig_ext_ref_system,
        &game.ark_core.metadata_manager,
        &vec!["model".to_string()],
    );
    assert!(none.is_empty());
}

#[test]
fn outcome_of_a_package_follows_the_answers() {
    assert_eq!(package_outcome(false, None, false), Err(igPrecacheError::ArchiveUnavailable));
    assert_eq!(
        package_outcome(true, Some(Err(igLoadError::BadMagic)), false),
        Err(igPrecacheError::LoadFailed(igLoadError::BadMagic))
    );
    assert_eq!(package_outcome(true, Some(Ok(3)), false), Err(igPrecacheError::NotAPackage));
    assert_eq!(package_outcome(true, Some(Ok(3)), true), Ok(igPrecached::Loaded(3)));
}
