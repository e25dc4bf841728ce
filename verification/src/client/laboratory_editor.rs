//! The browser of the packages of a game built with the laboratory tools:
//! which packages are loaded, what they hold, and which of them match a
//! search.

use crate::client::precache::package_manifest;
use crate::object::ig_objects::{
    igObjectDirectoryId, igObjectStreamManager, lemma_extends_is_progress,
    lemma_progress_reflexive, lemma_progress_transitive,
};
use crate::util::ig_common::igAlchemy;
use crate::util::ig_name::igName;
use crate::util::text::{
    chars_of, concat, contains_text, ends_with, has_infix, has_suffix, replace_all, spec_replace,
    string_of, text_equal,
};
use crate::vfs::ig_fs::igHostStorage;
use vstd::prelude::*;

verus! {

/// One loaded package and the containers of its files, by type.
#[derive(Debug)]
pub struct LaboratoryPackage {
    /// The name under which the package is shown.
    pub display_name: String,
    /// The namespace of the package's own container.
    pub name: igName,
    pub pkg_list: Vec<igObjectDirectoryId>,
    pub character_data_list: Vec<igObjectDirectoryId>,
    pub actor_skin_list: Vec<igObjectDirectoryId>,
    pub havok_anim_db_list: Vec<igObjectDirectoryId>,
    pub havok_rigid_body_list: Vec<igObjectDirectoryId>,
    pub havok_physics_system_list: Vec<igObjectDirectoryId>,
    pub texture_list: Vec<igObjectDirectoryId>,
    pub effect_list: Vec<igObjectDirectoryId>,
    pub shader_list: Vec<igObjectDirectoryId>,
    pub motion_path_list: Vec<igObjectDirectoryId>,
    pub igx_file_list: Vec<igObjectDirectoryId>,
    pub material_instances_list: Vec<igObjectDirectoryId>,
    pub igx_entities_list: Vec<igObjectDirectoryId>,
    pub gui_project_list: Vec<igObjectDirectoryId>,
    pub font_list: Vec<igObjectDirectoryId>,
    pub lang_file_list: Vec<igObjectDirectoryId>,
    pub spawn_mesh_list: Vec<igObjectDirectoryId>,
    pub model_list: Vec<igObjectDirectoryId>,
    pub sky_model_list: Vec<igObjectDirectoryId>,
    pub behavior_list: Vec<igObjectDirectoryId>,
    pub graph_data_behavior_list: Vec<igObjectDirectoryId>,
    pub events_behavior_list: Vec<igObjectDirectoryId>,
    pub asset_behavior_list: Vec<igObjectDirectoryId>,
    pub hkb_behavior_list: Vec<igObjectDirectoryId>,
    pub hkc_character_list: Vec<igObjectDirectoryId>,
    pub navmesh_list: Vec<igObjectDirectoryId>,
    pub script_list: Vec<String>,
}

impl LaboratoryPackage {
    /// A package that holds nothing yet.
    pub fn new(display_name: String, name: igName) -> (package: LaboratoryPackage)
        ensures
            package.display_name == display_name,
            package.name == name,
            package.pkg_list@.len() == 0,
            package.character_data_list@.len() == 0,
            package.actor_skin_list@.len() == 0,
            package.havok_anim_db_list@.len() == 0,
            package.havok_rigid_body_list@.len() == 0,
            package.havok_physics_system_list@.len() == 0,
            package.texture_list@.len() == 0,
            package.effect_list@.len() == 0,
            package.shader_list@.len() == 0,
            package.motion_path_list@.len() == 0,
            package.igx_file_list@.len() == 0,
            package.material_instances_list@.len() == 0,
            package.igx_entities_list@.len() == 0,
            package.gui_project_list@.len() == 0,
            package.font_list@.len() == 0,
            package.lang_file_list@.len() == 0,
            package.spawn_mesh_list@.len() == 0,
            package.model_list@.len() == 0,
            package.sky_model_list@.len() == 0,
            package.behavior_list@.len() == 0,
            package.graph_data_behavior_list@.len() == 0,
            package.events_behavior_list@.len() == 0,
            package.asset_behavior_list@.len() == 0,
            package.hkb_behavior_list@.len() == 0,
            package.hkc_character_list@.len() == 0,
            package.navmesh_list@.len() == 0,
            package.script_list@.len() == 0,
    {
        LaboratoryPackage {
            display_name,
            name,
            pkg_list: Vec::new(),
            character_data_list: Vec::new(),
            actor_skin_list: Vec::new(),
            havok_anim_db_list: Vec::new(),
            havok_rigid_body_list: Vec::new(),
            havok_physics_system_list: Vec::new(),
            texture_list: Vec::new(),
            effect_list: Vec::new(),
            shader_list: Vec::new(),
            motion_path_list: Vec::new(),
            igx_file_list: Vec::new(),
            material_instances_list: Vec::new(),
            igx_entities_list: Vec::new(),
            gui_project_list: Vec::new(),
            font_list: Vec::new(),
            lang_file_list: Vec::new(),
            spawn_mesh_list: Vec::new(),
            model_list: Vec::new(),
            sky_model_list: Vec::new(),
            behavior_list: Vec::new(),
            graph_data_behavior_list: Vec::new(),
            events_behavior_list: Vec::new(),
            asset_behavior_list: Vec::new(),
            hkb_behavior_list: Vec::new(),
            hkc_character_list: Vec::new(),
            navmesh_list: Vec::new(),
            script_list: Vec::new(),
        }
    }
}

/// The name under which a package is shown: the name of its container
/// without `packages/generated/` and without `_pkg.igz`.
pub open spec fn spec_display_name(name: Seq<char>) -> Seq<char> {
    spec_replace(
        spec_replace(name, "packages/generated/"@, Seq::empty()),
        "_pkg.igz"@,
        Seq::empty(),
    )
}

/// The names of the first `n` packages that contain the search text, in
/// the order of the packages.
pub open spec fn spec_filtered(packages: Seq<LaboratoryPackage>, search: Seq<char>, n: nat) -> Seq<
    Seq<char>,
>
    decreases n,
{
    if n == 0 {
        Seq::empty()
    } else if contains_text(packages[n - 1].display_name@, search) {
        spec_filtered(packages, search, (n - 1) as nat).push(packages[n - 1].display_name@)
    } else {
        spec_filtered(packages, search, (n - 1) as nat)
    }
}

/// The name under which a package is shown.
pub fn display_name(name: &str) -> (shown: String)
    ensures
        shown@ == spec_display_name(name@),
{
    let chars = chars_of(name);
    let nothing: Vec<char> = Vec::new();
    let without_folder = replace_all(&chars, &chars_of("packages/generated/"), &nothing);
    let without_suffix = replace_all(&without_folder, &chars_of("_pkg.igz"), &nothing);
    string_of(&without_suffix)
}

/// The state of the package browser.
#[derive(Debug)]
pub struct VVLaboratoryEditor {
    /// The loaded packages, each once, in the order in which they were
    /// found.
    pub loaded_packages: Vec<LaboratoryPackage>,
    /// The names of the packages that contain the search text.
    pub filtered_packages: Vec<String>,
    pub search_bar_contents: String,
    pub old_search_bar_contents: String,
}

/// Position of the first package shown under `name`, at or after `from`;
/// the number of packages when there is none.
pub open spec fn spec_find_package(packages: Seq<LaboratoryPackage>, name: Seq<char>, from: int)
    -> int
    decreases packages.len() - from,
{
    if from < 0 || from >= packages.len() {
        packages.len() as int
    } else if packages[from].display_name@ == name {
        from
    } else {
        spec_find_package(packages, name, from + 1)
    }
}

/// Finds the package shown under `name`.
pub fn find_package(packages: &Vec<LaboratoryPackage>, name: &str) -> (position: Option<usize>)
    ensures
        match position {
            Some(p) => p < packages@.len() && p == spec_find_package(packages@, name@, 0),
            None => spec_find_package(packages@, name@, 0) == packages@.len(),
        },
{
    let mut i: usize = 0;
    while i < packages.len()
        invariant
            i <= packages.len(),
            spec_find_package(packages@, name@, 0) == spec_find_package(packages@, name@, i as int),
        decreases packages.len() - i,
    {
        if text_equal(packages[i].display_name.as_str(), name) {
            return Some(i);
        }
        i = i + 1;
    }
    None
}

/// Whether a directory is the container of a package: its name is known
/// and ends in `_pkg.igz`.
pub open spec fn spec_is_package(dir: crate::object::ig_objects::igObjectDirectory) -> bool {
    dir.name.string.is_some() && ends_with(dir.name.string->0@, "_pkg.igz"@)
}

/// The name under which the package of a directory is shown.
pub open spec fn spec_shown_as(dir: crate::object::ig_objects::igObjectDirectory) -> Seq<char> {
    spec_display_name(dir.name.string->0@)
}

/// Whether each of the packages stands for a loaded container of a
/// package, and is shown under the name made from the container's.
pub open spec fn spec_all_from_directories(
    packages: Seq<LaboratoryPackage>,
    mgr: &igObjectStreamManager,
) -> bool {
    forall|k: int|
        0 <= k < packages.len() ==> exists|d: int|
            0 <= d < mgr.directories@.len() && spec_is_package(#[trigger] mgr.directories@[d])
                && spec_shown_as(mgr.directories@[d]) == (#[trigger] packages[k]).display_name@
}

/// Whether each of the first `n` loaded containers that is the container
/// of a package is among the packages.
pub open spec fn spec_every_directory_listed(
    packages: Seq<LaboratoryPackage>,
    mgr: &igObjectStreamManager,
    n: int,
) -> bool {
    forall|d: int|
        0 <= d < n && spec_is_package(#[trigger] mgr.directories@[d]) ==> spec_find_package(
            packages,
            spec_shown_as(mgr.directories@[d]),
            0,
        ) < packages.len()
}

/// Whether no two packages are shown under the same name.
pub open spec fn spec_names_distinct(packages: Seq<LaboratoryPackage>) -> bool {
    forall|a: int, b: int|
        0 <= a < b < packages.len() ==> (#[trigger] packages[a]).display_name@ != (
        #[trigger] packages[b]).display_name@
}

/// A name that is not found from `from` on is the name of no package from
/// there on.
pub proof fn lemma_find_package_none(packages: Seq<LaboratoryPackage>, name: Seq<char>, from: int)
    requires
        0 <= from,
        spec_find_package(packages, name, from) == packages.len(),
    ensures
        forall|k: int| from <= k < packages.len() ==> (#[trigger] packages[k]).display_name@ != name,
    decreases packages.len() - from,
{
    if from < packages.len() {
        lemma_find_package_none(packages, name, from + 1);
    }
}

/// Lists the loaded packages: one for every name that the containers
/// ending in `_pkg.igz` are shown under, in the order of the store.
pub fn list_packages(mgr: &igObjectStreamManager) -> (packages: Vec<LaboratoryPackage>)
    ensures
        spec_all_from_directories(packages@, mgr),
        spec_every_directory_listed(packages@, mgr, mgr.directories@.len() as int),
        forall|p: int|
            0 <= p < packages@.len() ==> (#[trigger] packages@[p]).lang_file_list@.len() == 0,
        spec_names_distinct(packages@),
{
    let mut packages: Vec<LaboratoryPackage> = Vec::new();
    let suffix = chars_of("_pkg.igz");
    let mut d: usize = 0;
    while d < mgr.directories.len()
        invariant
            d <= mgr.directories@.len(),
            suffix@ == "_pkg.igz"@,
            spec_all_from_directories(packages@, mgr),
            spec_every_directory_listed(packages@, mgr, d as int),
            forall|p: int|
                0 <= p < packages@.len() ==> (#[trigger] packages@[p]).lang_file_list@.len() == 0,
            spec_names_distinct(packages@),
        decreases mgr.directories.len() - d,
    {
        let ghost before = packages@;
        match &mgr.directories[d].name.string {
            Some(text) => {
                let chars = chars_of(text.as_str());
                if has_suffix(&chars, &suffix) {
                    let shown = display_name(text.as_str());
                    match find_package(&packages, shown.as_str()) {
                        Some(_) => {},
                        None => {
                            packages.push(
                                LaboratoryPackage::new(shown, mgr.directories[d].name.duplicate()),
                            );
                            proof {
                                lemma_find_package_none(before, shown@, 0);
                                assert forall|a: int, b: int|
                                    0 <= a < b < packages@.len() implies (
                                #[trigger] packages@[a]).display_name@ != (
                                #[trigger] packages@[b]).display_name@ by {
                                    assert(packages@[a] == before[a]);
                                    if b < before.len() {
                                        assert(packages@[b] == before[b]);
                                    }
                                }
                                assert forall|k: int| 0 <= k < packages@.len() implies exists|
                                    e: int,
                                |
                                    0 <= e < mgr.directories@.len() && spec_is_package(
                                        #[trigger] mgr.directories@[e],
                                    ) && spec_shown_as(mgr.directories@[e]) == (
                                    #[trigger] packages@[k]).display_name@ by {
                                    if k < before.len() {
                                        assert(packages@[k] == before[k]);
                                        let e = choose|e: int|
                                            0 <= e < mgr.directories@.len() && spec_is_package(
                                                #[trigger] mgr.directories@[e],
                                            ) && spec_shown_as(mgr.directories@[e])
                                                == before[k].display_name@;
                                        assert(spec_is_package(mgr.directories@[e]));
                                    } else {
                                        assert(spec_is_package(mgr.directories@[d as int]));
                                    }
                                }
                                lemma_find_package_after_push(
                                    before,
                                    packages@.last(),
                                    shown@,
                                );
                            }
                        },
                    }
                }
            },
            None => {},
        }
        proof {
            assert forall|e: int|
                0 <= e < d + 1 && spec_is_package(
                    #[trigger] mgr.directories@[e],
                ) implies spec_find_package(packages@, spec_shown_as(mgr.directories@[e]), 0)
                < packages@.len() by {
                let t = spec_shown_as(mgr.directories@[e]);
                if e < d {
                    assert(spec_find_package(before, t, 0) < before.len());
                    if packages@.len() > before.len() {
                        lemma_find_package_kept(before, packages@.last(), t);
                        assert(packages@ =~= before.push(packages@.last()));
                    }
                } else if packages@.len() > before.len() {
                    assert(packages@ =~= before.push(packages@.last()));
                }
            }
        }
        d = d + 1;
    }
    packages
}

/// A package that is found is still found, at the same place, after
/// another is added at the end.
pub proof fn lemma_find_package_kept(
    packages: Seq<LaboratoryPackage>,
    added: LaboratoryPackage,
    name: Seq<char>,
)
    requires
        spec_find_package(packages, name, 0) < packages.len(),
    ensures
        spec_find_package(packages.push(added), name, 0) == spec_find_package(packages, name, 0),
{
    lemma_find_package_push(packages, added, name, 0);
}

/// A package that is added at the end under a name is found under it.
pub proof fn lemma_find_package_after_push(
    packages: Seq<LaboratoryPackage>,
    added: LaboratoryPackage,
    name: Seq<char>,
)
    requires
        added.display_name@ == name,
    ensures
        spec_find_package(packages.push(added), name, 0) < packages.len() + 1,
{
    lemma_find_package_push(packages, added, name, 0);
}

/// How the search of a list relates to the search of the list with one more
/// package at its end.
pub proof fn lemma_find_package_push(
    packages: Seq<LaboratoryPackage>,
    added: LaboratoryPackage,
    name: Seq<char>,
    from: int,
)
    requires
        0 <= from <= packages.len(),
    ensures
        spec_find_package(packages, name, from) < packages.len() ==> spec_find_package(
            packages.push(added),
            name,
            from,
        ) == spec_find_package(packages, name, from),
        spec_find_package(packages, name, from) >= from,
        added.display_name@ == name ==> spec_find_package(packages.push(added), name, from)
            < packages.len() + 1,
    decreases packages.len() - from,
{
    let longer = packages.push(added);
    if from < packages.len() {
        assert(longer[from] == packages[from]);
        if packages[from].display_name@ != name {
            lemma_find_package_push(packages, added, name, from + 1);
        }
    } else {
        assert(longer[from] == added);
    }
}

impl VVLaboratoryEditor {
    /// The browser of the game that `ig_alchemy` holds.
    ///
    /// Every loaded container whose name ends in `_pkg.igz` is a package.
    /// The container of each package is loaded from `packages/generated/`,
    /// and every language file that its manifest lists is loaded too and
    /// entered in the package; files of other types are passed over.
    /// A package or a file that fails to load is passed over. No search is
    /// active.
    pub fn new<H: igHostStorage>(host: &H, ig_alchemy: &mut igAlchemy) -> (editor:
        VVLaboratoryEditor)
        requires
            old(ig_alchemy).object_stream_manager.wf(),
        ensures
            final(ig_alchemy).object_stream_manager.wf(),
            old(ig_alchemy).object_stream_manager.spec_extends(
                &final(ig_alchemy).object_stream_manager,
            ),
            spec_all_from_directories(
                editor.loaded_packages@,
                &old(ig_alchemy).object_stream_manager,
            ),
            spec_every_directory_listed(
                editor.loaded_packages@,
                &old(ig_alchemy).object_stream_manager,
                old(ig_alchemy).object_stream_manager.directories@.len() as int,
            ),
            spec_names_distinct(editor.loaded_packages@),
            editor.filtered_packages@.len() == 0,
            editor.search_bar_contents@.len() == 0,
            editor.old_search_bar_contents@.len() == 0,
            forall|k: int|
                0 <= k < editor.loaded_packages@.len() ==> forall|j: int|
                    0 <= j < (#[trigger] editor.loaded_packages@[k]).lang_file_list@.len()
                        ==> editor.loaded_packages@[k].lang_file_list@[j]
                            < final(ig_alchemy).object_stream_manager.directories@.len(),
    {
        let mut loaded_packages = list_packages(&ig_alchemy.object_stream_manager);
        let ghost start = ig_alchemy.object_stream_manager;
        let ghost listed = loaded_packages@;
        proof {
            lemma_progress_reflexive(
                &ig_alchemy.object_stream_manager,
                ig_alchemy.object_stream_manager.directories@.len() as int,
                ig_alchemy.object_stream_manager.objects@.len() as int,
            );
        }
        let mut k: usize = 0;
        while k < loaded_packages.len()
            invariant
                k <= loaded_packages@.len(),
                start == old(ig_alchemy).object_stream_manager,
                ig_alchemy.object_stream_manager.wf(),
                start.spec_extends(&ig_alchemy.object_stream_manager),
                loaded_packages@.len() == listed.len(),
                forall|p: int|
                    0 <= p < listed.len() ==> (#[trigger] loaded_packages@[p]).display_name
                        == listed[p].display_name,
                forall|p: int|
                    0 <= p < loaded_packages@.len() ==> forall|j: int|
                        0 <= j < (#[trigger] loaded_packages@[p]).lang_file_list@.len()
                            ==> loaded_packages@[p].lang_file_list@[j]
                            < ig_alchemy.object_stream_manager.directories@.len(),
                forall|p: int|
                    k <= p < loaded_packages@.len() ==> (
                    #[trigger] loaded_packages@[p]).lang_file_list@.len() == 0,
            decreases loaded_packages.len() - k,
        {
            let front = concat("packages/generated/", loaded_packages[k].display_name.as_str());
            let path = concat(front.as_str(), "_pkg.igz");
            let ghost before = ig_alchemy.object_stream_manager;
            let pkg_dir = ig_alchemy.object_stream_manager.load(
                host,
                &ig_alchemy.file_context,
                &ig_alchemy.registry,
                &ig_alchemy.ark_core.metadata_manager,
                &ig_alchemy.ig_ext_ref_system,
                &mut ig_alchemy.ig_object_handle_manager,
                path,
            );
            proof {
                lemma_extends_is_progress(
                    &before,
                    &ig_alchemy.object_stream_manager,
                    start.directories@.len() as int,
                    start.objects@.len() as int,
                );
                lemma_progress_transitive(
                    &start,
                    &before,
                    &ig_alchemy.object_stream_manager,
                    start.directories@.len() as int,
                    start.objects@.len() as int,
                );
            }
            let manifest: Option<Vec<String>> = match pkg_dir {
                Ok(dir) => package_manifest(&ig_alchemy.object_stream_manager, dir),
                Err(_) => None,
            };
            let mut files: Vec<igObjectDirectoryId> = Vec::new();
            match manifest {
                Some(data) => {
                    let mut i: usize = 0;
                    while i < data.len() && data.len() - i >= 2
                        invariant
                            i <= data.len(),
                            start == old(ig_alchemy).object_stream_manager,
                            ig_alchemy.object_stream_manager.wf(),
                            start.spec_extends(&ig_alchemy.object_stream_manager),
                            forall|j: int|
                                0 <= j < files@.len() ==> #[trigger] files@[j]
                                    < ig_alchemy.object_stream_manager.directories@.len(),
                            forall|p: int|
                                0 <= p < loaded_packages@.len() ==> forall|j: int|
                                    0 <= j < (#[trigger] loaded_packages@[p]).lang_file_list@.len()
                                        ==> loaded_packages@[p].lang_file_list@[j]
                                        < ig_alchemy.object_stream_manager.directories@.len(),
                        decreases data.len() - i,
                    {
                        if text_equal(data[i].as_str(), "lang_file") {
                            let ghost before_file = ig_alchemy.object_stream_manager;
                            let loaded = ig_alchemy.object_stream_manager.load(
                                host,
                                &ig_alchemy.file_context,
                                &ig_alchemy.registry,
                                &ig_alchemy.ark_core.metadata_manager,
                                &ig_alchemy.ig_ext_ref_system,
                                &mut ig_alchemy.ig_object_handle_manager,
                                data[i + 1].clone(),
                            );
                            proof {
                                lemma_extends_is_progress(
                                    &before_file,
                                    &ig_alchemy.object_stream_manager,
                                    start.directories@.len() as int,
                                    start.objects@.len() as int,
                                );
                                lemma_progress_transitive(
                                    &start,
                                    &before_file,
                                    &ig_alchemy.object_stream_manager,
                                    start.directories@.len() as int,
                                    start.objects@.len() as int,
                                );
                            }
                            match loaded {
                                Ok(igz) => files.push(igz),
                                Err(_) => {},
                            }
                        }
                        i = i + 2;
                    }
                },
                None => {},
            }
            loaded_packages[k].lang_file_list = files;
            k = k + 1;
        }
        proof {
            assert forall|p: int| 0 <= p < loaded_packages@.len() implies exists|d: int|
                0 <= d < start.directories@.len() && spec_is_package(
                    #[trigger] start.directories@[d],
                ) && spec_shown_as(start.directories@[d]) == (
                #[trigger] loaded_packages@[p]).display_name@ by {
                let d = choose|d: int|
                    0 <= d < start.directories@.len() && spec_is_package(
                        #[trigger] start.directories@[d],
                    ) && spec_shown_as(start.directories@[d]) == listed[p].display_name@;
                assert(spec_is_package(start.directories@[d]));
            }
            assert forall|d: int|
                0 <= d < start.directories@.len() && spec_is_package(
                    #[trigger] start.directories@[d],
                ) implies spec_find_package(
                loaded_packages@,
                spec_shown_as(start.directories@[d]),
                0,
            ) < loaded_packages@.len() by {
                lemma_find_package_same_names(
                    listed,
                    loaded_packages@,
                    spec_shown_as(start.directories@[d]),
                    0,
                );
            }
        }
        VVLaboratoryEditor {
            loaded_packages,
            filtered_packages: Vec::new(),
            search_bar_contents: String::new(),
            old_search_bar_contents: String::new(),
        }
    }

    /// Lists the packages whose name contains the search text, in the
    /// order of the packages, and remembers the search text.
    pub fn filter_packages(&mut self)
        ensures
            final(self).loaded_packages == old(self).loaded_packages,
            final(self).search_bar_contents == old(self).search_bar_contents,
            final(self).old_search_bar_contents@ == old(self).search_bar_contents@,
            crate::vfs::ig_memory_storage::spec_texts(final(self).filtered_packages@)
                == spec_filtered(
                old(self).loaded_packages@,
                old(self).search_bar_contents@,
                old(self).loaded_packages@.len(),
            ),
    {
        self.old_search_bar_contents = self.search_bar_contents.clone();
        let search = chars_of(self.search_bar_contents.as_str());
        let mut filtered: Vec<String> = Vec::new();
        let mut i: usize = 0;
        assert(crate::vfs::ig_memory_storage::spec_texts(filtered@) =~= spec_filtered(
            self.loaded_packages@,
            search@,
            0,
        ));
        while i < self.loaded_packages.len()
            invariant
                i <= self.loaded_packages@.len(),
                self.loaded_packages == old(self).loaded_packages,
                self.search_bar_contents == old(self).search_bar_contents,
                self.old_search_bar_contents@ == old(self).search_bar_contents@,
                search@ == self.search_bar_contents@,
                crate::vfs::ig_memory_storage::spec_texts(filtered@) == spec_filtered(
                    self.loaded_packages@,
                    search@,
                    i as nat,
                ),
            decreases self.loaded_packages.len() - i,
        {
            let name = chars_of(self.loaded_packages[i].display_name.as_str());
            if has_infix(&name, &search) {
                let entry = self.loaded_packages[i].display_name.clone();
                let ghost before = filtered@;
                filtered.push(entry);
                assert(crate::vfs::ig_memory_storage::spec_texts(filtered@)
                    =~= crate::vfs::ig_memory_storage::spec_texts(before).push(entry@));
            }
            i = i + 1;
        }
        self.filtered_packages = filtered;
    }
}

/// Two lists of packages that are shown under the same names are searched
/// alike.
pub proof fn lemma_find_package_same_names(
    a: Seq<LaboratoryPackage>,
    b: Seq<LaboratoryPackage>,
    name: Seq<char>,
    from: int,
)
    requires
        a.len() == b.len(),
        forall|p: int| 0 <= p < a.len() ==> (#[trigger] b[p]).display_name == a[p].display_name,
        0 <= from <= a.len(),
    ensures
        spec_find_package(a, name, from) == spec_find_package(b, name, from),
    decreases a.len() - from,
{
    if from < a.len() {
        assert(b[from].display_name == a[from].display_name);
        if a[from].display_name@ != name {
            lemma_find_package_same_names(a, b, name, from + 1);
        }
    }
}

} // verus!
