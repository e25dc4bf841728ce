//! Logical paths and the file context: the chain of processors through
//! which every file of a game is reached.

use crate::base::ig_core_platform::Endian;
use crate::base::ig_registry::igRegistry;
use crate::util::byteorder_fixes::ByteCursor;
use crate::util::text::{
    chars_of, find_char, find_last_char, first_index_of, last_index_of, lemma_first_index_of,
    lemma_last_index_of, string_of, string_of_range, text_equal,
};
use crate::vfs::ig_archive::{igArchive, igArchiveManager, spec_archived};
use crate::vfs::ig_fs::{
    igFileDescriptor, igFileWorkItem, igHostRead, igHostStorage,
    igProcessorKind, WorkItemBuffer, WorkStatus, WorkType,
};
use crate::vfs::ig_std_lib_storage_device::{igStdLibStorageDevice};
use vstd::prelude::*;

verus! {

/// The physical folder of a media name, for the media that have one.
pub open spec fn spec_virtual_device(media: Seq<char>) -> Option<Seq<char>> {
    if media == "actors"@ {
        Some("actors"@)
    } else if media == "anims"@ {
        Some("anims"@)
    } else if media == "behavior_events"@ {
        Some("behavior_events"@)
    } else if media == "animation_events"@ {
        Some("animation_events"@)
    } else if media == "behaviors"@ {
        Some("behaviors"@)
    } else if media == "cutscene"@ {
        Some("cutscene"@)
    } else if media == "data"@ {
        Some(""@)
    } else if media == "fonts"@ {
        Some("fonts"@)
    } else if media == "graphs"@ {
        Some("graphs"@)
    } else if media == "vsc"@ {
        Some("vsc"@)
    } else if media == "loosetextures"@ {
        Some("loosetextures"@)
    } else if media == "luts"@ {
        Some("loosetextures/luts"@)
    } else if media == "maps"@ {
        Some("maps"@)
    } else if media == "materials"@ {
        Some("materialInstances"@)
    } else if media == "models"@ {
        Some("models"@)
    } else if media == "motionpaths"@ {
        Some("motionpaths"@)
    } else if media == "renderer"@ {
        Some("renderer"@)
    } else if media == "scripts"@ {
        Some("scripts"@)
    } else if media == "shaders"@ {
        Some("shaders"@)
    } else if media == "sky"@ {
        Some("sky"@)
    } else if media == "sounds"@ {
        Some("sounds"@)
    } else if media == "spawnmeshes"@ {
        Some("spawnmeshes"@)
    } else if media == "textures"@ {
        Some("textures"@)
    } else if media == "ui"@ {
        Some("ui"@)
    } else if media == "vfx"@ {
        Some("vfx"@)
    } else {
        None
    }
}
/// The physical folder of a media name. Media names are case-sensitive.
pub fn virtual_device(media: &str) -> (device: Option<&'static str>)
    ensures
        match device {
            Some(d) => spec_virtual_device(media@) == Some(d@),
            None => spec_virtual_device(media@).is_none(),
        },
{
    if text_equal(media, "actors") {
        Some("actors")
    } else if text_equal(media, "anims") {
        Some("anims")
    } else if text_equal(media, "behavior_events") {
        Some("behavior_events")
    } else if text_equal(media, "animation_events") {
        Some("animation_events")
    } else if text_equal(media, "behaviors") {
        Some("behaviors")
    } else if text_equal(media, "cutscene") {
        Some("cutscene")
    } else if text_equal(media, "data") {
        Some("")
    } else if text_equal(media, "fonts") {
        Some("fonts")
    } else if text_equal(media, "graphs") {
        Some("graphs")
    } else if text_equal(media, "vsc") {
        Some("vsc")
    } else if text_equal(media, "loosetextures") {
        Some("loosetextures")
    } else if text_equal(media, "luts") {
        Some("loosetextures/luts")
    } else if text_equal(media, "maps") {
        Some("maps")
    } else if text_equal(media, "materials") {
        Some("materialInstances")
    } else if text_equal(media, "models") {
        Some("models")
    } else if text_equal(media, "motionpaths") {
        Some("motionpaths")
    } else if text_equal(media, "renderer") {
        Some("renderer")
    } else if text_equal(media, "scripts") {
        Some("scripts")
    } else if text_equal(media, "shaders") {
        Some("shaders")
    } else if text_equal(media, "sky") {
        Some("sky")
    } else if text_equal(media, "sounds") {
        Some("sounds")
    } else if text_equal(media, "spawnmeshes") {
        Some("spawnmeshes")
    } else if text_equal(media, "textures") {
        Some("textures")
    } else if text_equal(media, "ui") {
        Some("ui")
    } else if text_equal(media, "vfx") {
        Some("vfx")
    } else {
        None
    }
}
/// A logical path made physical.
///
/// A path whose first colon stands behind at least two characters names a
/// medium before the colon. The medium, the colon and the character after it
/// are replaced by the medium's folder and a separator, or by nothing where
/// the medium has no folder. Every other path (no colon, or a drive letter)
/// stands for itself.
pub open spec fn spec_interpret_path(path: Seq<char>) -> Seq<char> {
    let colon = first_index_of(path, ':');
    if colon >= path.len() || colon <= 1 {
        path
    } else {
        let rest = path.subrange(
            if colon + 2 <= path.len() {
                colon + 2
            } else {
                path.len() as int
            },
            path.len() as int,
        );
        match spec_virtual_device(path.subrange(0, colon)) {
            Some(device) => device + seq!['/'] + rest,
            None => rest,
        }
    }
}

/// A path with every backslash turned into a slash.
pub open spec fn spec_forward_slashes(path: Seq<char>) -> Seq<char> {
    Seq::new(
        path.len(),
        |i: int|
            if path[i] == '\\' {
                '/'
            } else {
                path[i]
            },
    )
}

/// The native form of a path: slashes forward, media interpreted.
pub open spec fn spec_native_path(path: Seq<char>) -> Seq<char> {
    spec_interpret_path(spec_forward_slashes(path))
}

/// A text without the run of `c` at its end.
pub open spec fn spec_trim_end(s: Seq<char>, c: char) -> Seq<char>
    decreases s.len(),
{
    if s.len() > 0 && s.last() == c {
        spec_trim_end(s.drop_last(), c)
    } else {
        s
    }
}

/// A path without what does not count at its end: separators, and a
/// component `.` behind a separator.
pub open spec fn spec_trim_path(path: Seq<char>) -> Seq<char>
    decreases path.len(),
{
    if path.len() > 0 && path.last() == '/' {
        spec_trim_path(path.drop_last())
    } else if path.len() >= 2 && path[path.len() - 1] == '.' && path[path.len() - 2] == '/' {
        spec_trim_path(path.drop_last())
    } else {
        path
    }
}

/// The name of a file without its folder and its extension: of the last
/// component, what stands before the last dot, or all of it where it has no
/// dot or only a leading one. Separators at the end of the path, and a
/// component `.` there, do not count. A path whose last component is `..`,
/// and one that has no component but `.`, names no file.
pub open spec fn spec_file_stem(path: Seq<char>) -> Option<Seq<char>> {
    let trimmed = spec_trim_path(path);
    let name = trimmed.subrange(last_index_of(trimmed, '/') + 1, trimmed.len() as int);
    let dot = last_index_of(name, '.');
    if name.len() == 0 || name == ".."@ || name == "."@ {
        None
    } else if dot <= 0 {
        Some(name)
    } else {
        Some(name.subrange(0, dot))
    }
}

/// Makes a logical path physical.
pub fn interpret_path(alchemy_path: &str) -> (path: String)
    ensures
        path@ == spec_interpret_path(alchemy_path@),
{
    let p = chars_of(alchemy_path);
    proof {
        lemma_first_index_of(p@, ':');
    }
    let colon: usize = match find_char(&p, ':') {
        Some(i) => i,
        None => {
            return alchemy_path.to_owned();
        },
    };
    if colon <= 1 {
        return alchemy_path.to_owned();
    }
    let media = string_of_range(&p, 0, colon);
    let from: usize = if p.len() - colon >= 2 {
        colon + 2
    } else {
        p.len()
    };
    let rest = string_of_range(&p, from, p.len());
    match virtual_device(media.as_str()) {
        Some(device) => {
            let mut out = device.to_owned();
            proof {
                reveal_strlit("/");
                assert("/"@ =~= seq!['/']);
            }
            out.append("/");
            out.append(rest.as_str());
            out
        },
        None => rest,
    }
}

/// Interpreting a path again changes nothing, as long as the first
/// interpretation left no medium in it: no colon behind two or more
/// characters.
pub proof fn lemma_interpret_path_idempotent(path: Seq<char>)
    requires
        first_index_of(spec_interpret_path(path), ':') >= spec_interpret_path(path).len()
            || first_index_of(spec_interpret_path(path), ':') <= 1,
    ensures
        spec_interpret_path(spec_interpret_path(path)) == spec_interpret_path(path),
{
}

/// The native form of a path.
pub fn get_native_path(path: String) -> (native: String)
    ensures
        native@ == spec_native_path(path@),
{
    let p = chars_of(path.as_str());
    let mut q: Vec<char> = Vec::new();
    let mut i: usize = 0;
    while i < p.len()
        invariant
            i <= p.len(),
            q@.len() == i,
            forall|j: int| 0 <= j < i ==> q@[j] == spec_forward_slashes(p@)[j],
        decreases p.len() - i,
    {
        let c = p[i];
        if c == '\\' {
            q.push('/');
        } else {
            q.push(c);
        }
        i = i + 1;
    }
    assert(q@ =~= spec_forward_slashes(p@));
    let forward = string_of(&q);
    interpret_path(forward.as_str())
}

/// The name of a file without its folder and its extension.
pub fn get_file_name(file_path: &str) -> (stem: Option<String>)
    ensures
        match stem {
            Some(s) => spec_file_stem(file_path@) == Some(s@),
            None => spec_file_stem(file_path@).is_none(),
        },
{
    let whole = chars_of(file_path);
    let mut n: usize = whole.len();
    assert(whole@.subrange(0, n as int) =~= whole@);
    while n > 0 && (whole[n - 1] == '/' || (n >= 2 && whole[n - 1] == '.' && whole[n - 2] == '/'))
        invariant
            n <= whole.len(),
            spec_trim_path(whole@) == spec_trim_path(whole@.subrange(0, n as int)),
        decreases n,
    {
        assert(whole@.subrange(0, n as int).drop_last() =~= whole@.subrange(0, n - 1));
        n = n - 1;
    }
    let trimmed = string_of_range(&whole, 0, n);
    let p = chars_of(trimmed.as_str());
    proof {
        assert(p@ == spec_trim_path(whole@));
        lemma_last_index_of(p@, '/');
    }
    let start: usize = match find_last_char(&p, '/') {
        Some(i) => i + 1,
        None => 0,
    };
    let name_text = string_of_range(&p, start, p.len());
    let name = chars_of(name_text.as_str());
    proof {
        lemma_last_index_of(name@, '.');
        reveal_strlit("..");
        reveal_strlit(".");
    }
    if name.len() == 0 || text_equal(name_text.as_str(), "..") || text_equal(
        name_text.as_str(),
        ".",
    ) {
        return None;
    }
    match find_last_char(&name, '.') {
        Some(dot) => {
            if dot == 0 {
                Some(name_text)
            } else {
                Some(string_of_range(&name, 0, dot))
            }
        },
        None => Some(name_text),
    }
}

/// Removes the run of `c` at the end of `s`.
fn trim_end(s: &Vec<char>, c: char) -> (n: usize)
    ensures
        n <= s.len(),
        s@.subrange(0, n as int) == spec_trim_end(s@, c),
{
    let mut n: usize = s.len();
    assert(s@.subrange(0, n as int) =~= s@);
    while n > 0 && s[n - 1] == c
        invariant
            n <= s.len(),
            spec_trim_end(s@, c) == spec_trim_end(s@.subrange(0, n as int), c),
        decreases n,
    {
        assert(s@.subrange(0, n as int).drop_last() =~= s@.subrange(0, n - 1));
        n = n - 1;
    }
    n
}

/// The state of the file system of one game: its root, its archives and the
/// devices of the processor chain.
///
/// A work item goes to the update provider, where there is one, then to the
/// archive manager, then to the host's storage; the first processor that
/// completes it ends the walk.
#[derive(Debug)]
pub struct igFileContext {
    pub _root: String,
    pub archive_manager: igArchiveManager,
    pub update_provider: Option<igStdLibStorageDevice>,
    pub storage_device: igStdLibStorageDevice,
}

impl igFileContext {
    /// The context of the game at `game_path`, which is kept without the
    /// backslashes and then the slashes at its end. An update folder puts an
    /// update provider in front of the chain.
    pub fn new(game_path: String, update_folder: Option<&str>) -> (ctx: igFileContext)
        ensures
            ctx._root@ == spec_trim_end(spec_trim_end(game_path@, '\\'), '/'),
            ctx.archive_manager._archives@.len() == 0,
            ctx.archive_manager._patch_archives@.len() == 0,
            ctx.storage_device._path@.len() == 0,
            match update_folder {
                Some(folder) => ctx.update_provider.is_some() && ctx.update_provider->0._path@
                    == folder@,
                None => ctx.update_provider.is_none(),
            },
    {
        let p = chars_of(game_path.as_str());
        let n = trim_end(&p, '\\');
        let trimmed = string_of_range(&p, 0, n);
        let q = chars_of(trimmed.as_str());
        let m = trim_end(&q, '/');
        let root = string_of_range(&q, 0, m);
        let update_provider = match update_folder {
            Some(folder) => Some(igStdLibStorageDevice::new_tfb_update_provider(folder)),
            None => None,
        };
        igFileContext {
            _root: root,
            archive_manager: igArchiveManager::new(),
            update_provider,
            storage_device: igStdLibStorageDevice::new(),
        }
    }

    /// What the archives alone decide of an open: with no update provider in
    /// front, an archived path is served from the archive.
    pub open spec fn spec_served_from_archive(&self, path: Seq<char>) -> Option<Seq<u8>> {
        if self.update_provider.is_none() {
            spec_archived(self.archive_manager, path)
        } else {
            None
        }
    }

    /// Sends a work item down the chain of processors.
    pub fn process<H: igHostStorage>(&self, host: &H, work_item: &mut igFileWorkItem)
        ensures
            final(work_item)._path == old(work_item)._path,
            final(work_item).work_type == old(work_item).work_type,
            old(work_item).work_type == WorkType::kTypeOpen && old(work_item)._status
                != WorkStatus::kStatusComplete ==> {
                &&& final(work_item)._file._path == old(work_item)._file._path
                &&& final(work_item)._file.endianness == old(work_item)._file.endianness
                &&& match self.spec_served_from_archive(old(work_item)._path@) {
                    Some(data) => {
                        &&& final(work_item)._status == WorkStatus::kStatusComplete
                        &&& final(work_item)._file._handle == Some(
                            ByteCursor { data: final(work_item)._file._handle->0.data, position: 0 },
                        )
                        &&& final(work_item)._file._handle->0.data@ == data
                        &&& final(work_item)._file._device == Some(igProcessorKind::ArchiveManager)
                    },
                    None => {
                        &&& final(work_item)._status == WorkStatus::kStatusComplete
                            ==> final(work_item)._file._handle.is_some()
                                && final(work_item)._file._handle->0.position == 0
                            && (final(work_item)._file._device == Some(
                            igProcessorKind::StorageDevice,
                        ) || (self.update_provider.is_some() && (final(work_item)._file._device
                            == Some(igProcessorKind::UpdateProvider)
                                || final(work_item)._file._device
                            == Some(igProcessorKind::ArchiveManager))))
                        &&& final(work_item)._status != WorkStatus::kStatusComplete
                            ==> final(work_item)._file._handle == old(work_item)._file._handle
                            && final(work_item)._file._device == old(work_item)._file._device
                    },
                }
            },
    {
        match &self.update_provider {
            Some(provider) => {
                provider.process(host, self._root.as_str(), work_item);
                if work_item._status == WorkStatus::kStatusComplete {
                    match work_item.work_type {
                        WorkType::kTypeOpen => {
                            work_item._file._device = Some(igProcessorKind::UpdateProvider);
                        },
                        _ => {},
                    }
                    return ;
                }
            },
            None => {},
        }
        self.archive_manager.process(work_item);
        if work_item._status == WorkStatus::kStatusComplete {
            return ;
        }
        self.storage_device.process(host, self._root.as_str(), work_item);
    }

    /// Opens the file at a logical path.
    ///
    /// The descriptor carries the physical path. With no update provider, a
    /// path that the archives hold is served from them: the descriptor's
    /// cursor stands at the start of the archived contents. Otherwise the
    /// host decides; a descriptor without contents tells that no processor
    /// produced the file.
    pub fn open<H: igHostStorage>(&self, host: &H, ig_registry: &igRegistry, path: &str, flags: u32)
        -> (fd: igFileDescriptor)
        ensures
            fd._path@ == spec_interpret_path(path@),
            fd.endianness == Endian::Unknown,
            fd._handle.is_some() ==> fd._handle->0.position == 0,
            match self.spec_served_from_archive(spec_interpret_path(path@)) {
                Some(data) => fd._handle.is_some() && fd._handle->0.data@ == data && fd._device
                    == Some(igProcessorKind::ArchiveManager),
                None => true,
            },
            fd._handle.is_some() ==> fd._device.is_some(),
            self.update_provider.is_none() ==> fd._device != Some(igProcessorKind::UpdateProvider),
    {
        let physical = interpret_path(path);
        let mut work_item = igFileWorkItem {
            _file: igFileDescriptor {
                _path: physical.clone(),
                _position: 0,
                _size: 0,
                _device: None,
                _handle: None,
                _flags: 0,
                _work_item_active_count: 0,
                endianness: Endian::Unknown,
            },
            _path: physical,
            flags,
            work_type: WorkType::kTypeOpen,
            _status: WorkStatus::kStatusActive,
            _offset: 0,
            _buffer: WorkItemBuffer::Invalid,
        };
        self.process(host, &mut work_item);
        work_item._file
    }

    /// Mounts the archive at a logical path, if the file system produces the
    /// file and the host reads it as an archive. Tells whether it did.
    pub fn load_archive<H: igHostStorage>(&mut self, host: &H, ig_registry: &igRegistry, path: &str)
        -> (mounted: bool)
        ensures
            final(self)._root == old(self)._root,
            final(self).update_provider == old(self).update_provider,
            final(self).storage_device == old(self).storage_device,
            final(self).archive_manager._patch_archives@
                == old(self).archive_manager._patch_archives@,
            mounted
                ==> final(self).archive_manager._archives@.len()
                    == old(self).archive_manager._archives@.len() + 1
                && final(self).archive_manager._archives@.drop_last()
                    == old(self).archive_manager._archives@
                && final(self).archive_manager._archives@.last()._path@ == path@,
            !mounted ==> final(self).archive_manager == old(self).archive_manager,
    {
        let fd = self.open(host, ig_registry, path, 0);
        let decoded = match fd._handle {
            Some(handle) => host.decode_archive(&handle.data),
            None => None,
        };
        let mounted = self.archive_manager.mount_decoded(path.to_owned(), decoded, false);
        assert(mounted ==> self.archive_manager._archives@.drop_last()
            =~= old(self).archive_manager._archives@);
        mounted
    }

    /// Mounts the patch archive that the host holds at `update_path`, if it
    /// holds one. Tells whether it did.
    pub fn initialize_update<H: igHostStorage>(
        &mut self,
        host: &H,
        ig_registry: &igRegistry,
        update_path: String,
    ) -> (mounted: bool)
        ensures
            final(self)._root == old(self)._root,
            final(self).update_provider == old(self).update_provider,
            final(self).storage_device == old(self).storage_device,
            final(self).archive_manager._archives@ == old(self).archive_manager._archives@,
            mounted
                ==> final(self).archive_manager._patch_archives@.len()
                    == old(self).archive_manager._patch_archives@.len() + 1
                && final(self).archive_manager._patch_archives@.drop_last()
                    == old(self).archive_manager._patch_archives@
                && final(self).archive_manager._patch_archives@.last()._path@ == update_path@,
            !mounted ==> final(self).archive_manager == old(self).archive_manager,
    {
        let decoded = match host.read_file(update_path.as_str()) {
            igHostRead::Data(bytes) => host.decode_archive(&bytes),
            _ => None,
        };
        let mounted = self.archive_manager.mount_decoded(update_path, decoded, true);
        assert(mounted ==> self.archive_manager._patch_archives@.drop_last()
            =~= old(self).archive_manager._patch_archives@);
        mounted
    }

    /// Puts an update provider for the folder at `path` in front of the
    /// chain, in place of the one that may be there.
    pub fn set_update_folder(&mut self, path: &str)
        ensures
            final(self).update_provider.is_some(),
            final(self).update_provider->0._path@ == path@,
            final(self)._root == old(self)._root,
            final(self).archive_manager == old(self).archive_manager,
            final(self).storage_device == old(self).storage_device,
    {
        self.update_provider = Some(igStdLibStorageDevice::new_tfb_update_provider(path));
    }
}

} // verus!
