//! Objects, container directories and the manager that indexes them.
//!
//! Objects and directories live in two arenas owned by the stream manager and
//! are addressed by their position, which never changes: references between
//! objects and between containers are positions, so cycles need no care.

use crate::base::ig_memory::igMemoryPool;
use crate::base::ig_registry::igRegistry;
use crate::load::ig_load_error::igLoadError;
use crate::load::ig_loader::get_loader;
use crate::meta::ig_metadata_manager::igMetadataManager;
use crate::object::ig_external_ref::igExternalReferenceSystem;
use crate::object::ig_handle::igObjectHandleManager;
use crate::util::ig_hash::{hash_lower, spec_hash_lower};
use crate::vfs::ig_file_context::{get_native_path, igFileContext, spec_native_path};
use crate::vfs::ig_fs::igHostStorage;
use crate::util::ig_name::igName;
use std::collections::HashMap;
use vstd::prelude::*;

verus! {

/// An object, by its position in the object store.
pub type igObject = usize;

/// A container directory, by its position in the stream manager.
pub type igObjectDirectoryId = usize;

/// A decoded field value.
#[derive(Debug)]
pub enum igAny {
    /// An unsigned integer of any width, a size or an enumeration value.
    Unsigned(u64),
    /// A signed integer of any width.
    Signed(i64),
    /// A boolean.
    Boolean(bool),
    /// The bits of a 32-bit floating point number.
    Float32Bits(u32),
    /// The bits of a 64-bit floating point number.
    Float64Bits(u64),
    /// A string of the container's string table.
    Text(String),
    /// A reference to an object.
    Object(igObject),
    /// A block of memory of the file: its size and its position.
    Memory(u64, u64),
}

/// What an object holds, by the shape of its type.
#[derive(Debug)]
pub enum igObjectContent {
    /// An object of a type without a known shape: one value per decoded
    /// field, `None` where the field is null or not decoded yet.
    Fields(Vec<Option<igAny>>),
    /// A list of object references; `None` stands for a null reference.
    ObjectList(Vec<Option<igObject>>),
    /// A list of names.
    NameList(Vec<igName>),
    /// A list of strings.
    StringRefList(Vec<String>),
}

/// One object of the store.
#[derive(Debug)]
pub struct igObjectData {
    /// Position of the object's type in the metadata manager.
    pub meta: usize,
    /// The memory pool the object was placed in.
    pub pool: igMemoryPool,
    /// The directory whose loader created the object.
    pub owner: igObjectDirectoryId,
    pub content: igObjectContent,
}

/// Typed views of an object.
pub trait ObjectExt {
    /// The entries, if the object is a list of objects.
    fn as_object_list(&self) -> Option<&Vec<Option<igObject>>>;

    /// The entries, if the object is a list of names.
    fn as_name_list(&self) -> Option<&Vec<igName>>;

    /// The entries, if the object is a list of strings.
    fn as_string_ref_list(&self) -> Option<&Vec<String>>;
}

impl ObjectExt for igObjectData {
    fn as_object_list(&self) -> (list: Option<&Vec<Option<igObject>>>)
        ensures
            match self.content {
                igObjectContent::ObjectList(l) => list == Some(&l),
                _ => list.is_none(),
            },
    {
        match &self.content {
            igObjectContent::ObjectList(l) => Some(l),
            _ => None,
        }
    }

    fn as_name_list(&self) -> (list: Option<&Vec<igName>>)
        ensures
            match self.content {
                igObjectContent::NameList(l) => list == Some(&l),
                _ => list.is_none(),
            },
    {
        match &self.content {
            igObjectContent::NameList(l) => Some(l),
            _ => None,
        }
    }

    fn as_string_ref_list(&self) -> (list: Option<&Vec<String>>)
        ensures
            match self.content {
                igObjectContent::StringRefList(l) => list == Some(&l),
                _ => list.is_none(),
            },
    {
        match &self.content {
            igObjectContent::StringRefList(l) => Some(l),
            _ => None,
        }
    }
}

/// The in-memory form of one loaded container.
#[derive(Debug)]
pub struct igObjectDirectory {
    /// Native path of the container.
    pub path: String,
    /// Namespace under which the container's objects are addressed.
    pub name: igName,
    /// The directories this one refers to, in the order they were found.
    pub dependencies: Vec<igObjectDirectoryId>,
    /// Whether the container brought a list of names for its objects.
    pub use_name_list: bool,
    /// The object that holds the container's root objects, once decoded.
    pub object_list: Option<igObject>,
    /// The object that holds the names of the root objects; position `i`
    /// names root object `i`. Meaningful when `use_name_list` is set.
    pub name_list: Option<igObject>,
    /// The loader that fills the directory.
    pub loader: crate::load::ig_igz_loader::igIGZObjectLoader,
}

impl igObjectDirectory {
    /// An empty directory for `path` under the namespace `name`, to be
    /// filled by the IGZ loader.
    pub fn new(path: &str, name: igName) -> (dir: igObjectDirectory)
        ensures
            dir.path@ == path@,
            dir.name == name,
            dir.dependencies@.len() == 0,
            !dir.use_name_list,
            dir.object_list.is_none(),
            dir.name_list.is_none(),
    {
        igObjectDirectory::with_loader(path, name, crate::load::ig_igz_loader::igIGZObjectLoader)
    }

    /// An empty directory for `path` under the namespace `name`, to be
    /// filled by `loader`.
    pub fn with_loader(
        path: &str,
        name: igName,
        loader: crate::load::ig_igz_loader::igIGZObjectLoader,
    ) -> (dir: igObjectDirectory)
        ensures
            dir.path@ == path@,
            dir.name == name,
            dir.dependencies@.len() == 0,
            !dir.use_name_list,
            dir.object_list.is_none(),
            dir.name_list.is_none(),
    {
        igObjectDirectory {
            path: path.to_owned(),
            name,
            dependencies: Vec::new(),
            use_name_list: false,
            object_list: None,
            name_list: None,
            loader,
        }
    }
}

/// The store of objects and the cache of loaded directories, indexed by the
/// hash of the path and by the hash of the namespace.
pub struct igObjectStreamManager {
    /// Every object ever created, by position.
    pub objects: Vec<igObjectData>,
    /// Every directory ever created, by position.
    pub directories: Vec<igObjectDirectory>,
    /// Directories by the hash of their namespace, oldest first.
    pub name_to_directory_lookup: HashMap<u32, Vec<igObjectDirectoryId>>,
    /// Directory by the case-insensitive hash of its path.
    pub path_to_directory_lookup: HashMap<u32, igObjectDirectoryId>,
}

impl igObjectStreamManager {
    /// The cache invariant: both indexes hold only directories that exist,
    /// under the right keys, and every directory is found in both.
    pub open spec fn wf(&self) -> bool {
        &&& forall|i: int|
            0 <= i < self.directories@.len() ==> self.path_to_directory_lookup@.contains_key(
                #[trigger] spec_hash_lower(self.directories@[i].path@),
            ) && self.path_to_directory_lookup@[spec_hash_lower(self.directories@[i].path@)] == i
        &&& forall|i: int|
            0 <= i < self.directories@.len() ==> self.name_to_directory_lookup@.contains_key(
                (#[trigger] self.directories@[i]).name.hash,
            ) && self.name_to_directory_lookup@[self.directories@[i].name.hash]@.contains(
                i as usize,
            )
        &&& forall|h: u32| #[trigger]
            self.path_to_directory_lookup@.contains_key(h)
                ==> self.path_to_directory_lookup@[h] < self.directories@.len()
        &&& forall|h: u32, k: int|
            self.name_to_directory_lookup@.contains_key(h) && 0 <= k
                < self.name_to_directory_lookup@[h]@.len() ==> (
            #[trigger] self.name_to_directory_lookup@[h]@[k]) < self.directories@.len()
                && self.directories@[self.name_to_directory_lookup@[h]@[k] as int].name.hash == h
        &&& forall|d: int|
            0 <= d < self.directories@.len() ==> #[trigger] self.spec_names_consistent(d)
    }

    /// A directory that names its root objects has as many names as root
    /// objects, in two lists that its own loader created.
    pub open spec fn spec_names_consistent(&self, d: int) -> bool {
        self.directories@[d].use_name_list ==> {
            &&& self.directories@[d].name_list matches Some(n) && n < self.objects@.len()
                && self.objects@[n as int].owner == d
            &&& self.directories@[d].object_list matches Some(o) ==> o < self.objects@.len()
                && self.objects@[o as int].owner == d
            &&& self.spec_names_of(d).len() == self.spec_objects_of(d).len()
        }
    }

    /// What the load of directory `dir` may have done between two states,
    /// when the objects it creates start at position `first`: directories and
    /// objects are only added; every other directory that existed is as it
    /// was, and so is every object before `first`; no object changes its
    /// type, pool or owner; `dir` keeps its path and namespace; and both
    /// indexes keep what they held.
    pub open spec fn spec_progress(&self, later: &igObjectStreamManager, dir: int, first: int)
        -> bool {
        &&& self.directories@.len() <= later.directories@.len()
        &&& later.spec_room() <= self.spec_room()
        &&& forall|i: int|
            0 <= i < self.directories@.len() && i != dir ==> #[trigger] later.directories@[i]
                == self.directories@[i]
        &&& 0 <= dir < self.directories@.len() ==> later.directories@[dir].path
            == self.directories@[dir].path && later.directories@[dir].name
            == self.directories@[dir].name
        &&& self.objects@.len() <= later.objects@.len()
        &&& forall|i: int|
            0 <= i < self.objects@.len() && i < first ==> #[trigger] later.objects@[i]
                == self.objects@[i]
        &&& forall|i: int|
            0 <= i < self.objects@.len() ==> (#[trigger] later.objects@[i]).owner
                == self.objects@[i].owner && later.objects@[i].meta == self.objects@[i].meta
                && later.objects@[i].pool == self.objects@[i].pool
        &&& forall|h: u32| #[trigger]
            self.path_to_directory_lookup@.contains_key(h)
                ==> later.path_to_directory_lookup@.contains_key(h)
                && later.path_to_directory_lookup@[h] == self.path_to_directory_lookup@[h]
        &&& forall|h: u32| #[trigger]
            self.name_to_directory_lookup@.contains_key(h)
                ==> later.name_to_directory_lookup@.contains_key(h)
                && self.name_to_directory_lookup@[h]@.len()
                <= later.name_to_directory_lookup@[h]@.len()
                && later.name_to_directory_lookup@[h]@.subrange(
                0,
                self.name_to_directory_lookup@[h]@.len() as int,
            ) == self.name_to_directory_lookup@[h]@
    }

    /// What any number of loads may have done between two states: nothing
    /// that existed has changed.
    pub open spec fn spec_extends(&self, later: &igObjectStreamManager) -> bool {
        self.spec_progress(later, self.directories@.len() as int, self.objects@.len() as int)
    }

    /// The directory that is cached for a path, if any.
    pub open spec fn spec_cached(&self, path: Seq<char>) -> Option<igObjectDirectoryId> {
        let h = spec_hash_lower(crate::vfs::ig_file_context::spec_native_path(path));
        if self.path_to_directory_lookup@.contains_key(h) {
            Some(self.path_to_directory_lookup@[h])
        } else {
            None
        }
    }

    /// How many more paths the cache can take: the distance of the path index
    /// from holding every 32-bit hash. Every load of a new path lowers it,
    /// which bounds the depth of nested loads.
    pub open spec fn spec_room(&self) -> int {
        0x1_0000_0000 - self.path_to_directory_lookup@.dom().len()
    }

    /// The names of the root objects of a directory, where it has a decoded
    /// name list; empty otherwise.
    pub open spec fn spec_names_of(&self, dir: int) -> Seq<igName> {
        match self.directories@[dir].name_list {
            Some(id) => if id < self.objects@.len() {
                match self.objects@[id as int].content {
                    igObjectContent::NameList(l) => l@,
                    _ => Seq::empty(),
                }
            } else {
                Seq::empty()
            },
            None => Seq::empty(),
        }
    }

    /// The root objects of a directory, where it has a decoded object list;
    /// empty otherwise.
    pub open spec fn spec_objects_of(&self, dir: int) -> Seq<Option<igObject>> {
        match self.directories@[dir].object_list {
            Some(id) => if id < self.objects@.len() {
                match self.objects@[id as int].content {
                    igObjectContent::ObjectList(l) => l@,
                    _ => Seq::empty(),
                }
            } else {
                Seq::empty()
            },
            None => Seq::empty(),
        }
    }

    /// An empty manager.
    pub fn new() -> (mgr: igObjectStreamManager)
        ensures
            mgr.wf(),
            mgr.objects@.len() == 0,
            mgr.directories@.len() == 0,
            mgr.path_to_directory_lookup@ == Map::<u32, igObjectDirectoryId>::empty(),
            mgr.name_to_directory_lookup@ == Map::<u32, Vec<igObjectDirectoryId>>::empty(),
    {
        igObjectStreamManager {
            objects: Vec::new(),
            directories: Vec::new(),
            name_to_directory_lookup: HashMap::new(),
            path_to_directory_lookup: HashMap::new(),
        }
    }

    /// The names of the root objects of directory `dir`.
    pub fn names_of(&self, dir: igObjectDirectoryId) -> (names: Option<&Vec<igName>>)
        requires
            dir < self.directories@.len(),
        ensures
            match names {
                Some(l) => l@ == self.spec_names_of(dir as int),
                None => self.spec_names_of(dir as int).len() == 0,
            },
    {
        match self.directories[dir].name_list {
            Some(id) => {
                if id < self.objects.len() {
                    self.objects[id].as_name_list()
                } else {
                    None
                }
            },
            None => None,
        }
    }

    /// The root objects of directory `dir`.
    pub fn objects_of(&self, dir: igObjectDirectoryId) -> (list: Option<&Vec<Option<igObject>>>)
        requires
            dir < self.directories@.len(),
        ensures
            match list {
                Some(l) => l@ == self.spec_objects_of(dir as int),
                None => self.spec_objects_of(dir as int).len() == 0,
            },
    {
        match self.directories[dir].object_list {
            Some(id) => {
                if id < self.objects.len() {
                    self.objects[id].as_object_list()
                } else {
                    None
                }
            },
            None => None,
        }
    }
}

/// Progress composes: two stretches of the same load make one.
pub proof fn lemma_progress_transitive(
    a: &igObjectStreamManager,
    b: &igObjectStreamManager,
    c: &igObjectStreamManager,
    dir: int,
    first: int,
)
    requires
        a.spec_progress(b, dir, first),
        b.spec_progress(c, dir, first),
    ensures
        a.spec_progress(c, dir, first),
{
    assert forall|h: u32| #[trigger]
        a.name_to_directory_lookup@.contains_key(
            h,
        ) implies c.name_to_directory_lookup@.contains_key(
        h,
    ) && a.name_to_directory_lookup@[h]@.len() <= c.name_to_directory_lookup@[h]@.len()
        && c.name_to_directory_lookup@[h]@.subrange(
        0,
        a.name_to_directory_lookup@[h]@.len() as int,
    ) == a.name_to_directory_lookup@[h]@ by {
        assert(b.name_to_directory_lookup@.contains_key(h));
        let la = a.name_to_directory_lookup@[h]@;
        let lb = b.name_to_directory_lookup@[h]@;
        let lc = c.name_to_directory_lookup@[h]@;
        assert(lc.subrange(0, la.len() as int) =~= lc.subrange(0, lb.len() as int).subrange(
            0,
            la.len() as int,
        ));
    }
    assert forall|h: u32| #[trigger]
        a.path_to_directory_lookup@.contains_key(
            h,
        ) implies c.path_to_directory_lookup@.contains_key(
        h,
    ) && c.path_to_directory_lookup@[h] == a.path_to_directory_lookup@[h] by {
        assert(b.path_to_directory_lookup@.contains_key(h));
    }
}

/// What a whole load leaves untouched, the load of a directory that existed
/// before leaves untouched too.
pub proof fn lemma_extends_is_progress(
    a: &igObjectStreamManager,
    b: &igObjectStreamManager,
    dir: int,
    first: int,
)
    requires
        a.spec_extends(b),
        first <= a.objects@.len(),
    ensures
        a.spec_progress(b, dir, first),
{
}

/// What holds of the objects before `first` holds of the objects before any
/// earlier position.
pub proof fn lemma_progress_weaken(
    a: &igObjectStreamManager,
    b: &igObjectStreamManager,
    dir: int,
    first: int,
    earlier: int,
)
    requires
        a.spec_progress(b, dir, first),
        earlier <= first,
    ensures
        a.spec_progress(b, dir, earlier),
{
}

/// Nothing has changed between a state and itself.
pub proof fn lemma_progress_reflexive(a: &igObjectStreamManager, dir: int, first: int)
    ensures
        a.spec_progress(a, dir, first),
{
    assert forall|h: u32| #[trigger]
        a.name_to_directory_lookup@.contains_key(
            h,
        ) implies a.name_to_directory_lookup@[h]@.subrange(
        0,
        a.name_to_directory_lookup@[h]@.len() as int,
    ) == a.name_to_directory_lookup@[h]@ by {
        assert(a.name_to_directory_lookup@[h]@.subrange(
            0,
            a.name_to_directory_lookup@[h]@.len() as int,
        ) =~= a.name_to_directory_lookup@[h]@);
    }
}

/// A directory that is cached for a path stays cached for it, whatever is
/// loaded afterwards and under whatever namespace.
pub proof fn lemma_cached_stays(
    before: &igObjectStreamManager,
    after: &igObjectStreamManager,
    path: Seq<char>,
)
    requires
        before.spec_extends(after),
        before.spec_cached(path).is_some(),
    ensures
        after.spec_cached(path) == before.spec_cached(path),
{
}

/// A finite set of 32-bit numbers has at most `2^32` members.
pub proof fn lemma_u32_set_bound(s: Set<u32>)
    requires
        s.finite(),
    ensures
        s.len() <= 0x1_0000_0000,
{
    let f = |x: u32| x as int;
    let image = s.map(f);
    let range = vstd::set_lib::set_int_range(0, 0x1_0000_0000);
    vstd::set_lib::lemma_int_range(0, 0x1_0000_0000);
    assert(image.subset_of(range)) by {
        assert forall|y: int| image.contains(y) implies range.contains(y) by {
            let x = choose|x: u32| s.contains(x) && y == f(x);
            assert(0 <= y < 0x1_0000_0000);
        }
    }
    vstd::set_lib::lemma_len_subset(image, range);
    assert(vstd::relations::injective_on(f, s));
    vstd::set_lib::lemma_map_size(s, image, f);
}

impl igObjectStreamManager {
    /// The cache has room for no fewer than zero paths.
    pub proof fn lemma_room(&self)
        ensures
            0 <= self.spec_room(),
    {
        lemma_u32_set_bound(self.path_to_directory_lookup@.dom());
    }

    /// Whether `pushed` is this store with a fresh directory for `path`
    /// under the namespace `name` behind its directories.
    pub open spec fn spec_pushed(&self, pushed: &igObjectStreamManager, path: Seq<char>, name: igName)
        -> bool {
        let id = self.directories@.len() as int;
        &&& pushed.wf()
        &&& self.spec_extends(pushed)
        &&& pushed.directories@.len() == id + 1
        &&& pushed.directories@[id].path@ == path
        &&& pushed.directories@[id].name == name
        &&& pushed.directories@[id].dependencies@.len() == 0
        &&& !pushed.directories@[id].use_name_list
        &&& pushed.directories@[id].object_list.is_none()
        &&& pushed.directories@[id].name_list.is_none()
        &&& pushed.objects == self.objects
        &&& pushed.path_to_directory_lookup@ == self.path_to_directory_lookup@.insert(
            spec_hash_lower(path),
            id as usize,
        )
    }

    /// Enters a fresh directory for `path` under the namespace `name` in the
    /// store and in both indexes, and returns its position.
    pub fn push_dir(&mut self, path: &str, name: igName) -> (id: igObjectDirectoryId)
        requires
            old(self).wf(),
            !old(self).path_to_directory_lookup@.contains_key(spec_hash_lower(path@)),
        ensures
            final(self).wf(),
            old(self).spec_extends(final(self)),
            id == old(self).directories@.len(),
            final(self).directories@.len() == id + 1,
            final(self).directories@[id as int].path@ == path@,
            final(self).directories@[id as int].name == name,
            final(self).directories@[id as int].dependencies@.len() == 0,
            !final(self).directories@[id as int].use_name_list,
            final(self).directories@[id as int].object_list.is_none(),
            final(self).directories@[id as int].name_list.is_none(),
            final(self).objects == old(self).objects,
            final(self).path_to_directory_lookup@ == old(self).path_to_directory_lookup@.insert(
                spec_hash_lower(path@),
                id,
            ),
            final(self).spec_room() == old(self).spec_room() - 1,
            old(self).spec_pushed(final(self), path@, name),
    {
        let id: usize = self.directories.len();
        let name_hash: u32 = name.hash;
        let path_hash: u32 = hash_lower(path);
        let dir = igObjectDirectory::new(path, name);
        self.directories.push(dir);
        let mut list: Vec<igObjectDirectoryId> = match self.name_to_directory_lookup.remove(
            &name_hash,
        ) {
            Some(list) => list,
            None => Vec::new(),
        };
        let ghost before_list = list@;
        list.push(id);
        self.name_to_directory_lookup.insert(name_hash, list);
        self.path_to_directory_lookup.insert(path_hash, id);
        proof {
            let old_names = old(self).name_to_directory_lookup@;
            let new_names = self.name_to_directory_lookup@;
            assert(new_names =~= old_names.insert(name_hash, list));
            assert(old_names.contains_key(name_hash) ==> before_list == old_names[name_hash]@);
            assert(list@.subrange(0, before_list.len() as int) =~= before_list);
            assert forall|h: u32| #[trigger]
                old_names.contains_key(h) implies new_names.contains_key(h) && old_names[h]@.len()
                <= new_names[h]@.len() && new_names[h]@.subrange(0, old_names[h]@.len() as int)
                == old_names[h]@ by {
                if h != name_hash {
                    assert(new_names[h]@.subrange(0, old_names[h]@.len() as int)
                        =~= old_names[h]@);
                }
            }
            assert forall|i: int| 0 <= i < self.directories@.len() implies new_names.contains_key(
                (#[trigger] self.directories@[i]).name.hash,
            ) && new_names[self.directories@[i].name.hash]@.contains(i as usize) by {
                if i < id {
                    assert(self.directories@[i] == old(self).directories@[i]);
                    let h = self.directories@[i].name.hash;
                    assert(old_names[h]@.contains(i as usize));
                    if h == name_hash {
                        let k = choose|k: int|
                            0 <= k < before_list.len() && before_list[k] == i as usize;
                        assert(list@[k] == i as usize);
                    }
                } else {
                    assert(list@[before_list.len() as int] == id);
                }
            }
            assert forall|h: u32, k: int|
                new_names.contains_key(h) && 0 <= k < new_names[h]@.len() implies (
            #[trigger] new_names[h]@[k]) < self.directories@.len()
                && self.directories@[new_names[h]@[k] as int].name.hash == h by {
                if h == name_hash {
                    if k < before_list.len() {
                        assert(list@[k] == before_list[k]);
                        assert(old_names[h]@[k] < old(self).directories@.len());
                    }
                } else {
                    assert(old_names[h]@[k] < old(self).directories@.len());
                }
            }
            assert forall|i: int|
                0 <= i < self.directories@.len() implies self.path_to_directory_lookup@.contains_key(
                #[trigger] spec_hash_lower(self.directories@[i].path@),
            ) && self.path_to_directory_lookup@[spec_hash_lower(self.directories@[i].path@)]
                == i by {
                if i < id {
                    assert(self.directories@[i] == old(self).directories@[i]);
                }
            }
            assert forall|d: int| 0 <= d < self.directories@.len() implies #[trigger]
                self.spec_names_consistent(d) by {
                if d < id {
                    assert(self.directories@[d] == old(self).directories@[d]);
                    assert(old(self).spec_names_consistent(d));
                }
            }
            assert(self.path_to_directory_lookup@.dom()
                =~= old(self).path_to_directory_lookup@.dom().insert(path_hash));
        }
        id
    }
}

impl igObjectStreamManager {
    /// Adds an object to the store and returns its position.
    pub fn add_object(&mut self, object: igObjectData) -> (id: igObject)
        requires
            old(self).wf(),
        ensures
            final(self).wf(),
            id == old(self).objects@.len(),
            final(self).objects@ == old(self).objects@.push(object),
            final(self).directories == old(self).directories,
            final(self).name_to_directory_lookup == old(self).name_to_directory_lookup,
            final(self).path_to_directory_lookup == old(self).path_to_directory_lookup,
    {
        self.objects.push(object);
        proof {
            assert forall|d: int| 0 <= d < self.directories@.len() implies #[trigger]
                self.spec_names_consistent(d) by {
                assert(old(self).spec_names_consistent(d));
            }
        }
        self.objects.len() - 1
    }

    /// Replaces what object `object` holds. The object must belong to the
    /// directory `dir`, which is being loaded and does not name its root
    /// objects yet.
    pub fn set_object_content(
        &mut self,
        object: igObject,
        dir: igObjectDirectoryId,
        content: igObjectContent,
    )
        requires
            old(self).wf(),
            object < old(self).objects@.len(),
            dir < old(self).directories@.len(),
            old(self).objects@[object as int].owner == dir,
            !old(self).directories@[dir as int].use_name_list,
        ensures
            final(self).wf(),
            final(self).objects@ == old(self).objects@.update(
                object as int,
                igObjectData { content, ..old(self).objects@[object as int] },
            ),
            final(self).directories == old(self).directories,
            final(self).name_to_directory_lookup == old(self).name_to_directory_lookup,
            final(self).path_to_directory_lookup == old(self).path_to_directory_lookup,
    {
        self.objects[object].content = content;
        proof {
            assert(self.objects@ =~= old(self).objects@.update(
                object as int,
                igObjectData { content, ..old(self).objects@[object as int] },
            ));
            assert forall|d: int| 0 <= d < self.directories@.len() implies #[trigger]
                self.spec_names_consistent(d) by {
                assert(old(self).spec_names_consistent(d));
            }
        }
    }

    /// Appends a directory to the dependencies of directory `dir`.
    pub fn add_dependency(&mut self, dir: igObjectDirectoryId, dependency: igObjectDirectoryId)
        requires
            old(self).wf(),
            dir < old(self).directories@.len(),
        ensures
            final(self).wf(),
            final(self).directories@ == old(self).directories@.update(
                dir as int,
                final(self).directories@[dir as int],
            ),
            final(self).directories@[dir as int].dependencies@ == old(self).directories@[dir as int]
                .dependencies@.push(dependency),
            final(self).directories@[dir as int].path == old(self).directories@[dir as int].path,
            final(self).directories@[dir as int].name == old(self).directories@[dir as int].name,
            final(self).directories@[dir as int].use_name_list
                == old(self).directories@[dir as int].use_name_list,
            final(self).directories@[dir as int].object_list
                == old(self).directories@[dir as int].object_list,
            final(self).directories@[dir as int].name_list
                == old(self).directories@[dir as int].name_list,
            final(self).objects == old(self).objects,
            final(self).name_to_directory_lookup == old(self).name_to_directory_lookup,
            final(self).path_to_directory_lookup == old(self).path_to_directory_lookup,
    {
        self.directories[dir].dependencies.push(dependency);
        proof {
            assert(self.directories@ =~= old(self).directories@.update(
                dir as int,
                self.directories@[dir as int],
            ));
            assert(old(self).spec_names_consistent(dir as int));
            assert(self.spec_names_of(dir as int) == old(self).spec_names_of(dir as int));
            assert(self.spec_objects_of(dir as int) == old(self).spec_objects_of(dir as int));
            self.lemma_wf_after_directory_change(old(self), dir as int);
        }
    }

    /// Installs the list of root objects, and the list of their names, of
    /// directory `dir`, which is being loaded and does not name its root
    /// objects yet.
    pub fn set_lists(
        &mut self,
        dir: igObjectDirectoryId,
        object_list: Option<igObject>,
        name_list: Option<igObject>,
    )
        requires
            old(self).wf(),
            dir < old(self).directories@.len(),
            !old(self).directories@[dir as int].use_name_list,
        ensures
            final(self).wf(),
            final(self).directories@ == old(self).directories@.update(
                dir as int,
                final(self).directories@[dir as int],
            ),
            final(self).directories@[dir as int].object_list == object_list,
            final(self).directories@[dir as int].name_list == name_list,
            final(self).directories@[dir as int].dependencies
                == old(self).directories@[dir as int].dependencies,
            final(self).directories@[dir as int].path == old(self).directories@[dir as int].path,
            final(self).directories@[dir as int].name == old(self).directories@[dir as int].name,
            !final(self).directories@[dir as int].use_name_list,
            final(self).objects == old(self).objects,
            final(self).name_to_directory_lookup == old(self).name_to_directory_lookup,
            final(self).path_to_directory_lookup == old(self).path_to_directory_lookup,
    {
        self.directories[dir].object_list = object_list;
        self.directories[dir].name_list = name_list;
        proof {
            assert(self.directories@ =~= old(self).directories@.update(
                dir as int,
                self.directories@[dir as int],
            ));
            self.lemma_wf_after_directory_change(old(self), dir as int);
        }
    }

    /// Whether directory `dir` could name its root objects: it has a decoded
    /// list of names, created by its own loader, with one name for every
    /// root object.
    pub open spec fn spec_can_name(&self, dir: int) -> bool {
        &&& self.directories@[dir].name_list matches Some(n) && n < self.objects@.len()
            && self.objects@[n as int].owner == dir
        &&& self.directories@[dir].object_list matches Some(o) ==> o < self.objects@.len()
            && self.objects@[o as int].owner == dir
        &&& self.spec_names_of(dir).len() == self.spec_objects_of(dir).len()
    }

    /// Makes directory `dir` name its root objects, if its lists allow it.
    /// Tells whether they did.
    pub fn raise_use_name_list(&mut self, dir: igObjectDirectoryId) -> (raised: bool)
        requires
            old(self).wf(),
            dir < old(self).directories@.len(),
        ensures
            final(self).wf(),
            raised == old(self).spec_can_name(dir as int),
            final(self).directories@ == old(self).directories@.update(
                dir as int,
                final(self).directories@[dir as int],
            ),
            final(self).directories@[dir as int].use_name_list
                == (raised || old(self).directories@[dir as int].use_name_list),
            final(self).directories@[dir as int].object_list
                == old(self).directories@[dir as int].object_list,
            final(self).directories@[dir as int].name_list
                == old(self).directories@[dir as int].name_list,
            final(self).directories@[dir as int].dependencies
                == old(self).directories@[dir as int].dependencies,
            final(self).directories@[dir as int].path == old(self).directories@[dir as int].path,
            final(self).directories@[dir as int].name == old(self).directories@[dir as int].name,
            final(self).objects == old(self).objects,
            final(self).name_to_directory_lookup == old(self).name_to_directory_lookup,
            final(self).path_to_directory_lookup == old(self).path_to_directory_lookup,
    {
        let names: usize = match self.directories[dir].name_list {
            Some(n) => {
                if n >= self.objects.len() || self.objects[n].owner != dir {
                    return false;
                }
                match self.names_of(dir) {
                    Some(list) => list.len(),
                    None => 0,
                }
            },
            None => {
                return false;
            },
        };
        let objects: usize = match self.directories[dir].object_list {
            Some(o) => {
                if o >= self.objects.len() || self.objects[o].owner != dir {
                    return false;
                }
                match self.objects_of(dir) {
                    Some(list) => list.len(),
                    None => 0,
                }
            },
            None => 0,
        };
        if names != objects {
            return false;
        }
        self.directories[dir].use_name_list = true;
        proof {
            assert(self.directories@ =~= old(self).directories@.update(
                dir as int,
                self.directories@[dir as int],
            ));
            assert(self.spec_names_of(dir as int) == old(self).spec_names_of(dir as int));
            assert(self.spec_objects_of(dir as int) == old(self).spec_objects_of(dir as int));
            assert(self.spec_names_consistent(dir as int));
            self.lemma_wf_after_directory_change(old(self), dir as int);
        }
        true
    }

    /// A change to one directory that keeps its path and namespace, and
    /// leaves it consistent, keeps the manager well formed.
    pub proof fn lemma_wf_after_directory_change(&self, before: &igObjectStreamManager, dir: int)
        requires
            before.wf(),
            0 <= dir < before.directories@.len(),
            self.directories@ == before.directories@.update(dir, self.directories@[dir]),
            self.directories@[dir].path == before.directories@[dir].path,
            self.directories@[dir].name == before.directories@[dir].name,
            self.objects == before.objects,
            self.name_to_directory_lookup == before.name_to_directory_lookup,
            self.path_to_directory_lookup == before.path_to_directory_lookup,
            self.spec_names_consistent(dir),
        ensures
            self.wf(),
    {
        assert forall|i: int|
            0 <= i < self.directories@.len() implies self.path_to_directory_lookup@.contains_key(
            #[trigger] spec_hash_lower(self.directories@[i].path@),
        ) && self.path_to_directory_lookup@[spec_hash_lower(self.directories@[i].path@)] == i by {
            assert(self.directories@[i].path == before.directories@[i].path);
        }
        assert forall|i: int|
            0 <= i < self.directories@.len() implies self.name_to_directory_lookup@.contains_key(
            (#[trigger] self.directories@[i]).name.hash,
        ) && self.name_to_directory_lookup@[self.directories@[i].name.hash]@.contains(
            i as usize,
        ) by {
            assert(self.directories@[i].name == before.directories@[i].name);
            assert(before.name_to_directory_lookup@.contains_key(
                before.directories@[i].name.hash,
            ));
        }
        assert forall|h: u32, k: int|
            self.name_to_directory_lookup@.contains_key(h) && 0 <= k
                < self.name_to_directory_lookup@[h]@.len() implies (
        #[trigger] self.name_to_directory_lookup@[h]@[k]) < self.directories@.len()
            && self.directories@[self.name_to_directory_lookup@[h]@[k] as int].name.hash == h by {
            let e = before.name_to_directory_lookup@[h]@[k];
            assert(e < before.directories@.len());
            assert(self.directories@[e as int].name == before.directories@[e as int].name);
        }
        assert forall|d: int| 0 <= d < self.directories@.len() implies #[trigger]
            self.spec_names_consistent(d) by {
            if d != dir {
                assert(self.directories@[d] == before.directories@[d]);
                assert(before.spec_names_consistent(d));
            }
        }
    }
}

impl igObjectStreamManager {
    /// Loads the container at `path` under the namespace of its path.
    pub fn load<H: igHostStorage>(
        &mut self,
        host: &H,
        ig_file_context: &igFileContext,
        ig_registry: &igRegistry,
        ig_metadata_manager: &igMetadataManager,
        ig_ext_ref_system: &igExternalReferenceSystem,
        ig_object_handle_manager: &mut igObjectHandleManager,
        path: String,
    ) -> (r: Result<igObjectDirectoryId, igLoadError>)
        requires
            old(self).wf(),
        ensures
            final(self).wf(),
            old(self).spec_extends(final(self)),
            final(self).spec_cached(path@).is_some(),
            r matches Ok(d) ==> Some(d) == final(self).spec_cached(path@),
            match old(self).spec_cached(path@) {
                Some(d) => r == Ok::<igObjectDirectoryId, igLoadError>(d)
                    && *final(self) == *old(self)
                    && *final(ig_object_handle_manager) == *old(ig_object_handle_manager),
                None => {
                    &&& final(self).spec_cached(
                        path@,
                    ) == Some(old(self).directories@.len() as usize)
                    &&& final(self).directories@[old(self).directories@.len() as int].path@
                        == spec_native_path(path@)
                    &&& final(self).directories@[old(self).directories@.len() as int].name.hash
                        == crate::util::ig_hash::spec_hash(path@)
                    &&& !crate::load::ig_loader::spec_can_read(spec_native_path(path@))
                        || crate::load::ig_igz_loader::spec_archived_without_fixups(
                        ig_file_context,
                        spec_native_path(path@),
                    ) ==> {
                        &&& r == Ok::<igObjectDirectoryId, igLoadError>(
                            old(self).directories@.len() as usize,
                        )
                        &&& final(self).objects == old(self).objects
                        &&& final(self).directories@.len() == old(self).directories@.len() + 1
                        &&& final(self).directories@.last().dependencies@.len() == 0
                        &&& !final(self).directories@.last().use_name_list
                        &&& final(self).directories@.last().object_list.is_none()
                        &&& *final(ig_object_handle_manager) == *old(ig_object_handle_manager)
                    }
                    &&& crate::load::ig_loader::spec_can_read(spec_native_path(path@))
                        ==> exists|pushed: igObjectStreamManager, namespace: igName| #[trigger]
                        old(self).spec_pushed(&pushed, spec_native_path(path@), namespace)
                            && namespace.hash == crate::util::ig_hash::spec_hash(path@)
                            && crate::load::ig_igz_loader::spec_file_read(
                            ig_metadata_manager,
                            ig_file_context,
                            spec_native_path(path@),
                            old(self).directories@.len() as usize,
                            true,
                            pushed,
                            *old(ig_object_handle_manager),
                            *final(self),
                            *final(ig_object_handle_manager),
                            crate::load::ig_igz_loader::spec_unit_result(r),
                        )
                    &&& crate::load::ig_loader::spec_can_read(spec_native_path(path@)) ==> (
                    crate::load::ig_igz_loader::spec_archived_failure(
                        ig_file_context,
                        spec_native_path(path@),
                    ) matches Some(e) ==> r == Err::<igObjectDirectoryId, igLoadError>(e)
                        && final(self).objects == old(self).objects
                            && final(self).directories@.len()
                        == old(self).directories@.len() + 1)
                },
            },
    {
        let namespace = igName::new(path.clone());
        self.load_with_namespace(
            host,
            ig_file_context,
            ig_registry,
            ig_metadata_manager,
            ig_ext_ref_system,
            ig_object_handle_manager,
            path,
            namespace,
        )
    }

    /// Loads the container at `path` under the namespace `namespace`.
    ///
    /// The path is made native and looked up by its case-insensitive hash. A
    /// path that is cached yields the cached directory, whatever the
    /// namespace; nothing changes. For a new path a directory is created and
    /// entered in both indexes before its loader runs, so that a container
    /// that is reached again while it loads is found in the cache. A loader
    /// is chosen by the path's extension; without one the directory stays
    /// empty. What the loader reports is returned. In every case the
    /// directory of the path is cached afterwards, and nothing that existed
    /// before has changed.
    pub fn load_with_namespace<H: igHostStorage>(
        &mut self,
        host: &H,
        ig_file_context: &igFileContext,
        ig_registry: &igRegistry,
        ig_metadata_manager: &igMetadataManager,
        ig_ext_ref_system: &igExternalReferenceSystem,
        ig_object_handle_manager: &mut igObjectHandleManager,
        path: String,
        namespace: igName,
    ) -> (r: Result<igObjectDirectoryId, igLoadError>)
        requires
            old(self).wf(),
        ensures
            final(self).wf(),
            old(self).spec_extends(final(self)),
            final(self).spec_cached(path@).is_some(),
            r matches Ok(d) ==> Some(d) == final(self).spec_cached(path@),
            match old(self).spec_cached(path@) {
                Some(d) => r == Ok::<igObjectDirectoryId, igLoadError>(d)
                    && *final(self) == *old(self)
                    && *final(ig_object_handle_manager) == *old(ig_object_handle_manager),
                None => {
                    &&& final(self).spec_cached(
                        path@,
                    ) == Some(old(self).directories@.len() as usize)
                    &&& final(self).directories@[old(self).directories@.len() as int].path@
                        == spec_native_path(path@)
                    &&& final(self).directories@[old(self).directories@.len() as int].name
                        == namespace
                    &&& !crate::load::ig_loader::spec_can_read(spec_native_path(path@))
                        || crate::load::ig_igz_loader::spec_archived_without_fixups(
                        ig_file_context,
                        spec_native_path(path@),
                    ) ==> {
                        &&& r == Ok::<igObjectDirectoryId, igLoadError>(
                            old(self).directories@.len() as usize,
                        )
                        &&& final(self).objects == old(self).objects
                        &&& final(self).directories@.len() == old(self).directories@.len() + 1
                        &&& final(self).directories@.last().dependencies@.len() == 0
                        &&& !final(self).directories@.last().use_name_list
                        &&& final(self).directories@.last().object_list.is_none()
                        &&& *final(ig_object_handle_manager) == *old(ig_object_handle_manager)
                    }
                    &&& crate::load::ig_loader::spec_can_read(spec_native_path(path@))
                        ==> exists|pushed: igObjectStreamManager| #[trigger]
                        old(self).spec_pushed(&pushed, spec_native_path(path@), namespace)
                            && crate::load::ig_igz_loader::spec_file_read(
                            ig_metadata_manager,
                            ig_file_context,
                            spec_native_path(path@),
                            old(self).directories@.len() as usize,
                            true,
                            pushed,
                            *old(ig_object_handle_manager),
                            *final(self),
                            *final(ig_object_handle_manager),
                            crate::load::ig_igz_loader::spec_unit_result(r),
                        )
                    &&& crate::load::ig_loader::spec_can_read(spec_native_path(path@)) ==> (
                    crate::load::ig_igz_loader::spec_archived_failure(
                        ig_file_context,
                        spec_native_path(path@),
                    ) matches Some(e) ==> r == Err::<igObjectDirectoryId, igLoadError>(e)
                        && final(self).objects == old(self).objects
                            && final(self).directories@.len()
                        == old(self).directories@.len() + 1)
                },
            },
        decreases old(self).spec_room(), 0int,
    {
        let file_path = get_native_path(path);
        let file_path_hash = hash_lower(file_path.as_str());
        proof {
            lemma_progress_reflexive(
                self,
                self.directories@.len() as int,
                self.objects@.len() as int,
            );
            self.lemma_room();
        }
        match self.path_to_directory_lookup.get(&file_path_hash) {
            Some(cached) => {
                return Ok(*cached);
            },
            None => {},
        }
        let dir = self.push_dir(file_path.as_str(), namespace);
        let ghost pushed = *self;
        let loader_result = get_loader(file_path.as_str());
        match loader_result {
            Some(loader) => {
                proof {
                    self.lemma_room();
                }
                let r = loader.read_file(
                    host,
                    ig_file_context,
                    ig_registry,
                    self,
                    ig_ext_ref_system,
                    ig_object_handle_manager,
                    ig_metadata_manager,
                    dir,
                    file_path.as_str(),
                );
                proof {
                    lemma_progress_weaken(
                        &pushed,
                        self,
                        dir as int,
                        pushed.objects@.len() as int,
                        old(self).objects@.len() as int,
                    );
                    assert(old(self).spec_progress(
                        &pushed,
                        dir as int,
                        old(self).objects@.len() as int,
                    ));
                    lemma_progress_transitive(
                        old(self),
                        &pushed,
                        self,
                        dir as int,
                        old(self).objects@.len() as int,
                    );
                }
                assert(old(self).spec_pushed(&pushed, file_path@, namespace));
                proof {
                    crate::load::ig_igz_loader::lemma_file_read_outcome(
                        ig_metadata_manager,
                        ig_file_context,
                        file_path@,
                        dir,
                        true,
                        pushed,
                        *old(ig_object_handle_manager),
                        *self,
                        *ig_object_handle_manager,
                        r,
                        crate::load::ig_igz_loader::spec_unit_result(r),
                    );
                }
                match r {
                    Ok(_) => Ok(dir),
                    Err(e) => Err(e),
                }
            },
            None => Ok(dir),
        }
    }
}

} // verus!
