//! Resolution of references between containers, by namespace and alias.

use crate::object::ig_handle::{igHandleName, spec_entry};
use crate::object::ig_objects::{igObject, igObjectDirectoryId, igObjectStreamManager};
use vstd::prelude::*;

verus! {

/// The first root object, at or after position `from`, whose name has the
/// hash `alias` and which is present.
pub open spec fn spec_first_named(
    names: Seq<crate::util::ig_name::igName>,
    objects: Seq<Option<igObject>>,
    alias: u32,
    from: int,
) -> Option<igObject>
    decreases names.len() - from,
{
    if from < 0 || from >= names.len() {
        None
    } else if names[from].hash == alias && spec_entry(objects, from).is_some() {
        spec_entry(objects, from)
    } else {
        spec_first_named(names, objects, alias, from + 1)
    }
}

/// The object that directory `dir` offers under `alias`: none without a name
/// list.
pub open spec fn spec_named_in(mgr: igObjectStreamManager, dir: int, alias: u32) -> Option<
    igObject,
> {
    if mgr.directories@[dir].use_name_list {
        spec_first_named(mgr.spec_names_of(dir), mgr.spec_objects_of(dir), alias, 0)
    } else {
        None
    }
}

/// The object that the first of the directories `list[from..]` offers under
/// `alias`.
pub open spec fn spec_find_in_dirs(
    mgr: igObjectStreamManager,
    list: Seq<igObjectDirectoryId>,
    alias: u32,
    from: int,
) -> Option<igObject>
    decreases list.len() - from,
{
    if from < 0 || from >= list.len() {
        None
    } else if spec_named_in(mgr, list[from] as int, alias).is_some() {
        spec_named_in(mgr, list[from] as int, alias)
    } else {
        spec_find_in_dirs(mgr, list, alias, from + 1)
    }
}

/// The object that the loaded directories offer for a namespace hash and an
/// alias hash: the first present root object with that alias in the oldest
/// directory of that namespace that has one.
pub open spec fn spec_find_named(mgr: igObjectStreamManager, namespace: u32, alias: u32) -> Option<
    igObject,
> {
    if mgr.name_to_directory_lookup@.contains_key(namespace) {
        spec_find_in_dirs(mgr, mgr.name_to_directory_lookup@[namespace]@, alias, 0)
    } else {
        None
    }
}

/// Searches one directory for a present root object named `alias`.
fn find_in_directory(mgr: &igObjectStreamManager, dir: igObjectDirectoryId, alias: u32) -> (found:
    Option<igObject>)
    requires
        dir < mgr.directories@.len(),
    ensures
        found == spec_named_in(*mgr, dir as int, alias),
{
    if !mgr.directories[dir].use_name_list {
        return None;
    }
    let names = match mgr.names_of(dir) {
        Some(names) => names,
        None => {
            return None;
        },
    };
    let objects = match mgr.objects_of(dir) {
        Some(objects) => objects,
        None => {
            proof {
                lemma_none_without_objects(names@, mgr.spec_objects_of(dir as int), alias, 0);
            }
            return None;
        },
    };
    let mut i: usize = 0;
    while i < names.len()
        invariant
            i <= names.len(),
            dir < mgr.directories@.len(),
            mgr.directories@[dir as int].use_name_list,
            names@ == mgr.spec_names_of(dir as int),
            objects@ == mgr.spec_objects_of(dir as int),
            spec_first_named(names@, objects@, alias, 0) == spec_first_named(
                names@,
                objects@,
                alias,
                i as int,
            ),
        decreases names.len() - i,
    {
        if names[i].hash == alias && i < objects.len() {
            match objects[i] {
                Some(object) => {
                    return Some(object);
                },
                None => {},
            }
        }
        i = i + 1;
    }
    None
}

/// Without root objects no name leads to an object.
proof fn lemma_none_without_objects(
    names: Seq<crate::util::ig_name::igName>,
    objects: Seq<Option<igObject>>,
    alias: u32,
    from: int,
)
    requires
        objects.len() == 0,
    ensures
        spec_first_named(names, objects, alias, from).is_none(),
    decreases names.len() - from,
{
    if 0 <= from < names.len() {
        lemma_none_without_objects(names, objects, alias, from + 1);
    }
}

/// Searches the loaded directories of a namespace for an object named
/// `alias`.
pub fn find_named(mgr: &igObjectStreamManager, namespace: u32, alias: u32) -> (found: Option<
    igObject,
>)
    requires
        mgr.wf(),
    ensures
        found == spec_find_named(*mgr, namespace, alias),
{
    let dirs = match mgr.name_to_directory_lookup.get(&namespace) {
        Some(dirs) => dirs,
        None => {
            return None;
        },
    };
    let mut j: usize = 0;
    while j < dirs.len()
        invariant
            mgr.wf(),
            mgr.name_to_directory_lookup@.contains_key(namespace),
            dirs@ == mgr.name_to_directory_lookup@[namespace]@,
            j <= dirs.len(),
            spec_find_named(*mgr, namespace, alias) == spec_find_in_dirs(
                *mgr,
                dirs@,
                alias,
                j as int,
            ),
        decreases dirs.len() - j,
    {
        let dir: usize = dirs[j];
        assert(dir < mgr.directories@.len());
        let found = find_in_directory(mgr, dir, alias);
        if found.is_some() {
            return found;
        }
        j = j + 1;
    }
    None
}

/// What a resolver may use besides the handle name.
#[derive(Debug)]
pub struct igReferenceResolverContext {
    pub root_objects: Option<igObject>,
    pub base_path: Option<String>,
    pub data: Option<igObject>,
}

/// A set of resolvers. The set resolves a handle name against the loaded
/// directories.
#[derive(Debug)]
pub struct igReferenceResolverSet {
    pub contexts: Vec<igReferenceResolverContext>,
}

impl igReferenceResolverSet {
    /// The object that the loaded directories offer for `name`, if any.
    pub fn resolve_reference(
        &self,
        name: &igHandleName,
        ctx: &igReferenceResolverContext,
        object_stream_manager: &igObjectStreamManager,
    ) -> (object: Option<igObject>)
        requires
            object_stream_manager.wf(),
        ensures
            object == spec_find_named(*object_stream_manager, name.namespace.hash, name.name.hash),
    {
        find_named(object_stream_manager, name.namespace.hash, name.name.hash)
    }
}

/// The resolvers shared by every load.
#[derive(Debug)]
pub struct igExternalReferenceSystem {
    pub global_set: igReferenceResolverSet,
}

impl igExternalReferenceSystem {
    /// A system without resolver contexts.
    pub fn new() -> (system: igExternalReferenceSystem)
        ensures
            system.global_set.contexts@.len() == 0,
    {
        igExternalReferenceSystem { global_set: igReferenceResolverSet { contexts: Vec::new() } }
    }
}

} // verus!
