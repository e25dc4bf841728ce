//! Handles: names of objects that hold across containers.
//!
//! A handle names an object by the hash of a namespace and the hash of an
//! alias. It is resolved against the loaded directories when it is first
//! needed, and keeps what it found.

use crate::object::ig_objects::{igObject, igObjectDirectoryId, igObjectStreamManager};
use crate::util::ig_name::igName;
use std::collections::HashMap;
use vstd::prelude::*;

verus! {

/// The two names that identify a handle.
#[derive(Debug)]
pub struct igHandleName {
    pub name: igName,
    pub namespace: igName,
}

impl igHandleName {
    /// The handle name of `name` in `namespace`.
    pub fn new(name: igName, namespace: igName) -> (handle_name: igHandleName)
        ensures
            handle_name.name == name,
            handle_name.namespace == namespace,
    {
        igHandleName { name, namespace }
    }
}

/// A namespace, an alias and, once resolved, the object they name.
#[derive(Debug)]
pub struct igHandle {
    pub namespace: igName,
    pub alias: igName,
    pub object: Option<igObject>,
}

/// Entry `i` of a list of root objects, `None` beyond its end.
pub open spec fn spec_entry(objects: Seq<Option<igObject>>, i: int) -> Option<igObject> {
    if 0 <= i < objects.len() {
        objects[i]
    } else {
        None
    }
}

/// What a handle holds after the first `n` names of one directory have been
/// compared with `alias`: every match replaces what was found before by the
/// root object at the position of the match.
pub open spec fn spec_scan_names(
    names: Seq<igName>,
    objects: Seq<Option<igObject>>,
    alias: u32,
    n: nat,
    current: Option<igObject>,
) -> Option<igObject>
    decreases n,
{
    if n == 0 {
        current
    } else if names[n - 1].hash == alias {
        spec_entry(objects, n - 1)
    } else {
        spec_scan_names(names, objects, alias, (n - 1) as nat, current)
    }
}

/// What a handle holds after the directories `list[from..]` have been walked
/// in order. A directory without a name list is passed over.
pub open spec fn spec_alias_scan(
    mgr: igObjectStreamManager,
    list: Seq<igObjectDirectoryId>,
    alias: u32,
    from: int,
    current: Option<igObject>,
) -> Option<igObject>
    decreases list.len() - from,
{
    if from < 0 || from >= list.len() {
        current
    } else if !mgr.directories@[list[from] as int].use_name_list {
        spec_alias_scan(mgr, list, alias, from + 1, current)
    } else {
        spec_alias_scan(
            mgr,
            list,
            alias,
            from + 1,
            spec_scan_names(
                mgr.spec_names_of(list[from] as int),
                mgr.spec_objects_of(list[from] as int),
                alias,
                mgr.spec_names_of(list[from] as int).len(),
                current,
            ),
        )
    }
}

/// The object a handle holds after it was asked to resolve itself.
pub open spec fn spec_resolved(handle: igHandle, mgr: igObjectStreamManager) -> Option<igObject> {
    if handle.object.is_some() {
        handle.object
    } else if !mgr.name_to_directory_lookup@.contains_key(handle.namespace.hash) {
        None
    } else {
        spec_alias_scan(
            mgr,
            mgr.name_to_directory_lookup@[handle.namespace.hash]@,
            handle.alias.hash,
            0,
            None,
        )
    }
}

impl igHandle {
    /// An unresolved handle for a handle name.
    pub fn from_handle_name(name: &igHandleName) -> (handle: igHandle)
        ensures
            handle.namespace == name.namespace,
            handle.alias == name.name,
            handle.object.is_none(),
    {
        igHandle {
            namespace: name.namespace.duplicate(),
            alias: name.name.duplicate(),
            object: None,
        }
    }

    /// A copy of the handle.
    pub fn duplicate(&self) -> (handle: igHandle)
        ensures
            handle == *self,
    {
        igHandle {
            namespace: self.namespace.duplicate(),
            alias: self.alias.duplicate(),
            object: self.object,
        }
    }

    /// The object the handle names, resolving it first if need be.
    ///
    /// A handle that holds an object returns it. Otherwise the directories
    /// under the handle's namespace are walked, oldest first; one without a
    /// name list is passed over, and in each of the others every name whose
    /// hash is the alias hash makes the handle take the root object at the
    /// same position. What the handle holds in the end is kept and returned.
    pub fn get_object_alias(&mut self, object_stream_manager: &igObjectStreamManager) -> (object:
        Option<igObject>)
        requires
            object_stream_manager.wf(),
        ensures
            final(self).namespace == old(self).namespace,
            final(self).alias == old(self).alias,
            final(self).object == spec_resolved(*old(self), *object_stream_manager),
            object == final(self).object,
    {
        if self.object.is_some() {
            return self.object;
        }
        let dirs = match object_stream_manager.name_to_directory_lookup.get(&self.namespace.hash) {
            Some(dirs) => dirs,
            None => {
                return None;
            },
        };
        let alias: u32 = self.alias.hash;
        let ghost target = spec_resolved(*old(self), *object_stream_manager);
        let mut found: Option<igObject> = None;
        let mut j: usize = 0;
        while j < dirs.len()
            invariant
                *self == *old(self),
                alias == self.alias.hash,
                target == spec_resolved(*old(self), *object_stream_manager),
                object_stream_manager.wf(),
                object_stream_manager.name_to_directory_lookup@.contains_key(self.namespace.hash),
                dirs@ == object_stream_manager.name_to_directory_lookup@[self.namespace.hash]@,
                j <= dirs.len(),
                target == spec_alias_scan(*object_stream_manager, dirs@, alias, j as int, found),
            decreases dirs.len() - j,
        {
            let dir: usize = dirs[j];
            assert(dir < object_stream_manager.directories@.len());
            if object_stream_manager.directories[dir].use_name_list {
                found = scan_names(object_stream_manager, dir, alias, found);
            }
            j = j + 1;
        }
        self.object = found;
        found
    }
}

/// Compares every name of directory `dir` with `alias`.
fn scan_names(
    mgr: &igObjectStreamManager,
    dir: igObjectDirectoryId,
    alias: u32,
    current: Option<igObject>,
) -> (found: Option<igObject>)
    requires
        dir < mgr.directories@.len(),
    ensures
        found == spec_scan_names(
            mgr.spec_names_of(dir as int),
            mgr.spec_objects_of(dir as int),
            alias,
            mgr.spec_names_of(dir as int).len(),
            current,
        ),
{
    let names = match mgr.names_of(dir) {
        Some(names) => names,
        None => {
            return current;
        },
    };
    let objects = mgr.objects_of(dir);
    let mut found = current;
    let mut i: usize = 0;
    while i < names.len()
        invariant
            i <= names.len(),
            names@ == mgr.spec_names_of(dir as int),
            match objects {
                Some(l) => l@ == mgr.spec_objects_of(dir as int),
                None => mgr.spec_objects_of(dir as int).len() == 0,
            },
            found == spec_scan_names(
                names@,
                mgr.spec_objects_of(dir as int),
                alias,
                i as nat,
                current,
            ),
        decreases names.len() - i,
    {
        if names[i].hash == alias {
            found = match objects {
                Some(l) => if i < l.len() {
                    l[i]
                } else {
                    None
                },
                None => None,
            };
        }
        i = i + 1;
    }
    found
}

/// The key under which a handle is interned: the namespace hash in the high
/// half, the alias hash in the low half.
pub open spec fn spec_handle_key(namespace_hash: u32, name_hash: u32) -> u64 {
    ((namespace_hash as u64) << 32) | (name_hash as u64)
}

/// Two pairs of hashes with the same key are the same pair: handles collide
/// only where the hashes of their names do.
pub proof fn lemma_handle_key_injective(ns1: u32, name1: u32, ns2: u32, name2: u32)
    requires
        spec_handle_key(ns1, name1) == spec_handle_key(ns2, name2),
    ensures
        ns1 == ns2,
        name1 == name2,
{
    assert((((ns1 as u64) << 32) | (name1 as u64)) == (((ns2 as u64) << 32) | (name2 as u64))
        ==> ns1 == ns2 && name1 == name2) by (bit_vector);
}

/// The halves of a key are the hashes it was made of.
pub proof fn lemma_handle_key_halves(ns: u32, name: u32)
    ensures
        spec_handle_key(ns, name) >> 32 == ns,
        spec_handle_key(ns, name) & 0xFFFF_FFFF == name,
{
    assert(((((ns as u64) << 32) | (name as u64)) >> 32) == ns as u64) by (bit_vector);
    assert(((((ns as u64) << 32) | (name as u64)) & 0xFFFF_FFFF) == name as u64) by (bit_vector);
}

/// A name with its text filled in from an observation, if it had none.
pub open spec fn spec_backfill(known: igName, observed: igName) -> igName {
    if observed.string.is_some() && known.string.is_none() {
        igName { string: observed.string, hash: known.hash }
    } else {
        known
    }
}

/// The handle that a lookup of `(namespace, name)` leaves interned: the one
/// that was there, or a fresh unresolved one, with texts filled in.
pub open spec fn spec_interned(handles: Map<u64, igHandle>, namespace: igName, name: igName)
    -> igHandle {
    let key = spec_handle_key(namespace.hash, name.hash);
    let base = if handles.contains_key(key) {
        handles[key]
    } else {
        igHandle { namespace, alias: name, object: None }
    };
    igHandle {
        namespace: spec_backfill(base.namespace, namespace),
        alias: spec_backfill(base.alias, name),
        object: base.object,
    }
}

/// The table of interned handles.
pub struct igObjectHandleManager {
    system_namespaces: Vec<String>,
    handle_list: Vec<u32>,
    object_to_handle_map: HashMap<igObject, igHandle>,
    handle_map: HashMap<u64, igHandle>,
}

/// Whether every handle of a table stands under the key of its own hashes.
pub open spec fn spec_keyed(handles: Map<u64, igHandle>) -> bool {
    forall|k: u64| #[trigger]
        handles.contains_key(k) ==> spec_handle_key(
            handles[k].namespace.hash,
            handles[k].alias.hash,
        ) == k
}

impl igObjectHandleManager {
    /// The interned handles, by key.
    pub closed spec fn spec_handles(&self) -> Map<u64, igHandle> {
        self.handle_map@
    }

    /// Every interned handle stands under the key of its own hashes.
    #[verifier::type_invariant]
    pub open spec fn keyed(&self) -> bool {
        spec_keyed(self.spec_handles())
    }

    /// An empty table.
    pub fn new() -> (mgr: igObjectHandleManager)
        ensures
            mgr.spec_handles() == Map::<u64, igHandle>::empty(),
    {
        igObjectHandleManager {
            system_namespaces: Vec::new(),
            handle_list: Vec::new(),
            object_to_handle_map: HashMap::new(),
            handle_map: HashMap::new(),
        }
    }

    /// Number of interned handles.
    pub fn handle_count(&self) -> (n: usize)
        ensures
            n == self.spec_handles().dom().len(),
    {
        self.handle_map.len()
    }

    /// Interns the handle of a handle name and returns a copy of it.
    pub fn lookup_handle_name(&mut self, name: &igHandleName) -> (handle: igHandle)
        ensures
            handle == spec_interned(old(self).spec_handles(), name.namespace, name.name),
            final(self).spec_handles() == old(self).spec_handles().insert(
                spec_handle_key(name.namespace.hash, name.name.hash),
                handle,
            ),
            handle.namespace.hash == name.namespace.hash,
            handle.alias.hash == name.name.hash,
            spec_keyed(old(self).spec_handles()),
            spec_keyed(final(self).spec_handles()),
    {
        self.lookup_handle(name.namespace.duplicate(), name.name.duplicate())
    }

    /// The key of `(ns, name)`.
    pub fn get_handle_key(ns: &igName, name: &igName) -> (key: u64)
        ensures
            key == spec_handle_key(ns.hash, name.hash),
    {
        ((ns.hash as u64) << 32) | (name.hash as u64)
    }

    /// Interns the handle of `(namespace, name)` and returns a copy of it.
    ///
    /// A handle that is not in the table yet is entered unresolved. Where the
    /// interned handle lacks the text of a name and the lookup brings it, the
    /// text is filled in.
    pub fn lookup_handle(&mut self, namespace: igName, name: igName) -> (handle: igHandle)
        ensures
            handle == spec_interned(old(self).spec_handles(), namespace, name),
            final(self).spec_handles() == old(self).spec_handles().insert(
                spec_handle_key(namespace.hash, name.hash),
                handle,
            ),
            handle.namespace.hash == namespace.hash,
            handle.alias.hash == name.hash,
            spec_keyed(old(self).spec_handles()),
            spec_keyed(final(self).spec_handles()),
    {
        proof {
            use_type_invariant(&*self);
            let key = spec_handle_key(namespace.hash, name.hash);
            if self.spec_handles().contains_key(key) {
                lemma_handle_key_injective(
                    self.spec_handles()[key].namespace.hash,
                    self.spec_handles()[key].alias.hash,
                    namespace.hash,
                    name.hash,
                );
            }
        }
        let key = igObjectHandleManager::get_handle_key(&namespace, &name);
        let mut table = igObjectHandleManager::new();
        std::mem::swap(self, &mut table);
        let igObjectHandleManager {
            system_namespaces,
            handle_list,
            object_to_handle_map,
            handle_map,
        } = table;
        let mut handle_map = handle_map;
        let mut handle = match handle_map.remove(&key) {
            Some(existing) => existing,
            None => igHandle {
                namespace: namespace.duplicate(),
                alias: name.duplicate(),
                object: None,
            },
        };
        if namespace.string.is_some() && handle.namespace.string.is_none() {
            handle.namespace.string = namespace.string;
        }
        if name.string.is_some() && handle.alias.string.is_none() {
            handle.alias.string = name.string;
        }
        let copy = handle.duplicate();
        handle_map.insert(key, handle);
        assert(handle_map@ =~= old(self).handle_map@.insert(key, copy));
        *self = igObjectHandleManager {
            system_namespaces,
            handle_list,
            object_to_handle_map,
            handle_map,
        };
        copy
    }
}

} // verus!
