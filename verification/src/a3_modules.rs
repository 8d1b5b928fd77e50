//! The module registry: a bidirectional map between 32-bit physical UIDs
//! and 8-bit logical IDs, with cached per-module metadata.
//!
//! Invariant: the two index maps agree entry for entry, every registered id
//! lies in `[1, 255]`, and id 0 is reserved as the "no available ID"
//! sentinel.

use std::collections::HashMap;

use vstd::prelude::*;

use crate::error::{AppError, ErrorType};

verus! {

broadcast use vstd::std_specs::hash::group_hash_axioms;

/// One registered module: its serial, its logical id, and whatever
/// metadata later configuration pulls have cached.
#[derive(Debug, Clone)]
pub struct A3Module {
    /// The 32-bit serial assigned at manufacture.
    pub uid: u32,
    /// The logical id assigned by mission-control; in `[1, 255]`.
    pub id: u8,
    /// The module's name, once a configuration pull has seen it.
    pub name: Option<String>,
    /// The module type name resolved through the schema.
    pub module_type: Option<String>,
    /// The raw module type id.
    pub module_type_id: Option<u16>,
}

/// The mathematical value of one registry entry; strings appear as
/// character sequences.
pub struct A3ModuleView {
    /// The serial.
    pub uid: u32,
    /// The logical id.
    pub id: u8,
    /// The cached name.
    pub name: Option<Seq<char>>,
    /// The cached module type name.
    pub module_type: Option<Seq<char>>,
    /// The cached module type id.
    pub module_type_id: Option<u16>,
}

/// The view of an optional string: the character sequence it holds, if any.
pub open spec fn opt_str_view(o: Option<String>) -> Option<Seq<char>> {
    match o {
        Some(s) => Some(s@),
        None => None,
    }
}

impl View for A3Module {
    type V = A3ModuleView;

    open spec fn view(&self) -> A3ModuleView {
        A3ModuleView {
            uid: self.uid,
            id: self.id,
            name: opt_str_view(self.name),
            module_type: opt_str_view(self.module_type),
            module_type_id: self.module_type_id,
        }
    }
}

impl A3Module {
    /// A fresh entry holding only the two addresses.
    pub fn bare(uid: u32, id: u8) -> (r: Self)
        ensures
            r@ == bare_module(uid, id),
    {
        A3Module { uid, id, name: None, module_type: None, module_type_id: None }
    }

    /// A field-preserving copy; `Clone` on a type with `String` fields
    /// says nothing to the verifier, so the registry copies through this.
    pub fn duplicate(&self) -> (r: Self)
        ensures
            r@ == self@,
    {
        A3Module {
            uid: self.uid,
            id: self.id,
            name: clone_opt_string(&self.name),
            module_type: clone_opt_string(&self.module_type),
            module_type_id: self.module_type_id,
        }
    }
}

/// The view of a fresh entry with no metadata.
pub open spec fn bare_module(uid: u32, id: u8) -> A3ModuleView {
    A3ModuleView { uid, id, name: None, module_type: None, module_type_id: None }
}

/// Copies an optional string, preserving its characters.
pub fn clone_opt_string(o: &Option<String>) -> (r: Option<String>)
    ensures
        opt_str_view(r) == opt_str_view(*o),
{
    match o {
        Some(s) => Some(s.clone()),
        None => None,
    }
}

/// The registry's two index maps.
pub struct A3Modules {
    modules_by_id: HashMap<u8, A3Module>,
    modules_by_uid: HashMap<u32, A3Module>,
}

impl A3Modules {
    /// The registry as a map from logical id to entry.
    pub closed spec fn by_id(self) -> Map<u8, A3ModuleView> {
        self.modules_by_id@.map_values(|m: A3Module| m@)
    }

    /// The registry as a map from UID to entry.
    pub closed spec fn by_uid(self) -> Map<u32, A3ModuleView> {
        self.modules_by_uid@.map_values(|m: A3Module| m@)
    }

    /// The registry invariant: both index maps carry the same entries,
    /// keyed consistently, and no entry uses the reserved id 0.
    pub open spec fn wf(self) -> bool {
        &&& forall|i: u8| #[trigger]
            self.by_id().contains_key(i) ==> {
                &&& self.by_id()[i].id == i
                &&& i >= 1
                &&& self.by_uid().contains_key(self.by_id()[i].uid)
                &&& self.by_uid()[self.by_id()[i].uid] == self.by_id()[i]
            }
        &&& forall|u: u32| #[trigger]
            self.by_uid().contains_key(u) ==> {
                &&& self.by_uid()[u].uid == u
                &&& self.by_id().contains_key(self.by_uid()[u].id)
                &&& self.by_id()[self.by_uid()[u].id] == self.by_uid()[u]
            }
    }

    /// An empty registry.
    pub fn new() -> (r: Self)
        ensures
            r.wf(),
            r.by_id() == Map::<u8, A3ModuleView>::empty(),
            r.by_uid() == Map::<u32, A3ModuleView>::empty(),
    {
        let r = A3Modules { modules_by_id: HashMap::new(), modules_by_uid: HashMap::new() };
        proof {
            assert(r.by_id() =~= Map::<u8, A3ModuleView>::empty());
            assert(r.by_uid() =~= Map::<u32, A3ModuleView>::empty());
        }
        r
    }

    /// Returns the id already held by `uid`, or registers `uid` under the
    /// smallest free id in `[1, 255]` and returns it, or returns 0 and
    /// changes nothing when every id is taken.
    pub fn get_or_create_id_by_uid(&mut self, uid: u32) -> (r: u8)
        requires
            old(self).wf(),
        ensures
            final(self).wf(),
            old(self).by_uid().contains_key(uid) ==> {
                &&& r == old(self).by_uid()[uid].id
                &&& final(self).by_id() == old(self).by_id()
                &&& final(self).by_uid() == old(self).by_uid()
            },
            !old(self).by_uid().contains_key(uid) && r != 0 ==> {
                &&& r >= 1
                &&& !old(self).by_id().contains_key(r)
                &&& forall|j: u8| 1 <= j < r ==> old(self).by_id().contains_key(j)
                &&& final(self).by_id() == old(self).by_id().insert(r, bare_module(uid, r))
                &&& final(self).by_uid() == old(self).by_uid().insert(uid, bare_module(uid, r))
            },
            !old(self).by_uid().contains_key(uid) && r == 0 ==> {
                &&& forall|j: u8| 1 <= j <= 255 ==> old(self).by_id().contains_key(j)
                &&& final(self).by_id() == old(self).by_id()
                &&& final(self).by_uid() == old(self).by_uid()
            },
    {
        match self.modules_by_uid.get(&uid) {
            Some(module) => module.id,
            None => {
                let new_id = self.find_available_id();
                if new_id == 0 {
                    return 0;
                }
                let module = A3Module::bare(uid, new_id);
                self.modules_by_id.insert(new_id, module.duplicate());
                self.modules_by_uid.insert(uid, module);
                proof {
                    assert(self.by_id() =~= old(self).by_id().insert(
                        new_id,
                        bare_module(uid, new_id),
                    ));
                    assert(self.by_uid() =~= old(self).by_uid().insert(
                        uid,
                        bare_module(uid, new_id),
                    ));
                }
                new_id
            },
        }
    }

    /// The id map after binding `uid` to `id`: any entry this `uid` held
    /// before is gone, and `id` now carries the fresh entry.
    pub open spec fn register_by_id(
        by_id: Map<u8, A3ModuleView>,
        by_uid: Map<u32, A3ModuleView>,
        uid: u32,
        id: u8,
    ) -> Map<u8, A3ModuleView> {
        let cleared = if by_uid.contains_key(uid) {
            by_id.remove(by_uid[uid].id)
        } else {
            by_id
        };
        cleared.insert(id, bare_module(uid, id))
    }

    /// The uid map after binding `uid` to `id`: any entry that held `id`
    /// before is gone, and `uid` now carries the fresh entry.
    pub open spec fn register_by_uid(
        by_id: Map<u8, A3ModuleView>,
        by_uid: Map<u32, A3ModuleView>,
        uid: u32,
        id: u8,
    ) -> Map<u32, A3ModuleView> {
        let cleared = if by_id.contains_key(id) {
            by_uid.remove(by_id[id].uid)
        } else {
            by_uid
        };
        cleared.insert(uid, bare_module(uid, id))
    }

    /// Binds `uid` to `id`, dropping any prior binding of either key.  The
    /// reserved id 0 is refused: the registry is left unchanged.
    pub fn register(&mut self, uid: u32, id: u8)
        requires
            old(self).wf(),
        ensures
            final(self).wf(),
            id == 0 ==> final(self).by_id() == old(self).by_id() && final(self).by_uid() == old(self).by_uid(),
            id != 0 ==> final(self).by_id() == Self::register_by_id(
                old(self).by_id(),
                old(self).by_uid(),
                uid,
                id,
            ),
            id != 0 ==> final(self).by_uid() == Self::register_by_uid(
                old(self).by_id(),
                old(self).by_uid(),
                uid,
                id,
            ),
    {
        if id == 0 {
            return;
        }
        // Drop a stale binding of this uid under another id.
        let prior_id = match self.modules_by_uid.get(&uid) {
            Some(m) => Some(m.id),
            None => None,
        };
        if let Some(pid) = prior_id {
            self.modules_by_id.remove(&pid);
        }
        // Drop a stale binding of this id to another uid.  The first
        // removal cannot have touched it: the entry under `id` belongs to
        // a different uid whenever it is not the one being rebound.
        let prior_uid = match self.modules_by_id.get(&id) {
            Some(m) => Some(m.uid),
            None => None,
        };
        if let Some(puid) = prior_uid {
            self.modules_by_uid.remove(&puid);
        }
        let module = A3Module::bare(uid, id);
        self.modules_by_id.insert(id, module.duplicate());
        self.modules_by_uid.insert(uid, module);
        proof {
            let oid = old(self).by_id();
            let ouid = old(self).by_uid();
            assert(self.by_id() =~= Self::register_by_id(oid, ouid, uid, id));
            assert(self.by_uid() =~= Self::register_by_uid(oid, ouid, uid, id));
            let nid = self.by_id();
            let nuid = self.by_uid();
            assert forall|i: u8| #[trigger] nid.contains_key(i) implies {
                &&& nid[i].id == i
                &&& i >= 1
                &&& nuid.contains_key(nid[i].uid)
                &&& nuid[nid[i].uid] == nid[i]
            } by {
                if i != id {
                    assert(oid.contains_key(i));
                    let u = oid[i].uid;
                    assert(ouid.contains_key(u) && ouid[u] == oid[i]);
                    if u == uid {
                        assert(ouid[uid].id == i);
                    }
                    if oid.contains_key(id) && u == oid[id].uid {
                        assert(ouid[u].id == id);
                    }
                }
            }
            assert forall|u: u32| #[trigger] nuid.contains_key(u) implies {
                &&& nuid[u].uid == u
                &&& nid.contains_key(nuid[u].id)
                &&& nid[nuid[u].id] == nuid[u]
            } by {
                if u != uid {
                    assert(ouid.contains_key(u));
                    let i = ouid[u].id;
                    assert(oid.contains_key(i) && oid[i] == ouid[u]);
                    if i == id {
                        assert(oid[id].uid == u);
                    }
                    if ouid.contains_key(uid) && i == ouid[uid].id {
                        assert(oid[i].uid == uid);
                    }
                }
            }
        }
    }

    /// Removes the entry registered under `uid`, if any, from both maps.
    pub fn deregister(&mut self, uid: u32)
        requires
            old(self).wf(),
        ensures
            final(self).wf(),
            old(self).by_uid().contains_key(uid) ==> {
                &&& final(self).by_uid() == old(self).by_uid().remove(uid)
                &&& final(self).by_id() == old(self).by_id().remove(old(self).by_uid()[uid].id)
            },
            !old(self).by_uid().contains_key(uid) ==> final(self).by_uid() == old(self).by_uid()
                && final(self).by_id() == old(self).by_id(),
    {
        let removed = self.modules_by_uid.remove(&uid);
        if let Some(module) = removed {
            self.modules_by_id.remove(&module.id);
            proof {
                let oid = old(self).by_id();
                let ouid = old(self).by_uid();
                let pid = ouid[uid].id;
                assert(self.by_uid() =~= ouid.remove(uid));
                assert(self.by_id() =~= oid.remove(pid));
                let nid = self.by_id();
                let nuid = self.by_uid();
                assert forall|i: u8| #[trigger] nid.contains_key(i) implies {
                    &&& nid[i].id == i
                    &&& i >= 1
                    &&& nuid.contains_key(nid[i].uid)
                    &&& nuid[nid[i].uid] == nid[i]
                } by {
                    assert(oid.contains_key(i));
                    if oid[i].uid == uid {
                        assert(ouid[uid].id == i);
                    }
                }
                assert forall|u: u32| #[trigger] nuid.contains_key(u) implies {
                    &&& nuid[u].uid == u
                    &&& nid.contains_key(nuid[u].id)
                    &&& nid[nuid[u].id] == nuid[u]
                } by {
                    assert(ouid.contains_key(u));
                    assert(ouid.contains_key(uid));
                    assert(oid.contains_key(pid) && oid[pid] == ouid[uid]);
                    if ouid[u].id == pid {
                        assert(oid[pid] == ouid[u]);
                    }
                }
            }
        } else {
            proof {
                assert(self.by_uid() =~= old(self).by_uid());
                assert(self.by_id() =~= old(self).by_id());
            }
        }
    }

    /// A snapshot of every registered module, in ascending id order.
    pub fn list(&self) -> (r: Vec<A3Module>)
        requires
            self.wf(),
        ensures
            forall|n: int| #![auto]
                0 <= n < r@.len() ==> self.by_id().contains_key(r@[n].id) && self.by_id()[r@[n].id]
                    == r@[n]@,
            forall|k: u8| #[trigger]
                self.by_id().contains_key(k) ==> exists|n: int|
                    0 <= n < r@.len() && (#[trigger] r@[n]).id == k,
            forall|n: int, m: int| 0 <= n < m < r@.len() ==> r@[n].id < r@[m].id,
    {
        let mut modules_list: Vec<A3Module> = Vec::new();
        let mut id: u16 = 1;
        while id <= 255
            invariant
                self.wf(),
                1 <= id <= 256,
                forall|n: int| #![auto]
                    0 <= n < modules_list@.len() ==> self.by_id().contains_key(modules_list@[n].id)
                        && self.by_id()[modules_list@[n].id] == modules_list@[n]@,
                forall|k: u8| #[trigger]
                    self.by_id().contains_key(k) && k < id ==> exists|n: int|
                        0 <= n < modules_list@.len() && (#[trigger] modules_list@[n]).id == k,
                forall|n: int| 0 <= n < modules_list@.len() ==> (#[trigger] modules_list@[n]).id
                    < id,
                forall|n: int, m: int|
                    0 <= n < m < modules_list@.len() ==> modules_list@[n].id < modules_list@[m].id,
            decreases 256 - id,
        {
            let key = id as u8;
            if let Some(module) = self.modules_by_id.get(&key) {
                proof {
                    assert(self.by_id().contains_key(key) && self.by_id()[key] == module@);
                    assert(module.id == key);
                }
                let ghost before = modules_list@;
                modules_list.push(module.duplicate());
                proof {
                    assert(modules_list@.len() == before.len() + 1);
                    assert(modules_list@[before.len() as int].id == key);
                    assert forall|k: u8|
                        self.by_id().contains_key(k) && k < id + 1 implies exists|n: int|
                            0 <= n < modules_list@.len() && (#[trigger] modules_list@[n]).id
                                == k by {
                        if k < id {
                            let n = choose|n: int|
                                0 <= n < before.len() && (#[trigger] before[n]).id == k;
                            assert(modules_list@[n].id == k);
                        } else {
                            assert(modules_list@[before.len() as int].id == k);
                        }
                    }
                }
            }
            id = id + 1;
        }
        modules_list
    }

    /// Looks a module up by logical id; `A3ModuleNotFound` when the id is
    /// not registered.
    pub fn get_by_id(&self, id: u8) -> (r: Result<A3Module, AppError>)
        requires
            self.wf(),
        ensures
            match r {
                Ok(m) => self.by_id().contains_key(id) && m@ == self.by_id()[id],
                Err(e) => !self.by_id().contains_key(id) && e.error_type
                    == ErrorType::A3ModuleNotFound,
            },
    {
        match self.modules_by_id.get(&id) {
            Some(entry) => Ok(entry.duplicate()),
            None => {
                let mut message = String::from_str("No such module ID: ");
                crate::text::push_dec(&mut message, id as u32);
                Err(AppError::new(ErrorType::A3ModuleNotFound, message))
            },
        }
    }

    /// The entry `m` with each `Some` argument overwriting the cached
    /// field and each `None` leaving it.
    pub open spec fn merged(
        m: A3ModuleView,
        name: Option<Seq<char>>,
        module_type: Option<Seq<char>>,
        module_type_id: Option<u16>,
    ) -> A3ModuleView {
        A3ModuleView {
            uid: m.uid,
            id: m.id,
            name: if name is Some { name } else { m.name },
            module_type: if module_type is Some { module_type } else { m.module_type },
            module_type_id: if module_type_id is Some { module_type_id } else { m.module_type_id },
        }
    }

    /// Overwrites the metadata of the module registered under `id`: each
    /// `Some` field replaces the cached one, each `None` preserves it,
    /// and both index maps stay in step.  A miss changes nothing.
    pub fn set_properties(
        &mut self,
        id: u8,
        name: &Option<String>,
        module_type: &Option<String>,
        module_type_id: &Option<u16>,
    )
        requires
            old(self).wf(),
        ensures
            final(self).wf(),
            old(self).by_id().contains_key(id) ==> {
                let updated = Self::merged(
                    old(self).by_id()[id],
                    opt_str_view(*name),
                    opt_str_view(*module_type),
                    *module_type_id,
                );
                &&& final(self).by_id() == old(self).by_id().insert(id, updated)
                &&& final(self).by_uid() == old(self).by_uid().insert(
                    old(self).by_id()[id].uid,
                    updated,
                )
            },
            !old(self).by_id().contains_key(id) ==> final(self).by_id() == old(self).by_id()
                && final(self).by_uid() == old(self).by_uid(),
    {
        let current = match self.modules_by_id.get(&id) {
            Some(m) => m.duplicate(),
            None => {
                return ;
            },
        };
        let updated = A3Module {
            uid: current.uid,
            id: current.id,
            name: match name {
                Some(s) => Some(s.clone()),
                None => clone_opt_string(&current.name),
            },
            module_type: match module_type {
                Some(s) => Some(s.clone()),
                None => clone_opt_string(&current.module_type),
            },
            module_type_id: match module_type_id {
                Some(v) => Some(*v),
                None => current.module_type_id,
            },
        };
        let uid = updated.uid;
        self.modules_by_id.insert(id, updated.duplicate());
        self.modules_by_uid.insert(uid, updated);
        proof {
            let oid = old(self).by_id();
            let ouid = old(self).by_uid();
            let updated_v = Self::merged(
                oid[id],
                opt_str_view(*name),
                opt_str_view(*module_type),
                *module_type_id,
            );
            let u0 = oid[id].uid;
            assert(self.by_id() =~= oid.insert(id, updated_v));
            assert(self.by_uid() =~= ouid.insert(u0, updated_v));
            let nid = self.by_id();
            let nuid = self.by_uid();
            assert(oid.contains_key(id));
            assert(ouid.contains_key(u0) && ouid[u0] == oid[id]);
            assert forall|i: u8| #[trigger] nid.contains_key(i) implies {
                &&& nid[i].id == i
                &&& i >= 1
                &&& nuid.contains_key(nid[i].uid)
                &&& nuid[nid[i].uid] == nid[i]
            } by {
                if i != id {
                    assert(oid.contains_key(i));
                    if oid[i].uid == u0 {
                        assert(ouid[u0].id == i);
                    }
                }
            }
            assert forall|u: u32| #[trigger] nuid.contains_key(u) implies {
                &&& nuid[u].uid == u
                &&& nid.contains_key(nuid[u].id)
                &&& nid[nuid[u].id] == nuid[u]
            } by {
                if u != u0 {
                    assert(ouid.contains_key(u));
                    if ouid[u].id == id {
                        assert(oid[id].uid == u);
                    }
                }
            }
        }
    }

    /// No logical id is held twice: two different registered UIDs
    /// always carry different ids.  Together with the well-formedness
    /// that every operation preserves, this is the registry's
    /// uniqueness guarantee.
    pub proof fn lemma_ids_unique(self, u1: u32, u2: u32)
        requires
            self.wf(),
            self.by_uid().contains_key(u1),
            self.by_uid().contains_key(u2),
            u1 != u2,
        ensures
            self.by_uid()[u1].id != self.by_uid()[u2].id,
    {
        if self.by_uid()[u1].id == self.by_uid()[u2].id {
            assert(self.by_id()[self.by_uid()[u1].id] == self.by_uid()[u1]);
            assert(self.by_id()[self.by_uid()[u2].id] == self.by_uid()[u2]);
            assert(self.by_uid()[u1].uid == u1 && self.by_uid()[u2].uid == u2);
        }
    }

    /// The smallest id in `[1, 255]` that is not registered, or 0 when
    /// every one is taken.
    fn find_available_id(&self) -> (r: u8)
        ensures
            r != 0 ==> !self.by_id().contains_key(r) && forall|j: u8|
                1 <= j < r ==> self.by_id().contains_key(j),
            r == 0 ==> forall|j: u8| 1 <= j <= 255 ==> self.by_id().contains_key(j),
    {
        let mut id: u16 = 1;
        while id <= 255
            invariant
                1 <= id <= 256,
                forall|j: u8| 1 <= j < id ==> self.by_id().contains_key(j),
            decreases 256 - id,
        {
            let key = id as u8;
            if !self.modules_by_id.contains_key(&key) {
                return key;
            }
            id = id + 1;
        }
        0
    }
}

} // verus!
