use vstd::prelude::*;
use vstd::pervasive::VecAdditionalExecFns;

verus! {

/// An opaque, generation-tagged reference to one slot of a resource table.
///
/// A handle is valid only for the table instance and the slot generation it
/// was issued for; once its entry is deleted the slot's generation moves on
/// and the handle can never name an entry again.
#[derive(Clone, Copy, Debug, PartialEq, Eq, Structural)]
pub struct Handle {
    pub index: usize,
    pub generation: u64,
}

/// Why a resource-table operation failed.
#[derive(Clone, Copy, Debug, PartialEq, Eq, Structural)]
pub enum TableError {
    NotPresent,
    WrongType,
    Full,
    HasChildren,
}

struct Slot<T> {
    generation: u64,
    entry: Option<T>,
    parent: Option<Handle>,
    dependents: u64,
}

/// A typed arena of live resources, addressed by generation-tagged handles.
pub struct Table<T> {
    slots: Vec<Slot<T>>,
    capacity: usize,
}

impl<T> Table<T> {
    /// The most entries the table will ever hold at once.
    pub closed spec fn capacity_spec(self) -> nat {
        self.capacity as nat
    }

    /// Whether `h` names a live entry.
    pub closed spec fn valid(self, h: Handle) -> bool {
        &&& h.index < self.slots.len()
        &&& self.slots[h.index as int].generation == h.generation
        &&& self.slots[h.index as int].entry is Some
    }

    /// The entry `h` names (arbitrary when `h` is not valid).
    pub closed spec fn entry_of(self, h: Handle) -> T {
        self.slots[h.index as int].entry.unwrap()
    }

    /// How many live entries name `h` as their parent holder.
    pub closed spec fn dependents_of(self, h: Handle) -> u64 {
        self.slots[h.index as int].dependents
    }

    /// The parent this entry was inserted under, if any.
    pub closed spec fn parent_of(self, h: Handle) -> Option<Handle> {
        self.slots[h.index as int].parent
    }

    /// Whether `h` named an entry once and can never name one again: its
    /// slot's generation has moved past the handle's.
    pub closed spec fn retired(self, h: Handle) -> bool {
        h.index < self.slots.len() && self.slots[h.index as int].generation > h.generation
    }

    /// The table's abstract state: the map from valid handles to entries.
    pub open spec fn contents(self) -> Map<Handle, T> {
        Map::new(|h: Handle| self.valid(h), |h: Handle| self.entry_of(h))
    }

    /// Internal well-formedness: the slot list never exceeds the capacity,
    /// and a live slot's generation always has room to move on.
    pub closed spec fn wf(self) -> bool {
        &&& self.slots.len() <= self.capacity
        &&& forall|i: int|
            0 <= i < self.slots.len() ==> ((#[trigger] self.slots[i].entry) is Some
                ==> self.slots[i].generation < u64::MAX)
    }

    /// At capacity: no slot can take another entry.
    pub closed spec fn is_full(self) -> bool {
        &&& self.slots.len() == self.capacity
        &&& forall|i: int|
            0 <= i < self.slots.len() ==> !((#[trigger] self.slots[i].entry) is None
                && self.slots[i].generation < u64::MAX)
    }

    /// A valid handle is never simultaneously retired.
    pub proof fn lemma_valid_not_retired(self, h: Handle)
        ensures
            self.valid(h) ==> !self.retired(h),
    {
    }

    /// An empty table with the given capacity.
    pub fn new(capacity: usize) -> (t: Table<T>)
        ensures
            t.wf(),
            t.capacity_spec() == capacity,
            forall|h: Handle| !t.valid(h) && !t.retired(h),
            t.contents() =~= Map::<Handle, T>::empty(),
    {
        Table { slots: Vec::new(), capacity }
    }

    /// Stores an entry and issues a fresh handle for it; fails with `Full`
    /// exactly when the table is at capacity. The new handle was neither
    /// valid nor retired before, every other handle keeps its standing, and
    /// the abstract contents gain exactly the one binding.
    pub fn insert(&mut self, entry: T) -> (r: Result<Handle, TableError>)
        requires
            old(self).wf(),
        ensures
            final(self).wf(),
            final(self).capacity_spec() == old(self).capacity_spec(),
            forall|h2: Handle| final(self).retired(h2) == old(self).retired(h2),
            match r {
                Result::Ok(h) => {
                    &&& !old(self).valid(h)
                    &&& !old(self).retired(h)
                    &&& !old(self).is_full()
                    &&& final(self).valid(h)
                    &&& final(self).entry_of(h) == entry
                    &&& final(self).dependents_of(h) == 0
                    &&& final(self).parent_of(h) is None
                    &&& forall|h2: Handle|
                        h2 != h ==> (#[trigger] final(self).valid(h2)) == old(self).valid(h2)
                    &&& forall|h2: Handle|
                        h2 != h && old(self).valid(h2) ==> #[trigger] final(self).entry_of(h2)
                            == old(self).entry_of(h2) && final(self).dependents_of(h2)
                            == old(self).dependents_of(h2) && final(self).parent_of(h2)
                            == old(self).parent_of(h2)
                    &&& final(self).contents() == old(self).contents().insert(h, entry)
                },
                Result::Err(te) => {
                    &&& te == TableError::Full
                    &&& old(self).is_full()
                    &&& final(self).contents() == old(self).contents()
                    &&& forall|h2: Handle|
                        (#[trigger] final(self).valid(h2)) == old(self).valid(h2)
                    &&& forall|h2: Handle|
                        old(self).valid(h2) ==> #[trigger] final(self).entry_of(h2) == old(
                            self,
                        ).entry_of(h2) && final(self).dependents_of(h2) == old(
                            self,
                        ).dependents_of(h2) && final(self).parent_of(h2) == old(self).parent_of(h2)
                },
            },
    {
        self.insert_with_parent(entry, None)
    }

    /// Stores an entry under a parent handle, so that deleting the parent is
    /// refused while this entry lives. Fails with `NotPresent` when the
    /// parent is not valid, and with `Full` when the table is at capacity.
    pub fn insert_child(&mut self, parent: Handle, entry: T) -> (r: Result<Handle, TableError>)
        requires
            old(self).wf(),
        ensures
            final(self).wf(),
            final(self).capacity_spec() == old(self).capacity_spec(),
            forall|h2: Handle| final(self).retired(h2) == old(self).retired(h2),
            match r {
                Result::Ok(h) => {
                    &&& old(self).valid(parent)
                    &&& h != parent
                    &&& !old(self).valid(h)
                    &&& !old(self).retired(h)
                    &&& final(self).valid(h)
                    &&& final(self).entry_of(h) == entry
                    &&& final(self).dependents_of(h) == 0
                    &&& final(self).parent_of(h) == Some(parent)
                    &&& final(self).dependents_of(parent) == old(self).dependents_of(parent) + 1
                    &&& forall|h2: Handle|
                        h2 != h ==> (#[trigger] final(self).valid(h2)) == old(self).valid(h2)
                    &&& forall|h2: Handle|
                        h2 != h && old(self).valid(h2) ==> #[trigger] final(self).entry_of(h2)
                            == old(self).entry_of(h2) && final(self).parent_of(h2) == old(
                            self,
                        ).parent_of(h2)
                    &&& forall|h2: Handle|
                        h2 != h && h2.index != parent.index && old(self).valid(h2)
                            ==> #[trigger] final(self).dependents_of(h2) == old(
                            self,
                        ).dependents_of(h2)
                    &&& final(self).contents() == old(self).contents().insert(h, entry)
                },
                Result::Err(te) => {
                    &&& (te == TableError::NotPresent || te == TableError::Full)
                    &&& (te == TableError::NotPresent <==> !old(self).valid(parent))
                    &&& final(self).contents() == old(self).contents()
                    &&& forall|h2: Handle|
                        (#[trigger] final(self).valid(h2)) == old(self).valid(h2)
                    &&& forall|h2: Handle|
                        old(self).valid(h2) ==> #[trigger] final(self).entry_of(h2) == old(
                            self,
                        ).entry_of(h2) && final(self).dependents_of(h2) == old(
                            self,
                        ).dependents_of(h2) && final(self).parent_of(h2) == old(self).parent_of(h2)
                },
            },
    {
        if !self.check_valid(parent) {
            return Result::Err(TableError::NotPresent);
        }
        let deps = self.slots[parent.index].dependents;
        if deps == u64::MAX {
            return Result::Err(TableError::Full);
        }
        let r = self.insert_with_parent(entry, Some(parent));
        match r {
            Result::Ok(h) => {
                let ghost mid = *self;
                proof {
                    assert(parent != h);
                    assert(parent.index != h.index);
                    assert(self.valid(parent));
                    assert(self.entry_of(parent) == old(self).entry_of(parent));
                    assert(self.dependents_of(parent) == deps);
                }
                self.bump_dependents(parent, deps);
                proof {
                    assert(self.valid(h));
                    assert(self.entry_of(h) == entry);
                    assert(self.dependents_of(h) == 0);
                    assert(self.parent_of(h) == Some(parent));
                    assert forall|h2: Handle| h2 != h implies ((#[trigger] self.valid(h2))
                        == old(self).valid(h2)) by {
                        assert(self.valid(h2) == mid.valid(h2));
                    }
                    assert forall|h2: Handle| h2 != h && old(self).valid(h2)
                        implies (#[trigger] self.entry_of(h2)) == old(self).entry_of(h2)
                        && self.parent_of(h2) == old(self).parent_of(h2) by {
                        assert(mid.valid(h2));
                        assert(mid.entry_of(h2) == old(self).entry_of(h2));
                        assert(self.entry_of(h2) == mid.entry_of(h2));
                    }
                    assert forall|h2: Handle|
                        h2 != h && h2.index != parent.index && old(self).valid(h2)
                        implies (#[trigger] self.dependents_of(h2)) == old(self).dependents_of(
                        h2,
                    ) by {
                        assert(mid.valid(h2));
                        assert(mid.entry_of(h2) == old(self).entry_of(h2));
                        assert(mid.dependents_of(h2) == old(self).dependents_of(h2));
                        assert(self.dependents_of(h2) == mid.dependents_of(h2));
                    }
                    assert forall|h2: Handle| self.retired(h2) == old(self).retired(h2) by {
                        assert(self.retired(h2) == mid.retired(h2));
                    }
                    assert(self.contents() == old(self).contents().insert(h, entry));
                }
                Result::Ok(h)
            },
            Result::Err(te) => Result::Err(te),
        }
    }

    /// Records one more live dependent on `parent`.
    fn bump_dependents(&mut self, parent: Handle, deps: u64)
        requires
            old(self).wf(),
            old(self).valid(parent),
            old(self).dependents_of(parent) == deps,
            deps < u64::MAX,
        ensures
            final(self).wf(),
            final(self).capacity_spec() == old(self).capacity_spec(),
            final(self).dependents_of(parent) == deps + 1,
            forall|h2: Handle| final(self).retired(h2) == old(self).retired(h2),
            forall|h2: Handle| (#[trigger] final(self).valid(h2)) == old(self).valid(h2),
            forall|h2: Handle|
                old(self).valid(h2) ==> (#[trigger] final(self).entry_of(h2)) == old(self).entry_of(h2)
                    && final(self).parent_of(h2) == old(self).parent_of(h2),
            forall|h2: Handle|
                h2.index != parent.index && old(self).valid(h2)
                    ==> (#[trigger] final(self).dependents_of(h2)) == old(self).dependents_of(h2),
            final(self).contents() == old(self).contents(),
    {
        let mut tmp = Slot { generation: 0, entry: None, parent: None, dependents: 0 };
        self.slots.set_and_swap(parent.index, &mut tmp);
        let upd = Slot {
            generation: tmp.generation,
            entry: tmp.entry,
            parent: tmp.parent,
            dependents: deps + 1,
        };
        self.slots.set(parent.index, upd);
        proof {
            let s0 = *old(self);
            assert(self.slots@ =~= s0.slots@.update(parent.index as int, upd));
            assert(upd.generation == s0.slots[parent.index as int].generation);
            assert(upd.entry == s0.slots[parent.index as int].entry);
            assert forall|h2: Handle| (self.valid(h2) == s0.valid(h2)) by {}
            assert forall|h2: Handle| s0.valid(h2) implies self.entry_of(h2) == s0.entry_of(h2)
                && self.parent_of(h2) == s0.parent_of(h2) by {}
            assert forall|h2: Handle|
                h2.index != parent.index && s0.valid(h2) implies self.dependents_of(h2)
                == s0.dependents_of(h2) by {}
            assert forall|h2: Handle| self.retired(h2) == s0.retired(h2) by {}
            assert forall|k: int|
                0 <= k < self.slots.len() implies ((#[trigger] self.slots[k].entry) is Some
                ==> self.slots[k].generation < u64::MAX) by {
                if k != parent.index as int {
                    assert(s0.slots[k].entry is Some ==> s0.slots[k].generation < u64::MAX);
                }
            }
            assert(self.wf());
            assert(self.contents() =~= s0.contents());
        }
    }

    /// Whether the handle currently names a live entry.
    pub fn check_valid(&self, h: Handle) -> (r: bool)
        ensures
            r == self.valid(h),
    {
        h.index < self.slots.len() && self.slots[h.index].generation == h.generation
            && self.slots[h.index].entry.is_some()
    }

    /// Borrows the entry a handle names; an unknown, stale or deleted handle
    /// is refused as `NotPresent`.
    pub fn get(&self, h: Handle) -> (r: Result<&T, TableError>)
        ensures
            match r {
                Result::Ok(e) => self.valid(h) && *e == self.entry_of(h),
                Result::Err(te) => !self.valid(h) && te == TableError::NotPresent,
            },
    {
        if h.index < self.slots.len() && self.slots[h.index].generation == h.generation {
            match &self.slots[h.index].entry {
                Some(e) => Result::Ok(e),
                None => Result::Err(TableError::NotPresent),
            }
        } else {
            Result::Err(TableError::NotPresent)
        }
    }

    /// Replaces the entry a valid handle names, leaving its handle, parent
    /// and dependents as they were.
    pub fn set(&mut self, h: Handle, entry: T) -> (r: Result<(), TableError>)
        requires
            old(self).wf(),
        ensures
            final(self).wf(),
            final(self).capacity_spec() == old(self).capacity_spec(),
            forall|h2: Handle| final(self).retired(h2) == old(self).retired(h2),
            forall|h2: Handle| (#[trigger] final(self).valid(h2)) == old(self).valid(h2),
            match r {
                Result::Ok(()) => {
                    &&& old(self).valid(h)
                    &&& final(self).entry_of(h) == entry
                    &&& final(self).dependents_of(h) == old(self).dependents_of(h)
                    &&& final(self).parent_of(h) == old(self).parent_of(h)
                    &&& forall|h2: Handle|
                        h2 != h && old(self).valid(h2) ==> #[trigger] final(self).entry_of(h2)
                            == old(self).entry_of(h2) && final(self).dependents_of(h2)
                            == old(self).dependents_of(h2) && final(self).parent_of(h2)
                            == old(self).parent_of(h2)
                    &&& final(self).contents() == old(self).contents().insert(h, entry)
                },
                Result::Err(te) => {
                    &&& te == TableError::NotPresent
                    &&& !old(self).valid(h)
                    &&& final(self).contents() == old(self).contents()
                    &&& forall|h2: Handle|
                        old(self).valid(h2) ==> #[trigger] final(self).entry_of(h2) == old(
                            self,
                        ).entry_of(h2) && final(self).dependents_of(h2) == old(
                            self,
                        ).dependents_of(h2) && final(self).parent_of(h2) == old(self).parent_of(h2)
                },
            },
    {
        if !self.check_valid(h) {
            return Result::Err(TableError::NotPresent);
        }
        let generation = self.slots[h.index].generation;
        let parent = self.slots[h.index].parent;
        let dependents = self.slots[h.index].dependents;
        let upd = Slot { generation, entry: Some(entry), parent, dependents };
        self.slots.set(h.index, upd);
        proof {
            let s0 = *old(self);
            assert(self.slots@ == s0.slots@.update(h.index as int, upd));
            assert forall|h2: Handle| (self.valid(h2) == s0.valid(h2)) by {
                if h2.index == h.index {
                    assert(self.slots[h2.index as int].generation == s0.slots[
                        h2.index as int
                    ].generation);
                }
            }
            assert forall|h2: Handle| self.retired(h2) == s0.retired(h2) by {}
            assert forall|h2: Handle| h2 != h && s0.valid(h2) implies self.entry_of(h2)
                == s0.entry_of(h2) && self.dependents_of(h2) == s0.dependents_of(h2)
                && self.parent_of(h2) == s0.parent_of(h2) by {
                if h2.index == h.index {
                    assert(h2.generation == generation);
                    assert(h2 == h);
                }
            }
            assert forall|k: int|
                0 <= k < self.slots.len() implies ((#[trigger] self.slots[k].entry) is Some
                ==> self.slots[k].generation < u64::MAX) by {
                if k != h.index as int {
                    assert(s0.slots[k].entry is Some ==> s0.slots[k].generation < u64::MAX);
                }
            }
            assert(self.wf());
            assert(self.contents() =~= s0.contents().insert(h, entry));
        }
        Result::Ok(())
    }

    /// Removes the entry a valid handle names and hands it back, retiring
    /// the handle permanently. Refused with `HasChildren` while dependents
    /// live, and with `NotPresent` for a handle that is not valid.
    pub fn delete(&mut self, h: Handle) -> (r: Result<T, TableError>)
        requires
            old(self).wf(),
        ensures
            final(self).wf(),
            final(self).capacity_spec() == old(self).capacity_spec(),
            forall|h2: Handle| old(self).retired(h2) ==> final(self).retired(h2),
            forall|h2: Handle| (#[trigger] final(self).valid(h2)) ==> old(self).valid(h2),
            match r {
                Result::Ok(entry) => {
                    &&& old(self).valid(h)
                    &&& old(self).dependents_of(h) == 0
                    &&& entry == old(self).entry_of(h)
                    &&& !final(self).valid(h)
                    &&& final(self).retired(h)
                    &&& forall|h2: Handle|
                        h2 != h ==> (#[trigger] final(self).valid(h2)) == old(self).valid(h2)
                    &&& forall|h2: Handle|
                        h2 != h && old(self).valid(h2) ==> #[trigger] final(self).entry_of(h2)
                            == old(self).entry_of(h2) && final(self).parent_of(h2) == old(
                            self,
                        ).parent_of(h2)
                    &&& old(self).parent_of(h) is None ==> forall|h2: Handle|
                        h2 != h && old(self).valid(h2) ==> #[trigger] final(self).dependents_of(
                            h2,
                        ) == old(self).dependents_of(h2)
                    &&& final(self).contents() == old(self).contents().remove(h)
                },
                Result::Err(te) => {
                    &&& (te == TableError::NotPresent || te == TableError::HasChildren)
                    &&& (te == TableError::NotPresent <==> !old(self).valid(h))
                    &&& (te == TableError::HasChildren ==> old(self).valid(h) && old(
                        self,
                    ).dependents_of(h) > 0)
                    &&& final(self).contents() == old(self).contents()
                    &&& forall|h2: Handle|
                        (#[trigger] final(self).valid(h2)) == old(self).valid(h2)
                    &&& forall|h2: Handle|
                        old(self).valid(h2) ==> #[trigger] final(self).entry_of(h2) == old(
                            self,
                        ).entry_of(h2) && final(self).dependents_of(h2) == old(
                            self,
                        ).dependents_of(h2) && final(self).parent_of(h2) == old(self).parent_of(h2)
                },
            },
    {
        if !self.check_valid(h) {
            return Result::Err(TableError::NotPresent);
        }
        if self.slots[h.index].dependents > 0 {
            return Result::Err(TableError::HasChildren);
        }
        proof {
            assert(self.slots[h.index as int].entry is Some);
            assert(self.slots[h.index as int].generation < u64::MAX);
        }
        let generation = self.slots[h.index].generation;
        let parent = self.slots[h.index].parent;
        let mut taken = Slot {
            generation: generation + 1,
            entry: None,
            parent: None,
            dependents: 0,
        };
        self.slots.set_and_swap(h.index, &mut taken);
        let ghost s1 = *self;
        proof {
            let s0 = *old(self);
            assert(s1.slots@ == s0.slots@.update(
                h.index as int,
                Slot {
                    generation: (generation + 1) as u64,
                    entry: None,
                    parent: None,
                    dependents: 0,
                },
            ));
            assert(taken.entry == s0.slots[h.index as int].entry);
            assert(!s1.valid(h));
            assert(s1.retired(h));
            assert forall|h2: Handle| s0.retired(h2) implies s1.retired(h2) by {}
            assert forall|h2: Handle| h2 != h implies (s1.valid(h2) == s0.valid(h2)) by {
                if h2.index == h.index {
                    assert(!s1.valid(h2));
                    if s0.valid(h2) {
                        assert(h2.generation == generation);
                        assert(h2 == h);
                    }
                }
            }
            assert forall|h2: Handle| h2 != h && s0.valid(h2) implies s1.entry_of(h2)
                == s0.entry_of(h2) && s1.parent_of(h2) == s0.parent_of(h2)
                && s1.dependents_of(h2) == s0.dependents_of(h2) by {
                assert(h2.index != h.index);
            }
            assert forall|k: int|
                0 <= k < s1.slots.len() implies ((#[trigger] s1.slots[k].entry) is Some
                ==> s1.slots[k].generation < u64::MAX) by {
                if k != h.index as int {
                    assert(s0.slots[k].entry is Some ==> s0.slots[k].generation < u64::MAX);
                }
            }
            assert(s1.wf());
            assert(s1.contents() =~= s0.contents().remove(h));
        }
        if let Some(p) = parent {
            if p.index < self.slots.len() && p.index != h.index {
                let mut tmp = Slot { generation: 0, entry: None, parent: None, dependents: 0 };
                self.slots.set_and_swap(p.index, &mut tmp);
                let pdeps = tmp.dependents;
                let upd = Slot {
                    generation: tmp.generation,
                    entry: tmp.entry,
                    parent: tmp.parent,
                    dependents: if pdeps > 0 { pdeps - 1 } else { 0 },
                };
                self.slots.set(p.index, upd);
                proof {
                    assert(self.slots@ =~= s1.slots@.update(p.index as int, upd));
                    assert(upd.generation == s1.slots[p.index as int].generation);
                    assert(upd.entry == s1.slots[p.index as int].entry);
                    assert forall|h2: Handle| (self.valid(h2) == s1.valid(h2)) by {}
                    assert forall|h2: Handle| s1.valid(h2) implies self.entry_of(h2)
                        == s1.entry_of(h2) && self.parent_of(h2) == s1.parent_of(h2) by {}
                    assert forall|h2: Handle| self.retired(h2) == s1.retired(h2) by {}
                    assert forall|k: int|
                        0 <= k < self.slots.len() implies ((#[trigger] self.slots[k].entry)
                        is Some ==> self.slots[k].generation < u64::MAX) by {
                        if k != p.index as int {
                            assert(s1.slots[k].entry is Some ==> s1.slots[k].generation
                                < u64::MAX);
                        }
                    }
                    assert(self.wf());
                    assert(self.contents() =~= s1.contents());
                }
            }
        }
        proof {
            assert(self.contents() =~= old(self).contents().remove(h));
        }
        match taken.entry {
            Some(entry) => Result::Ok(entry),
            None => Result::Err(TableError::NotPresent),
        }
    }

    /// The shared insertion path: reuse a spent slot or grow, up to capacity.
    fn insert_with_parent(&mut self, entry: T, parent: Option<Handle>) -> (r: Result<
        Handle,
        TableError,
    >)
        requires
            old(self).wf(),
        ensures
            final(self).wf(),
            final(self).capacity_spec() == old(self).capacity_spec(),
            forall|h2: Handle| final(self).retired(h2) == old(self).retired(h2),
            match r {
                Result::Ok(h) => {
                    &&& !old(self).valid(h)
                    &&& !old(self).retired(h)
                    &&& !old(self).is_full()
                    &&& final(self).valid(h)
                    &&& final(self).entry_of(h) == entry
                    &&& final(self).dependents_of(h) == 0
                    &&& final(self).parent_of(h) == parent
                    &&& forall|h2: Handle|
                        h2 != h ==> (#[trigger] final(self).valid(h2)) == old(self).valid(h2)
                    &&& forall|h2: Handle|
                        h2 != h && old(self).valid(h2) ==> #[trigger] final(self).entry_of(h2)
                            == old(self).entry_of(h2) && final(self).dependents_of(h2)
                            == old(self).dependents_of(h2) && final(self).parent_of(h2)
                            == old(self).parent_of(h2)
                    &&& forall|h2: Handle|
                        h2 != h && old(self).valid(h2) ==> h2.index != h.index
                    &&& final(self).contents() == old(self).contents().insert(h, entry)
                },
                Result::Err(te) => {
                    &&& te == TableError::Full
                    &&& old(self).is_full()
                    &&& final(self).contents() == old(self).contents()
                    &&& forall|h2: Handle|
                        (#[trigger] final(self).valid(h2)) == old(self).valid(h2)
                    &&& forall|h2: Handle|
                        old(self).valid(h2) ==> #[trigger] final(self).entry_of(h2) == old(
                            self,
                        ).entry_of(h2) && final(self).dependents_of(h2) == old(
                            self,
                        ).dependents_of(h2) && final(self).parent_of(h2) == old(self).parent_of(h2)
                },
            },
    {
        let n = self.slots.len();
        let mut i: usize = 0;
        while i < n
            invariant
                0 <= i <= n,
                n == self.slots.len(),
                self == old(self),
                self.wf(),
                forall|k: int|
                    0 <= k < i ==> !((#[trigger] self.slots@[k].entry) is None
                        && self.slots@[k].generation < u64::MAX),
            decreases n - i,
        {
            let reusable = self.slots[i].entry.is_none() && self.slots[i].generation < u64::MAX;
            if reusable {
                let generation = self.slots[i].generation;
                let h = Handle { index: i, generation };
                self.slots.set(i, Slot { generation, entry: Some(entry), parent, dependents: 0 });
                proof {
                    let s0 = *old(self);
                    assert(self.slots@ == s0.slots@.update(
                        i as int,
                        Slot { generation, entry: Some(entry), parent, dependents: 0 },
                    ));
                    assert forall|h2: Handle| h2 != h implies (self.valid(h2) == s0.valid(
                        h2,
                    )) by {
                        if h2.index == i {
                            assert(!s0.valid(h2));
                            assert(h2.generation != generation);
                        }
                    }
                    assert forall|h2: Handle| self.retired(h2) == s0.retired(h2) by {}
                    assert forall|h2: Handle| h2 != h && s0.valid(h2) implies self.entry_of(h2)
                        == s0.entry_of(h2) && self.dependents_of(h2) == s0.dependents_of(h2)
                        && self.parent_of(h2) == s0.parent_of(h2) && h2.index != h.index by {
                        assert(h2.index != i);
                    }
                    assert forall|k: int|
                        0 <= k < self.slots.len() implies ((#[trigger] self.slots[k].entry)
                        is Some ==> self.slots[k].generation < u64::MAX) by {
                        if k != i as int {
                            assert(s0.slots[k].entry is Some ==> s0.slots[k].generation
                                < u64::MAX);
                        }
                    }
                    assert(self.wf());
                    assert(self.contents() =~= s0.contents().insert(h, entry));
                }
                return Result::Ok(h);
            }
            i = i + 1;
        }
        if n < self.capacity {
            let h = Handle { index: n, generation: 0 };
            self.slots.push(Slot { generation: 0, entry: Some(entry), parent, dependents: 0 });
            proof {
                let s0 = *old(self);
                assert(self.slots@ == s0.slots@.push(
                    Slot { generation: 0, entry: Some(entry), parent, dependents: 0 },
                ));
                assert(!s0.valid(h));
                assert(!s0.retired(h));
                assert forall|h2: Handle| h2 != h implies (self.valid(h2) == s0.valid(h2)) by {
                    if h2.index == n {
                        assert(!s0.valid(h2));
                        assert(h2.generation != 0);
                    }
                }
                assert forall|h2: Handle| self.retired(h2) == s0.retired(h2) by {
                    if h2.index == n {
                        assert(!s0.retired(h2));
                        assert(self.slots[n as int].generation == 0);
                    }
                }
                assert forall|h2: Handle| h2 != h && s0.valid(h2) implies self.entry_of(h2)
                    == s0.entry_of(h2) && self.dependents_of(h2) == s0.dependents_of(h2)
                    && self.parent_of(h2) == s0.parent_of(h2) && h2.index != h.index by {
                    assert(h2.index < n);
                }
                assert forall|k: int|
                    0 <= k < self.slots.len() implies ((#[trigger] self.slots[k].entry) is Some
                    ==> self.slots[k].generation < u64::MAX) by {
                    if k != n as int {
                        assert(s0.slots[k].entry is Some ==> s0.slots[k].generation < u64::MAX);
                    }
                }
                assert(self.wf());
                assert(self.contents() =~= s0.contents().insert(h, entry));
            }
            Result::Ok(h)
        } else {
            Result::Err(TableError::Full)
        }
    }
}

/// Law: inserting a fresh binding and then removing it hands back exactly
/// the bound entry and restores the abstract contents, so the entry comes
/// out exactly once.
pub proof fn lemma_insert_delete_round_trip<T>(m: Map<Handle, T>, h: Handle, e: T)
    requires
        !m.contains_key(h),
    ensures
        m.insert(h, e)[h] == e,
        m.insert(h, e).remove(h) =~= m,
{
}

} // verus!
