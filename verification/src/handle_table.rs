//! A table of owned values addressed by opaque, generation-checked handles.
//!
//! A handle is a plain `u64` that a foreign caller can hold and pass back.
//! Its low half names a slot (offset by one, so that no handle is zero) and
//! its high half names the epoch of that slot at the time of issue. Removing
//! a value advances the slot's epoch, so a handle that has been removed never
//! matches again, however the slot is reused.

use vstd::prelude::*;

verus! {

/// The sentinel handle. It never names a value.
pub const NULL_HANDLE: u64 = 0;

/// The most slots a table can hold.
pub const MAX_SLOTS: u64 = 0xFFFF_FFFF;

/// Two to the thirty-second: what one half of a handle can count up to.
const HALF: u64 = 0x1_0000_0000;

/// The slot that `handle` names, or `-1` where its low half is zero.
spec fn handle_slot(handle: u64) -> int {
    (handle % HALF) as int - 1
}

/// The epoch that `handle` was issued in.
spec fn handle_epoch(handle: u64) -> int {
    (handle / HALF) as int
}

struct Slot<T> {
    /// How often a value has been removed from this slot.
    epoch: u64,
    value: Option<T>,
}

/// The slots and the list of those that may be filled again.
struct Arena<T> {
    slots: Vec<Slot<T>>,
    /// Empty slots that may be filled again, each listed once.
    free: Vec<usize>,
}

impl<T> Arena<T> {
    spec fn wf(&self) -> bool {
        &&& self.slots.len() <= MAX_SLOTS
        &&& forall|i: int|
            0 <= i < self.slots.len() ==> {
                &&& (#[trigger] self.slots[i]).epoch <= HALF
                &&& self.slots[i].value is Some ==> self.slots[i].epoch < HALF
            }
        &&& forall|k: int|
            0 <= k < self.free.len() ==> {
                &&& (#[trigger] self.free[k]) < self.slots.len()
                &&& self.slots[self.free[k] as int].value is None
                &&& self.slots[self.free[k] as int].epoch < HALF
            }
        &&& forall|j: int, k: int|
            0 <= j < k < self.free.len() ==> #[trigger] self.free[j] != #[trigger] self.free[k]
    }

    /// Whether `handle` names a value held now.
    spec fn is_live(&self, handle: u64) -> bool {
        let i = handle_slot(handle);
        &&& 0 <= i < self.slots.len()
        &&& self.slots[i].value is Some
        &&& self.slots[i].epoch == handle_epoch(handle)
    }

    /// The values held now, by handle.
    spec fn view(&self) -> Map<u64, T> {
        Map::new(
            |h: u64| self.is_live(h),
            |h: u64| self.slots[handle_slot(h)].value->Some_0,
        )
    }

    /// Whether `handle` was issued by this table and has been removed since.
    spec fn is_spent(&self, handle: u64) -> bool {
        let i = handle_slot(handle);
        &&& 0 <= i < self.slots.len()
        &&& handle_epoch(handle) < self.slots[i].epoch
    }

    /// How many slots the table has made so far. It never shrinks.
    spec fn slot_count(&self) -> nat {
        self.slots.len() as nat
    }

    /// Whether the next `insert` will succeed.
    spec fn has_room(&self) -> bool {
        self.free.len() > 0 || self.slots.len() < MAX_SLOTS
    }

    /// An empty table.
    fn new() -> (table: Self)
        ensures
            table.wf(),
            table@ == Map::<u64, T>::empty(),
            table.slot_count() == 0,
            table.has_room(),
            forall|h: u64| !table.is_spent(h),
    {
        let table = Arena { slots: Vec::new(), free: Vec::new() };
        assert(table@ =~= Map::<u64, T>::empty());
        table
    }

    /// The value that `handle` names, if it names one.
    fn get(&self, handle: u64) -> (found: Option<&T>)
        requires
            self.wf(),
        ensures
            match found {
                Some(value) => self@.contains_key(handle) && *value == self@[handle],
                None => !self@.contains_key(handle),
            },
    {
        let low: u64 = handle % HALF;
        if low == 0 {
            return None;
        }
        if low - 1 >= self.slots.len() as u64 {
            return None;
        }
        let index: usize = (low - 1) as usize;
        let slot = &self.slots[index];
        if slot.epoch != handle / HALF {
            return None;
        }
        slot.value.as_ref()
    }

    /// Takes ownership of `value` and issues a handle for it, or hands the
    /// value back where the table has no room.
    fn insert(&mut self, value: T) -> (issued: Result<u64, T>)
        requires
            old(self).wf(),
        ensures
            final(self).wf(),
            match issued {
                Ok(handle) => {
                    &&& old(self).has_room()
                    &&& handle != NULL_HANDLE
                    &&& !old(self)@.contains_key(handle)
                    &&& !old(self).is_spent(handle)
                    &&& final(self)@ == old(self)@.insert(handle, value)
                },
                Err(back) => {
                    &&& !old(self).has_room()
                    &&& back == value
                    &&& *final(self) == *old(self)
                },
            },
            forall|h: u64| final(self).is_spent(h) == old(self).is_spent(h),
            old(self).slot_count() <= final(self).slot_count() <= old(self).slot_count() + 1,
    {
        if self.free.len() > 0 {
            let index: usize = self.free.pop().unwrap();
            let slot = &mut self.slots[index];
            let handle: u64 = slot.epoch * HALF + (index as u64 + 1);
            slot.value = Some(value);
            proof {
                assert(handle_slot(handle) == index);
                assert(self@ =~= old(self)@.insert(handle, value));
            }
            Ok(handle)
        } else if (self.slots.len() as u64) < MAX_SLOTS {
            let index: usize = self.slots.len();
            self.slots.push(Slot { epoch: 0, value: Some(value) });
            let handle: u64 = index as u64 + 1;
            proof {
                assert(handle_slot(handle) == index);
                assert(self@ =~= old(self)@.insert(handle, value));
            }
            Ok(handle)
        } else {
            Err(value)
        }
    }

    /// Gives up the value that `handle` names and hands it to the caller.
    /// From then on the handle is spent: it names nothing, now and after any
    /// later call. A handle that names nothing, the sentinel included, leaves
    /// the table as it was.
    fn remove(&mut self, handle: u64) -> (removed: Option<T>)
        requires
            old(self).wf(),
        ensures
            final(self).wf(),
            match removed {
                Some(value) => old(self)@.contains_key(handle) && value == old(self)@[handle],
                None => !old(self)@.contains_key(handle) && *final(self) == *old(self),
            },
            final(self)@ == old(self)@.remove(handle),
            forall|h: u64|
                final(self).is_spent(h) == (old(self).is_spent(h) || (h == handle && old(
                    self,
                )@.contains_key(handle))),
            final(self).slot_count() == old(self).slot_count(),
            old(self).has_room() ==> final(self).has_room(),
    {
        let low: u64 = handle % HALF;
        if low == 0 || low - 1 >= self.slots.len() as u64 {
            assert(self@ =~= old(self)@.remove(handle));
            return None;
        }
        let index: usize = (low - 1) as usize;
        if self.slots[index].epoch != handle / HALF || self.slots[index].value.is_none() {
            assert(self@ =~= old(self)@.remove(handle));
            return None;
        }
        let slot = &mut self.slots[index];
        let removed = slot.value.take();
        slot.epoch = slot.epoch + 1;
        let reusable: bool = slot.epoch < HALF;
        if reusable {
            self.free.push(index);
        }
        proof {
            assert forall|h: u64|
                self.is_spent(h) == (old(self).is_spent(h) || h == handle) by {
                if handle_slot(h) == index as int && handle_epoch(h) == handle_epoch(handle) {
                    assert(h == handle);
                }
            }
            assert(self@ =~= old(self)@.remove(handle));
        }
        removed
    }
}

/// Owned values of type `T`, each under a handle of its own.
pub struct HandleTable<T> {
    arena: Arena<T>,
}

impl<T> HandleTable<T> {
    #[verifier::type_invariant]
    spec fn wf(&self) -> bool {
        self.arena.wf()
    }

    /// The values held now, by handle.
    pub closed spec fn view(&self) -> Map<u64, T> {
        self.arena@
    }

    /// Whether `handle` was issued by this table and has been removed since.
    pub closed spec fn is_spent(&self, handle: u64) -> bool {
        self.arena.is_spent(handle)
    }

    /// How many slots the table has made so far.
    pub closed spec fn slot_count(&self) -> nat {
        self.arena.slot_count()
    }

    /// Whether the next `insert` will succeed.
    pub closed spec fn has_room(&self) -> bool {
        self.arena.has_room()
    }

    /// The sentinel names nothing and is never spent, whatever the table holds.
    pub proof fn lemma_sentinel_names_nothing(&self)
        ensures
            !self@.contains_key(NULL_HANDLE),
            !self.is_spent(NULL_HANDLE),
    {
    }

    /// A spent handle names nothing. With what `insert` and `remove` promise
    /// of spent handles, a handle that was removed once is rejected for good.
    pub proof fn lemma_spent_names_nothing(&self, handle: u64)
        requires
            self.is_spent(handle),
        ensures
            !self@.contains_key(handle),
    {
    }

    /// Handles are independent: issuing or destroying one handle leaves every
    /// other handle naming what it named before, or nothing if it named
    /// nothing.
    pub proof fn lemma_other_handles_keep(before: &Self, after: &Self, handle: u64, other: u64)
        requires
            other != handle,
            after@ == before@.remove(handle) || (after@.contains_key(handle) && after@
                == before@.insert(handle, after@[handle])),
        ensures
            after@.contains_key(other) == before@.contains_key(other),
            before@.contains_key(other) ==> after@[other] == before@[other],
    {
    }

    /// A table that has made fewer than `MAX_SLOTS` slots has room.
    pub proof fn lemma_room_while_slots_remain(&self)
        requires
            self.slot_count() < MAX_SLOTS,
        ensures
            self.has_room(),
    {
    }

    /// An empty table.
    pub fn new() -> (table: Self)
        ensures
            table@ == Map::<u64, T>::empty(),
            table.slot_count() == 0,
            forall|h: u64| !table.is_spent(h),
    {
        HandleTable { arena: Arena::new() }
    }

    /// The value that `handle` names, if it names one. The sentinel and spent
    /// handles name none.
    pub fn get(&self, handle: u64) -> (found: Option<&T>)
        ensures
            match found {
                Some(value) => self@.contains_key(handle) && *value == self@[handle],
                None => !self@.contains_key(handle),
            },
            handle == NULL_HANDLE || self.is_spent(handle) ==> found is None,
    {
        proof {
            use_type_invariant(self);
        }
        self.arena.get(handle)
    }

    /// Takes ownership of `value` and issues a handle for it, or hands the
    /// value back where the table has no room. A handle that is issued is
    /// not the sentinel, names nothing before the call and was never spent.
    pub fn insert(&mut self, value: T) -> (issued: Result<u64, T>)
        ensures
            match issued {
                Ok(handle) => {
                    &&& old(self).has_room()
                    &&& handle != NULL_HANDLE
                    &&& !old(self)@.contains_key(handle)
                    &&& !old(self).is_spent(handle)
                    &&& final(self)@ == old(self)@.insert(handle, value)
                },
                Err(back) => {
                    &&& !old(self).has_room()
                    &&& back == value
                    &&& *final(self) == *old(self)
                },
            },
            forall|h: u64| final(self).is_spent(h) == old(self).is_spent(h),
            old(self).slot_count() <= final(self).slot_count() <= old(self).slot_count() + 1,
    {
        proof {
            use_type_invariant(&*self);
        }
        let mut arena = Arena::new();
        core::mem::swap(&mut self.arena, &mut arena);
        let issued = arena.insert(value);
        self.arena = arena;
        issued
    }

    /// Gives up the value that `handle` names and hands it to the caller.
    /// From then on the handle is spent: it names nothing, now and after any
    /// later call. A handle that names nothing, the sentinel included, leaves
    /// the table as it was.
    pub fn remove(&mut self, handle: u64) -> (removed: Option<T>)
        ensures
            match removed {
                Some(value) => old(self)@.contains_key(handle) && value == old(self)@[handle],
                None => !old(self)@.contains_key(handle) && *final(self) == *old(self),
            },
            final(self)@ == old(self)@.remove(handle),
            handle == NULL_HANDLE ==> removed is None,
            forall|h: u64|
                final(self).is_spent(h) == (old(self).is_spent(h) || (h == handle && old(
                    self,
                )@.contains_key(handle))),
            final(self).slot_count() == old(self).slot_count(),
            old(self).has_room() ==> final(self).has_room(),
    {
        proof {
            use_type_invariant(&*self);
        }
        let mut arena = Arena::new();
        core::mem::swap(&mut self.arena, &mut arena);
        let removed = arena.remove(handle);
        self.arena = arena;
        removed
    }
}

} // verus!
