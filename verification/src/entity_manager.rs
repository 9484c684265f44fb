//! Allocation and recycling of entity identities with generation tagging.
//!
//! A handle is valid iff its index is in range, the slot is alive, and the
//! slot still carries the handle's generation. Destruction is deferred:
//! `destroy` only marks the slot dead and queues the index; `cleanup` bumps
//! the generation of every queued index (invalidating all outstanding handles
//! to it) and returns the indices to the free list.

use vstd::prelude::*;

use crate::component_storage::ComponentStore;
use crate::handle::EntityHandle;
use crate::handle::EntityIndex;
use crate::handle::EntitySlot;
use crate::handle::EntityVersion;

verus! {

/// Largest number of slots the manager may hold: the index space keeps one
/// value (`u32::MAX`) free for use as a sentinel by component stores.
pub const MAX_ENTITY_SLOTS: usize = 0xFFFF_FFFF;

pub struct EntityManager {
    pub entity_slots: Vec<EntitySlot>,
    pub entity_free_list: Vec<EntityIndex>,
    pub entity_destruct_queue: Vec<EntityIndex>,
}

impl EntityManager {
    /// Well-formedness: free-listed and destruction-queued indices are in
    /// range, dead, listed at most once, and no index is in both lists.
    pub open spec fn wf(self) -> bool {
        &&& self.entity_slots@.len() <= MAX_ENTITY_SLOTS
        &&& (forall|k: int|
            0 <= k < self.entity_free_list@.len()
                ==> (#[trigger] self.entity_free_list@[k]) < self.entity_slots@.len()
                    && !self.entity_slots@[self.entity_free_list@[k] as int].alive)
        &&& (forall|k: int|
            0 <= k < self.entity_destruct_queue@.len()
                ==> (#[trigger] self.entity_destruct_queue@[k]) < self.entity_slots@.len()
                    && !self.entity_slots@[self.entity_destruct_queue@[k] as int].alive)
        &&& (forall|k1: int, k2: int|
            0 <= k1 < k2 < self.entity_free_list@.len()
                ==> self.entity_free_list@[k1] != self.entity_free_list@[k2])
        &&& (forall|k1: int, k2: int|
            0 <= k1 < k2 < self.entity_destruct_queue@.len()
                ==> self.entity_destruct_queue@[k1] != self.entity_destruct_queue@[k2])
        &&& (forall|k1: int, k2: int|
            0 <= k1 < self.entity_free_list@.len() && 0 <= k2
                < self.entity_destruct_queue@.len()
                ==> self.entity_free_list@[k1] != self.entity_destruct_queue@[k2])
    }

    /// An index refers to a live entity.
    pub open spec fn spec_exists_index(self, index: EntityIndex) -> bool {
        index < self.entity_slots@.len() && self.entity_slots@[index as int].alive
    }

    /// A handle is valid: live slot with the handle's generation.
    pub open spec fn spec_exists(self, entity: EntityHandle) -> bool {
        &&& entity.index < self.entity_slots@.len()
        &&& self.entity_slots@[entity.index as int].alive
        &&& self.entity_slots@[entity.index as int].version == entity.version
    }

    pub fn new() -> (m: EntityManager)
        ensures
            m.wf(),
            m.entity_slots@.len() == 0,
            m.entity_free_list@.len() == 0,
            m.entity_destruct_queue@.len() == 0,
            forall|h: EntityHandle| !m.spec_exists(h),
    {
        EntityManager {
            entity_slots: Vec::new(),
            entity_free_list: Vec::new(),
            entity_destruct_queue: Vec::new(),
        }
    }

    pub fn exists_index(&self, index: EntityIndex) -> (r: bool)
        ensures
            r == self.spec_exists_index(index),
    {
        (index as usize) < self.entity_slots.len() && self.entity_slots[index as usize].alive
    }

    /// The current generation of a live index, `None` for a dead or
    /// out-of-range one.
    pub fn version_of(&self, index: EntityIndex) -> (r: Option<EntityVersion>)
        ensures
            r == if self.spec_exists_index(index) {
                Some(self.entity_slots@[index as int].version)
            } else {
                None::<EntityVersion>
            },
    {
        if self.exists_index(index) {
            Some(self.entity_slots[index as usize].version)
        } else {
            None
        }
    }

    pub fn exists_entity(&self, entity: EntityHandle) -> (r: bool)
        ensures
            r == self.spec_exists(entity),
    {
        (entity.index as usize) < self.entity_slots.len()
            && self.entity_slots[entity.index as usize].alive
            && self.entity_slots[entity.index as usize].version == entity.version
    }

    /// Issue a new entity: pop a recycled index from the free list, or extend
    /// the slot table. The returned handle is valid, was not valid before the
    /// call, and every other handle keeps its validity.
    pub fn create(&mut self) -> (r: EntityHandle)
        requires
            old(self).wf(),
            old(self).entity_free_list@.len() == 0 ==> old(self).entity_slots@.len()
                < MAX_ENTITY_SLOTS,
        ensures
            final(self).wf(),
            final(self).spec_exists(r),
            !old(self).spec_exists(r),
            forall|h: EntityHandle|
                h != r ==> (final(self).spec_exists(h) <==> old(self).spec_exists(h)),
            forall|i: int|
                0 <= i < old(self).entity_slots@.len()
                    ==> (#[trigger] final(self).entity_slots@[i]).version
                        == old(self).entity_slots@[i].version,
            final(self).entity_destruct_queue@ == old(self).entity_destruct_queue@,
            r.version == final(self).entity_slots@[r.index as int].version,
            old(self).entity_free_list@.len() == 0 ==> {
                &&& r.index == old(self).entity_slots@.len()
                &&& r.version == 0
                &&& final(self).entity_slots@ == old(self).entity_slots@.push(
                    EntitySlot { version: 0, alive: true },
                )
                &&& final(self).entity_free_list@ == old(self).entity_free_list@
            },
            old(self).entity_free_list@.len() > 0 ==> {
                &&& r.index == old(self).entity_free_list@.last()
                &&& r.version == old(self).entity_slots@[r.index as int].version
                &&& final(self).entity_slots@ == old(self).entity_slots@.update(
                    r.index as int,
                    EntitySlot { version: r.version, alive: true },
                )
                &&& final(self).entity_free_list@ == old(self).entity_free_list@.drop_last()
            },
    {
        let index: EntityIndex = match self.entity_free_list.pop() {
            Some(i) => i,
            None => {
                let i = self.entity_slots.len();
                self.entity_slots.push(EntitySlot::new());
                i as EntityIndex
            },
        };
        let version = self.entity_slots[index as usize].version;
        self.entity_slots.set(index as usize, EntitySlot { version, alive: true });
        EntityHandle { index, version }
    }

    /// Mark the entity dead and queue its index for the deferred sweep.
    /// Afterwards no handle to this index is valid; all other handles keep
    /// their validity.
    pub fn destroy(&mut self, entity: EntityHandle)
        requires
            old(self).wf(),
            old(self).spec_exists(entity),
        ensures
            final(self).wf(),
            forall|h: EntityHandle|
                final(self).spec_exists(h) <==> (old(self).spec_exists(h) && h.index
                    != entity.index),
            final(self).entity_slots@.len() == old(self).entity_slots@.len(),
            forall|i: int|
                0 <= i < old(self).entity_slots@.len()
                    ==> (#[trigger] final(self).entity_slots@[i]).version
                        == old(self).entity_slots@[i].version,
            final(self).entity_destruct_queue@ == old(self).entity_destruct_queue@.push(
                entity.index,
            ),
            final(self).entity_free_list@ == old(self).entity_free_list@,
            final(self).entity_slots@ == old(self).entity_slots@.update(
                entity.index as int,
                EntitySlot { version: entity.version, alive: false },
            ),
    {
        let version = self.entity_slots[entity.index as usize].version;
        self.entity_slots.set(entity.index as usize, EntitySlot { version, alive: false });
        self.entity_destruct_queue.push(entity.index);
    }

    /// Attach a component to a live entity; the entity must not hold one yet.
    pub fn add<C, Store: ComponentStore<C>>(
        &self,
        store: &mut Store,
        value: C,
        entity: EntityHandle,
    )
        requires
            self.wf(),
            self.spec_exists(entity),
            old(store).inv(),
            !old(store).dom().contains(entity.index),
        ensures
            final(store).inv(),
            final(store).dom() == old(store).dom().insert(entity.index),
            final(store).contents() == old(store).contents().insert(entity.index, value),
    {
        store.add(entity.index, value);
    }

    /// Remove a live entity's component, which must be present. Every other
    /// entity keeps its component and its value.
    pub fn rem<C, Store: ComponentStore<C>>(&self, store: &mut Store, entity: EntityHandle)
        requires
            self.wf(),
            self.spec_exists(entity),
            old(store).inv(),
            old(store).dom().contains(entity.index),
        ensures
            final(store).inv(),
            final(store).dom() == old(store).dom().remove(entity.index),
            final(store).contents() == old(store).contents().remove(entity.index),
    {
        store.rem(entity.index);
    }

    /// Does the live entity hold a component in `store`?
    pub fn has<C, Store: ComponentStore<C>>(&self, store: &Store, entity: EntityHandle) -> (r:
        bool)
        requires
            self.wf(),
            self.spec_exists(entity),
            store.inv(),
        ensures
            r == store.dom().contains(entity.index),
    {
        store.has(entity.index)
    }

    /// Borrow the live entity's component, if present.
    pub fn get<'c, C, Store: ComponentStore<C>>(
        &self,
        store: &'c Store,
        entity: EntityHandle,
    ) -> (r: Option<&'c C>)
        requires
            self.wf(),
            self.spec_exists(entity),
            store.inv(),
        ensures
            match r {
                Some(v) => store.dom().contains(entity.index)
                    && *v == store.contents()[entity.index],
                None => !store.dom().contains(entity.index),
            },
    {
        store.get(entity.index)
    }

    /// Mutably borrow the live entity's component, if present.
    pub fn get_mut<'c, C, Store: ComponentStore<C>>(
        &self,
        store: &'c mut Store,
        entity: EntityHandle,
    ) -> (r: Option<&'c mut C>)
        requires
            self.wf(),
            self.spec_exists(entity),
            old(store).inv(),
        ensures
            match r {
                Some(v) => {
                    &&& old(store).dom().contains(entity.index)
                    &&& *v == old(store).contents()[entity.index]
                    &&& final(store).inv()
                    &&& final(store).dom() == old(store).dom()
                    &&& final(store).contents() == old(store).contents().insert(
                        entity.index,
                        *final(v),
                    )
                },
                None => !old(store).dom().contains(entity.index) && *final(store) == *old(store),
            },
    {
        store.get_mut(entity.index)
    }

    /// The deferred sweep, run once per simulation step: bump the generation
    /// of every queued index, return all queued indices to the free list, and
    /// hand the processed indices back so the caller can clear the entities'
    /// components out of every registered store.
    pub fn cleanup(&mut self) -> (processed: Vec<EntityIndex>)
        requires
            old(self).wf(),
            forall|k: int|
                0 <= k < old(self).entity_destruct_queue@.len()
                    ==> old(self).entity_slots@[old(self).entity_destruct_queue@[k] as int].version
                        < 0xFFFF_FFFFu32,
        ensures
            final(self).wf(),
            processed@ == old(self).entity_destruct_queue@,
            final(self).entity_destruct_queue@.len() == 0,
            final(self).entity_slots@.len() == old(self).entity_slots@.len(),
            forall|k: int|
                0 <= k < processed@.len() ==> {
                    let i = #[trigger] processed@[k] as int;
                    final(self).entity_slots@[i].version == old(self).entity_slots@[i].version + 1
                        && !final(self).entity_slots@[i].alive
                },
            forall|i: int|
                0 <= i < old(self).entity_slots@.len() && !processed@.contains(i as EntityIndex)
                    ==> final(self).entity_slots@[i] == old(self).entity_slots@[i],
            forall|h: EntityHandle| final(self).spec_exists(h) <==> old(self).spec_exists(h),
            final(self).entity_free_list@ == old(self).entity_free_list@
                + old(self).entity_destruct_queue@.reverse(),
    {
        let ghost old_slots = self.entity_slots@;
        let ghost queue = self.entity_destruct_queue@;
        let mut processed: Vec<EntityIndex> = Vec::new();
        let mut k: usize = 0;
        while k < self.entity_destruct_queue.len()
            invariant
                old(self).wf(),
                self.entity_destruct_queue@ == queue,
                self.entity_free_list@ == old(self).entity_free_list@,
                queue == old(self).entity_destruct_queue@,
                old_slots == old(self).entity_slots@,
                0 <= k <= queue.len(),
                processed@ == queue.subrange(0, k as int),
                self.entity_slots@.len() == old_slots.len(),
                forall|j: int|
                    0 <= j < queue.len()
                        ==> old_slots[#[trigger] queue[j] as int].version < 0xFFFF_FFFFu32,
                forall|j: int|
                    0 <= j < k ==> {
                        let i = #[trigger] queue[j] as int;
                        self.entity_slots@[i].version == old_slots[i].version + 1
                            && !self.entity_slots@[i].alive
                    },
                forall|i: int|
                    0 <= i < old_slots.len() && !index_in_prefix(queue, k as int, i)
                        ==> (#[trigger] self.entity_slots@[i]) == old_slots[i],
            decreases queue.len() - k,
        {
            let i = self.entity_destruct_queue[k];
            let version = self.entity_slots[i as usize].version;
            self.entity_slots.set(i as usize, EntitySlot { version: version + 1, alive: false });
            processed.push(i);
            assert(processed@ == queue.subrange(0, k as int + 1));
            assert forall|m: int|
                0 <= m < old_slots.len() && !index_in_prefix(queue, k as int + 1, m) implies (
            #[trigger] self.entity_slots@[m]) == old_slots[m] by {
                assert(!index_in_prefix(queue, k as int, m)) by {
                    if index_in_prefix(queue, k as int, m) {
                        let j = choose|j: int| 0 <= j < k && queue[j] == m;
                        assert(0 <= j < k + 1 && queue[j] == m);
                    }
                }
                assert(m != i as int) by {
                    assert(queue[k as int] == i);
                }
            }
            k = k + 1;
        }
        assert(queue.subrange(0, queue.len() as int) == queue);
        let ghost bumped_slots = self.entity_slots@;
        while self.entity_destruct_queue.len() > 0
            invariant
                self.entity_slots@ == bumped_slots,
                bumped_slots.len() == old_slots.len(),
                forall|j: int|
                    0 <= j < self.entity_destruct_queue@.len()
                        ==> (#[trigger] self.entity_destruct_queue@[j]) < old_slots.len()
                            && !bumped_slots[self.entity_destruct_queue@[j] as int].alive,
                forall|j1: int, j2: int|
                    0 <= j1 < j2 < self.entity_destruct_queue@.len()
                        ==> self.entity_destruct_queue@[j1] != self.entity_destruct_queue@[j2],
                forall|j1: int, j2: int|
                    0 <= j1 < self.entity_free_list@.len() && 0 <= j2
                        < self.entity_destruct_queue@.len()
                        ==> self.entity_free_list@[j1] != self.entity_destruct_queue@[j2],
                forall|j: int|
                    0 <= j < self.entity_free_list@.len()
                        ==> (#[trigger] self.entity_free_list@[j]) < old_slots.len()
                            && !bumped_slots[self.entity_free_list@[j] as int].alive,
                forall|j1: int, j2: int|
                    0 <= j1 < j2 < self.entity_free_list@.len()
                        ==> self.entity_free_list@[j1] != self.entity_free_list@[j2],
                self.entity_free_list@ + self.entity_destruct_queue@.reverse() == old(
                    self,
                ).entity_free_list@ + queue.reverse(),
            decreases self.entity_destruct_queue@.len(),
        {
            let ghost pre_queue = self.entity_destruct_queue@;
            let ghost pre_free = self.entity_free_list@;
            let i = self.entity_destruct_queue.pop().unwrap();
            self.entity_free_list.push(i);
            proof {
                assert(pre_queue.reverse() =~= seq![i] + pre_queue.drop_last().reverse());
                assert(pre_free.push(i) + pre_queue.drop_last().reverse() =~= pre_free
                    + pre_queue.reverse());
            }
        }
        proof {
            assert(self.entity_destruct_queue@.reverse() =~= Seq::<EntityIndex>::empty());
            assert(self.entity_free_list@ =~= old(self).entity_free_list@ + queue.reverse());
            assert forall|i: int|
                0 <= i < old_slots.len() && !processed@.contains(i as EntityIndex) implies (
            #[trigger] self.entity_slots@[i]) == old_slots[i] by {
                assert(!index_in_prefix(queue, queue.len() as int, i)) by {
                    if index_in_prefix(queue, queue.len() as int, i) {
                        let j = choose|j: int| 0 <= j < queue.len() && queue[j] == i;
                        assert(queue[j] == i as EntityIndex);
                        assert(processed@.contains(i as EntityIndex));
                    }
                }
            }
            assert forall|h: EntityHandle|
                final(self).spec_exists(h) <==> old(self).spec_exists(h) by {
                if h.index < old_slots.len() {
                    if queue.contains(h.index) {
                        let j = choose|j: int| 0 <= j < queue.len() && queue[j] == h.index;
                        assert(index_in_prefix(queue, queue.len() as int, h.index as int));
                        assert(!old_slots[h.index as int].alive);
                        assert(!self.entity_slots@[h.index as int].alive);
                    } else {
                        assert(!index_in_prefix(queue, queue.len() as int, h.index as int)) by {
                            if index_in_prefix(queue, queue.len() as int, h.index as int) {
                                let j = choose|j: int|
                                    0 <= j < queue.len() && queue[j] == h.index as int;
                                assert(queue.contains(h.index));
                            }
                        }
                        assert(self.entity_slots@[h.index as int] == old_slots[h.index as int]);
                    }
                }
            }
        }
        processed
    }
}

/// An index occurs among the first `n` entries of `q`.
pub open spec fn index_in_prefix(q: Seq<EntityIndex>, n: int, i: int) -> bool {
    exists|j: int| 0 <= j < n && q[j] == i
}

/// A handle whose generation is older than its slot's current generation is
/// invalid, in every state. Generations only ever grow (see the `version`
/// clauses of `create`, `destroy` and `cleanup`), so once a sweep has bumped
/// a slot past a handle's generation, that handle can never become valid
/// again, even when the index is reused.
pub proof fn lemma_stale_handle_never_valid(m: EntityManager, h: EntityHandle)
    requires
        h.index < m.entity_slots@.len(),
        h.version < m.entity_slots@[h.index as int].version,
    ensures
        !m.spec_exists(h),
{
}

} // verus!
