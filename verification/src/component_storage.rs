//! Per-type component storage, in two strategies.
//!
//! `GenericComponentStore` is the type-erased face of a storage: which
//! indices hold a component. The typed face `ComponentStore` carries the
//! value-level operations, removal included; its model is a map from entity
//! index to stored value, and its contracts pin that map exactly.
//!
//! `add` on a present index and `set` or `rem` on an absent one are fatal
//! contract violations; they stand here as preconditions, so a verified
//! caller can never hit them.

use vstd::prelude::*;

use crate::handle::EntityIndex;

verus! {

/// Type-erased face of a component storage: presence by index. Everything
/// value-shaped, removal included, lives on the typed face, whose contracts
/// can speak of the stored contents.
pub trait GenericComponentStore {
    /// The storage's internal invariant.
    spec fn inv(&self) -> bool;

    /// The set of entity indices that currently hold a component.
    spec fn dom(&self) -> Set<EntityIndex>;

    /// Does `index` hold a component? Never fails.
    fn has(&self, index: EntityIndex) -> (r: bool)
        requires
            self.inv(),
        ensures
            r == self.dom().contains(index),
    ;
}

/// Typed face of a component storage holding values of type `T`: a map from
/// entity index to value.
pub trait ComponentStore<T>: GenericComponentStore + Sized {
    type ComponentType;

    /// The stored values, keyed by entity index.
    spec fn contents(&self) -> Map<EntityIndex, T>;

    /// The typed and the type-erased view agree on which indices are present.
    proof fn lemma_contents_dom(&self)
        requires
            self.inv(),
        ensures
            self.contents().dom() == self.dom(),
    ;

    fn new() -> (r: Self)
        ensures
            r.inv(),
            r.contents() == Map::<EntityIndex, T>::empty(),
            r.dom() == Set::<EntityIndex>::empty(),
    ;

    fn get(&self, index: EntityIndex) -> (r: Option<&T>)
        requires
            self.inv(),
        ensures
            match r {
                Some(v) => self.dom().contains(index) && *v == self.contents()[index],
                None => !self.dom().contains(index),
            },
    ;

    fn get_mut(&mut self, index: EntityIndex) -> (r: Option<&mut T>)
        requires
            old(self).inv(),
        ensures
            match r {
                Some(v) => {
                    &&& old(self).dom().contains(index)
                    &&& *v == old(self).contents()[index]
                    &&& final(self).inv()
                    &&& final(self).dom() == old(self).dom()
                    &&& final(self).contents() == old(self).contents().insert(index, *final(v))
                },
                None => !old(self).dom().contains(index) && *final(self) == *old(self),
            },
    ;

    /// Remove the component of `index`, which must be present. Every other
    /// entity keeps its component and its value.
    fn rem(&mut self, index: EntityIndex)
        requires
            old(self).inv(),
            old(self).dom().contains(index),
        ensures
            final(self).inv(),
            final(self).dom() == old(self).dom().remove(index),
            final(self).contents() == old(self).contents().remove(index),
    ;

    /// Overwrite the component of `index`, which must be present.
    fn set(&mut self, index: EntityIndex, value: T)
        requires
            old(self).inv(),
            old(self).dom().contains(index),
        ensures
            final(self).inv(),
            final(self).dom() == old(self).dom(),
            final(self).contents() == old(self).contents().insert(index, value),
    ;

    /// Attach a component to `index`, which must not hold one yet. The index
    /// space keeps its largest value free as a sentinel.
    fn add(&mut self, index: EntityIndex, value: T)
        requires
            old(self).inv(),
            !old(self).dom().contains(index),
            index < 0xFFFF_FFFFu32,
        ensures
            final(self).inv(),
            final(self).dom() == old(self).dom().insert(index),
            final(self).contents() == old(self).contents().insert(index, value),
    ;
}

/// A plain data payload that can be attached to entities; names the storage
/// strategy that backs it.
pub trait Component: Clone + Default + Send + Sync + Sized {
    type Storage: ComponentStore<Self>;
}

/// The whole per-step destruction sweep against one store, in one step:
/// every queued index has its generation bumped and its component (if any)
/// removed, the queue is emptied into the free list, and no other slot or
/// component is touched. Handle validity is unchanged — the destroyed
/// entities were already dead, and the bump only pushes their slots further
/// out of reach. A registry with several stores runs `cleanup` once and
/// `sweep_store` per store to the same effect.
pub fn cleanup_and_sweep<C, S: ComponentStore<C>>(
    entities: &mut crate::entity_manager::EntityManager,
    store: &mut S,
) -> (processed: Vec<EntityIndex>)
    requires
        old(entities).wf(),
        old(store).inv(),
        forall|k: int|
            0 <= k < old(entities).entity_destruct_queue@.len()
                ==> old(entities).entity_slots@[old(
                entities,
            ).entity_destruct_queue@[k] as int].version < 0xFFFF_FFFFu32,
    ensures
        final(entities).wf(),
        final(store).inv(),
        processed@ == old(entities).entity_destruct_queue@,
        final(entities).entity_destruct_queue@.len() == 0,
        final(entities).entity_slots@.len() == old(entities).entity_slots@.len(),
        forall|k: int|
            0 <= k < processed@.len() ==> {
                let i = #[trigger] processed@[k] as int;
                final(entities).entity_slots@[i].version == old(entities).entity_slots@[i].version
                    + 1 && !final(entities).entity_slots@[i].alive
            },
        forall|i: int|
            0 <= i < old(entities).entity_slots@.len() && !processed@.contains(i as EntityIndex)
                ==> final(entities).entity_slots@[i] == old(entities).entity_slots@[i],
        forall|h: crate::handle::EntityHandle|
            final(entities).spec_exists(h) <==> old(entities).spec_exists(h),
        final(entities).entity_free_list@ == old(entities).entity_free_list@ + old(
            entities,
        ).entity_destruct_queue@.reverse(),
        forall|i: EntityIndex|
            #![trigger final(store).dom().contains(i)]
            #![trigger old(store).dom().contains(i)]
            final(store).dom().contains(i) <==> (old(store).dom().contains(i)
                && !processed@.contains(i)),
        final(store).contents() == old(store).contents().remove_keys(processed@.to_set()),
{
    let processed = entities.cleanup();
    sweep_store(store, &processed);
    processed
}

/// Round-trip law over the storage model. The contracts of `add` and `set`
/// say the contents become `insert(index, value)`, `rem`'s that they become
/// `remove(index)`, and `get`/`has` answer from the contents — so adding or
/// setting a value and then getting it yields exactly that value, and after a
/// removal the index holds nothing.
pub proof fn lemma_store_round_trip<T>(contents: Map<EntityIndex, T>, index: EntityIndex, value: T)
    ensures
        contents.insert(index, value).dom().contains(index),
        contents.insert(index, value)[index] == value,
        !contents.remove(index).dom().contains(index),
        forall|j: EntityIndex|
            j != index ==> (contents.insert(index, value).dom().contains(j)
                <==> contents.dom().contains(j)),
        forall|j: EntityIndex|
            j != index && contents.dom().contains(j) ==> contents.insert(index, value)[j]
                == contents[j],
{
}

/// An index occurs among the first `n` entries of `q`.
pub open spec fn swept_in_prefix(q: Seq<EntityIndex>, n: int, i: EntityIndex) -> bool {
    exists|j: int| 0 <= j < n && q[j] == i
}

/// The store half of the deferred destruction sweep: remove the component of
/// every listed index that holds one. Run once per store with the indices the
/// entity manager's `cleanup` processed. Every entity not listed keeps its
/// component and its value.
pub fn sweep_store<C, S: ComponentStore<C>>(store: &mut S, indices: &Vec<EntityIndex>)
    requires
        old(store).inv(),
    ensures
        final(store).inv(),
        forall|i: EntityIndex|
            #![trigger final(store).dom().contains(i)]
            #![trigger old(store).dom().contains(i)]
            final(store).dom().contains(i) <==> (old(store).dom().contains(i)
                && !indices@.contains(i)),
        final(store).contents() == old(store).contents().remove_keys(indices@.to_set()),
{
    let ghost q = indices@;
    let ghost dom0 = store.dom();
    let ghost contents0 = store.contents();
    let mut k: usize = 0;
    while k < indices.len()
        invariant
            store.inv(),
            q == indices@,
            dom0 == old(store).dom(),
            contents0 == old(store).contents(),
            0 <= k <= q.len(),
            forall|i: EntityIndex|
                store.dom().contains(i) <==> (dom0.contains(i) && !swept_in_prefix(q, k as int, i)),
            forall|i: EntityIndex|
                store.dom().contains(i) ==> #[trigger] store.contents()[i] == contents0[i],
        decreases q.len() - k,
    {
        let ghost pre = store.dom();
        let ghost pre_contents = store.contents();
        let i = indices[k];
        let present = store.has(i);
        if present {
            store.rem(i);
        }
        let ghost old_k = k as int;
        k = k + 1;
        proof {
            if present {
                assert(store.dom() == pre.remove(i));
                assert(store.contents() == pre_contents.remove(i));
            } else {
                assert(store.dom() == pre);
                assert(store.contents() == pre_contents);
            }
            assert forall|m: EntityIndex|
                store.dom().contains(m) <==> (dom0.contains(m) && !swept_in_prefix(
                    q,
                    k as int,
                    m,
                )) by {
                assert(pre.contains(m) <==> (dom0.contains(m) && !swept_in_prefix(q, old_k, m)));
                if swept_in_prefix(q, old_k, m) {
                    let j = choose|j: int| 0 <= j < old_k && q[j] == m;
                    assert(0 <= j < k as int && q[j] == m);
                }
                if swept_in_prefix(q, k as int, m) && m != i {
                    let j = choose|j: int| 0 <= j < k as int && q[j] == m;
                    assert(0 <= j < old_k && q[j] == m) by {
                        assert(q[old_k] == i);
                    }
                }
                assert(swept_in_prefix(q, k as int, i)) by {
                    assert(q[old_k] == i && 0 <= old_k < k as int);
                }
            }
            assert forall|m: EntityIndex| store.dom().contains(m) implies #[trigger] store.contents()[m]
                == contents0[m] by {
                assert(pre.contains(m));
                assert(pre_contents[m] == contents0[m]);
            }
        }
    }
    proof {
        assert forall|i: EntityIndex|
            store.dom().contains(i) <==> (dom0.contains(i) && !indices@.contains(i)) by {
            assert(store.dom().contains(i) <==> (dom0.contains(i) && !swept_in_prefix(
                q,
                k as int,
                i,
            )));
            if swept_in_prefix(q, q.len() as int, i) {
                let j = choose|j: int| 0 <= j < q.len() && q[j] == i;
                assert(indices@.contains(i));
            }
            if indices@.contains(i) {
                let j = choose|j: int| 0 <= j < q.len() && q[j] == i;
                assert(swept_in_prefix(q, q.len() as int, i));
            }
        }
        store.lemma_contents_dom();
        old(store).lemma_contents_dom();
        assert forall|i: EntityIndex|
            store.contents().dom().contains(i) <==> old(store).contents().remove_keys(
                indices@.to_set(),
            ).dom().contains(i) by {
            assert(store.contents().dom().contains(i) <==> store.dom().contains(i));
            assert(old(store).contents().dom().contains(i) <==> dom0.contains(i));
        }
        assert forall|i: EntityIndex| store.contents().dom().contains(i) implies #[trigger] store.contents()[i]
            == old(store).contents().remove_keys(indices@.to_set())[i] by {
            assert(store.dom().contains(i));
            assert(store.contents()[i] == contents0[i]);
        }
        assert(store.contents() =~= old(store).contents().remove_keys(indices@.to_set()));
    }
}

} // verus!
