//! The batch iteration driver.
//!
//! A sweep partitions the primary store's dense entries into contiguous
//! batches of at most the requested size — non-overlapping by construction,
//! so no two batches ever touch the same slot — and processes each batch as
//! one unit of work: entities that the required-absent store knows are
//! filtered out, the survivors get their current generation resolved into a
//! handle, and the closure is applied to each survivor's component in place.
//!
//! Every batch holds one fork-join dependency token for its duration, and the
//! waiter that joins on them is handed back: when the batches are fanned out
//! over a worker pool, awaiting that waiter is what observes the end of the
//! whole sweep. Driving the batches in order on one thread, as here, resolves
//! the waiter by the time it is returned.

use vstd::prelude::*;

use crate::atomic_waiter::AtomicWaiter;
use crate::component_storage::ComponentStore;
use crate::component_storage::GenericComponentStore;
use crate::dense_store::DenseStore;
use crate::entity_manager::EntityManager;
use crate::handle::EntityHandle;
use crate::handle::EntityIndex;
use crate::linear_store::offset_of;
use crate::linear_store::page_of;
use crate::linear_store::LinearStore;
use crate::linear_store::PAGE_SIZE;

verus! {

/// The handle that `entities` currently associates with a live index.
pub open spec fn handle_of(entities: EntityManager, index: EntityIndex) -> EntityHandle {
    EntityHandle { index, version: entities.entity_slots@[index as int].version }
}

/// One batch of a sweep: apply `f` in place to the primary store's dense
/// positions `start` up to `end`, skipping entities present in `excluded`,
/// handing `f` each survivor's resolved handle. Positions outside the batch
/// are untouched — batches over disjoint ranges never alias a slot, which is
/// what lets a driver fan them out as independent units of work.
pub fn sweep_batch<T, S: GenericComponentStore, F: Fn(EntityHandle, &T) -> T>(
    entities: &EntityManager,
    primary: &mut DenseStore<T>,
    excluded: &S,
    start: usize,
    end: usize,
    f: &F,
)
    requires
        entities.wf(),
        old(primary).wf(),
        excluded.inv(),
        start <= end <= old(primary).dense_values@.len(),
        forall|k: int|
            start <= k < end ==> entities.spec_exists_index(
                #[trigger] old(primary).dense_indices@[k],
            ),
        forall|k: int|
            start <= k < end && !excluded.dom().contains(old(primary).dense_indices@[k])
                ==> call_requires(
                f,
                (
                    handle_of(*entities, #[trigger] old(primary).dense_indices@[k]),
                    &old(primary).dense_values@[k],
                ),
            ),
    ensures
        final(primary).wf(),
        final(primary).sparse_indices@ == old(primary).sparse_indices@,
        final(primary).dense_indices@ == old(primary).dense_indices@,
        final(primary).dense_values@.len() == old(primary).dense_values@.len(),
        forall|k: int|
            0 <= k < old(primary).dense_values@.len() && !(start <= k < end)
                ==> #[trigger] final(primary).dense_values@[k] == old(primary).dense_values@[k],
        forall|k: int|
            start <= k < end && excluded.dom().contains(old(primary).dense_indices@[k])
                ==> #[trigger] final(primary).dense_values@[k] == old(primary).dense_values@[k],
        forall|k: int|
            start <= k < end && !excluded.dom().contains(old(primary).dense_indices@[k])
                ==> call_ensures(
                f,
                (
                    handle_of(*entities, old(primary).dense_indices@[k]),
                    &old(primary).dense_values@[k],
                ),
                #[trigger] final(primary).dense_values@[k],
            ),
{
    let mut k: usize = start;
    while k < end
        invariant
            entities.wf(),
            primary.wf(),
            excluded.inv(),
            start <= k <= end <= primary.dense_values@.len(),
            primary.sparse_indices@ == old(primary).sparse_indices@,
            primary.dense_indices@ == old(primary).dense_indices@,
            primary.dense_values@.len() == old(primary).dense_values@.len(),
            forall|j: int|
                start <= j < end ==> entities.spec_exists_index(
                    #[trigger] old(primary).dense_indices@[j],
                ),
            forall|j: int|
                start <= j < end && !excluded.dom().contains(old(primary).dense_indices@[j])
                    ==> call_requires(
                    f,
                    (
                        handle_of(*entities, #[trigger] old(primary).dense_indices@[j]),
                        &old(primary).dense_values@[j],
                    ),
                ),
            forall|j: int|
                0 <= j < primary.dense_values@.len() && !(start <= j < k)
                    ==> #[trigger] primary.dense_values@[j] == old(primary).dense_values@[j],
            forall|j: int|
                start <= j < k && excluded.dom().contains(old(primary).dense_indices@[j])
                    ==> #[trigger] primary.dense_values@[j] == old(primary).dense_values@[j],
            forall|j: int|
                start <= j < k && !excluded.dom().contains(old(primary).dense_indices@[j])
                    ==> call_ensures(
                    f,
                    (
                        handle_of(*entities, old(primary).dense_indices@[j]),
                        &old(primary).dense_values@[j],
                    ),
                    #[trigger] primary.dense_values@[j],
                ),
        decreases end - k,
    {
        let index = primary.dense_indices[k];
        if !excluded.has(index) {
            let version = entities.version_of(index).unwrap();
            let handle = EntityHandle { index, version };
            let new_value = f(handle, &primary.dense_values[k]);
            primary.dense_values.set(k, new_value);
        }
        k = k + 1;
    }
}

/// Sweep the primary store: apply `f`, batch by batch, to every stored value
/// whose entity is absent from `excluded`, handing `f` the entity's resolved
/// handle. Values of excluded entities and the dense layout are untouched.
/// The returned fork-join waiter joined every batch's dependency token and is
/// resolved. (Driving the batches on one thread, as here, resolves it in
/// order; a pool-backed driver dispatches each `sweep_batch` range as one
/// scheduled task instead.)
pub fn parallel_over_entities<T, S: GenericComponentStore, F: Fn(EntityHandle, &T) -> T>(
    entities: &EntityManager,
    primary: &mut DenseStore<T>,
    excluded: &S,
    batch_size: usize,
    f: F,
) -> (waiter: AtomicWaiter)
    requires
        entities.wf(),
        old(primary).wf(),
        excluded.inv(),
        batch_size > 0,
        forall|k: int|
            0 <= k < old(primary).dense_indices@.len() ==> entities.spec_exists_index(
                #[trigger] old(primary).dense_indices@[k],
            ),
        forall|k: int|
            0 <= k < old(primary).dense_values@.len() && !excluded.dom().contains(
                old(primary).dense_indices@[k],
            ) ==> call_requires(
                f,
                (
                    handle_of(*entities, #[trigger] old(primary).dense_indices@[k]),
                    &old(primary).dense_values@[k],
                ),
            ),
    ensures
        final(primary).wf(),
        final(primary).sparse_indices@ == old(primary).sparse_indices@,
        final(primary).dense_indices@ == old(primary).dense_indices@,
        final(primary).dense_values@.len() == old(primary).dense_values@.len(),
        forall|k: int|
            0 <= k < old(primary).dense_values@.len() && excluded.dom().contains(
                old(primary).dense_indices@[k],
            ) ==> #[trigger] final(primary).dense_values@[k] == old(primary).dense_values@[k],
        forall|k: int|
            0 <= k < old(primary).dense_values@.len() && !excluded.dom().contains(
                old(primary).dense_indices@[k],
            ) ==> call_ensures(
                f,
                (
                    handle_of(*entities, old(primary).dense_indices@[k]),
                    &old(primary).dense_values@[k],
                ),
                #[trigger] final(primary).dense_values@[k],
            ),
        waiter.spec_ready(),
{
    let mut waiter = AtomicWaiter::new();
    let n = primary.dense_values.len();
    let mut start: usize = 0;
    while start < n
        invariant
            entities.wf(),
            primary.wf(),
            excluded.inv(),
            batch_size > 0,
            n == primary.dense_values@.len(),
            0 <= start <= n,
            waiter.count == 0,
            primary.sparse_indices@ == old(primary).sparse_indices@,
            primary.dense_indices@ == old(primary).dense_indices@,
            primary.dense_values@.len() == old(primary).dense_values@.len(),
            forall|k: int|
                0 <= k < old(primary).dense_indices@.len() ==> entities.spec_exists_index(
                    #[trigger] old(primary).dense_indices@[k],
                ),
            forall|k: int|
                0 <= k < old(primary).dense_values@.len() && !excluded.dom().contains(
                    old(primary).dense_indices@[k],
                ) ==> call_requires(
                    f,
                    (
                        handle_of(*entities, #[trigger] old(primary).dense_indices@[k]),
                        &old(primary).dense_values@[k],
                    ),
                ),
            forall|k: int|
                start <= k < n ==> #[trigger] primary.dense_values@[k] == old(
                    primary,
                ).dense_values@[k],
            forall|k: int|
                0 <= k < start && excluded.dom().contains(old(primary).dense_indices@[k])
                    ==> #[trigger] primary.dense_values@[k] == old(primary).dense_values@[k],
            forall|k: int|
                0 <= k < start && !excluded.dom().contains(old(primary).dense_indices@[k])
                    ==> call_ensures(
                    f,
                    (
                        handle_of(*entities, old(primary).dense_indices@[k]),
                        &old(primary).dense_values@[k],
                    ),
                    #[trigger] primary.dense_values@[k],
                ),
        decreases n - start,
    {
        let dependency = waiter.make_dependency();
        let end = if n - start < batch_size {
            n
        } else {
            start + batch_size
        };
        sweep_batch(entities, primary, excluded, start, end, &f);
        let _wake = waiter.drop_dependency(dependency);
        start = end;
    }
    waiter
}

/// Sweep a paged-linear primary store: apply `f` in place, in ascending
/// index order, to every present value whose entity is absent from
/// `excluded`, handing `f` the entity's resolved handle. A fresh fork-join
/// dependency token is taken up every `batch_size` processed entries and the
/// previous one dropped, so the returned waiter joined one token per batch
/// and is resolved.
pub fn parallel_over_entities_linear<T, S: GenericComponentStore, F: Fn(EntityHandle, &T) -> T>(
    entities: &EntityManager,
    primary: &mut LinearStore<T>,
    excluded: &S,
    batch_size: usize,
    f: F,
) -> (waiter: AtomicWaiter)
    requires
        entities.wf(),
        old(primary).wf(),
        excluded.inv(),
        batch_size > 0,
        forall|i: EntityIndex|
            old(primary).spec_has(i) ==> entities.spec_exists_index(i),
        forall|i: EntityIndex|
            old(primary).spec_has(i) && !excluded.dom().contains(i) ==> call_requires(
                f,
                (handle_of(*entities, i), &old(primary).spec_contents()[i]),
            ),
    ensures
        final(primary).wf(),
        final(primary).pages@.len() == old(primary).pages@.len(),
        final(primary).spec_dom() == old(primary).spec_dom(),
        forall|i: EntityIndex|
            old(primary).spec_has(i) && excluded.dom().contains(i)
                ==> #[trigger] final(primary).spec_contents()[i] == old(primary).spec_contents()[i],
        forall|i: EntityIndex|
            old(primary).spec_has(i) && !excluded.dom().contains(i) ==> call_ensures(
                f,
                (handle_of(*entities, i), &old(primary).spec_contents()[i]),
                #[trigger] final(primary).spec_contents()[i],
            ),
        waiter.spec_ready(),
{
    let mut waiter = AtomicWaiter::new();
    let mut dependency = waiter.make_dependency();
    let mut in_batch: usize = 0;
    let mut p: usize = 0;
    while p < primary.pages.len()
        invariant
            entities.wf(),
            primary.wf(),
            old(primary).wf(),
            excluded.inv(),
            batch_size > 0,
            waiter.count == 1,
            in_batch < batch_size,
            primary.pages@.len() == old(primary).pages@.len(),
            0 <= p <= primary.pages@.len(),
            forall|i: EntityIndex|
                old(primary).spec_has(i) ==> entities.spec_exists_index(i),
            forall|i: EntityIndex|
                old(primary).spec_has(i) && !excluded.dom().contains(i) ==> call_requires(
                    f,
                    (handle_of(*entities, i), &old(primary).spec_contents()[i]),
                ),
            forall|q: int|
                0 <= q < primary.pages@.len() ==> (#[trigger] primary.pages@[q]).slot_used@ == old(
                    primary,
                ).pages@[q].slot_used@ && primary.pages@[q].len == old(primary).pages@[q].len,
            forall|q: int|
                p <= q < primary.pages@.len() ==> (#[trigger] primary.pages@[q]).slots@ == old(
                    primary,
                ).pages@[q].slots@,
            forall|q: int, s: int|
                #![trigger primary.pages@[q].slots@[s]]
                0 <= q < p && 0 <= s < 128 && old(primary).pages@[q].slot_used@[s] ==> {
                    let i = (q * 128 + s) as EntityIndex;
                    if excluded.dom().contains(i) {
                        primary.pages@[q].slots@[s] == old(primary).pages@[q].slots@[s]
                    } else {
                        call_ensures(
                            f,
                            (handle_of(*entities, i), &old(primary).pages@[q].slots@[s]),
                            primary.pages@[q].slots@[s],
                        )
                    }
                },
        decreases primary.pages@.len() - p,
    {
        let mut o: usize = 0;
        while o < PAGE_SIZE
            invariant
                entities.wf(),
                primary.wf(),
                old(primary).wf(),
                excluded.inv(),
                batch_size > 0,
                waiter.count == 1,
                in_batch < batch_size,
                primary.pages@.len() == old(primary).pages@.len(),
                0 <= p < primary.pages@.len(),
                0 <= o <= 128,
                forall|i: EntityIndex|
                    old(primary).spec_has(i) ==> entities.spec_exists_index(i),
                forall|i: EntityIndex|
                    old(primary).spec_has(i) && !excluded.dom().contains(i) ==> call_requires(
                        f,
                        (handle_of(*entities, i), &old(primary).spec_contents()[i]),
                    ),
                forall|q: int|
                    0 <= q < primary.pages@.len() ==> (#[trigger] primary.pages@[q]).slot_used@
                        == old(primary).pages@[q].slot_used@ && primary.pages@[q].len == old(
                        primary,
                    ).pages@[q].len,
                forall|q: int|
                    p < q < primary.pages@.len() ==> (#[trigger] primary.pages@[q]).slots@ == old(
                        primary,
                    ).pages@[q].slots@,
                forall|s: int|
                    o <= s < 128 ==> #[trigger] primary.pages@[p as int].slots@[s] == old(
                        primary,
                    ).pages@[p as int].slots@[s],
                forall|q: int, s: int|
                    #![trigger primary.pages@[q].slots@[s]]
                    0 <= q < p && 0 <= s < 128 && old(primary).pages@[q].slot_used@[s] ==> {
                        let i = (q * 128 + s) as EntityIndex;
                        if excluded.dom().contains(i) {
                            primary.pages@[q].slots@[s] == old(primary).pages@[q].slots@[s]
                        } else {
                            call_ensures(
                                f,
                                (handle_of(*entities, i), &old(primary).pages@[q].slots@[s]),
                                primary.pages@[q].slots@[s],
                            )
                        }
                    },
                forall|s: int|
                    #![trigger primary.pages@[p as int].slots@[s]]
                    0 <= s < o && old(primary).pages@[p as int].slot_used@[s] ==> {
                        let i = (p as int * 128 + s) as EntityIndex;
                        if excluded.dom().contains(i) {
                            primary.pages@[p as int].slots@[s] == old(primary).pages@[p as int].slots@[s]
                        } else {
                            call_ensures(
                                f,
                                (
                                    handle_of(*entities, i),
                                    &old(primary).pages@[p as int].slots@[s],
                                ),
                                primary.pages@[p as int].slots@[s],
                            )
                        }
                    },
            decreases 128 - o,
        {
            if primary.pages[p].slot_used[o] {
                let index = (p * PAGE_SIZE + o) as EntityIndex;
                proof {
                    lemma_linear_split(p as int, o as int);
                    assert(old(primary).spec_has(index));
                    assert(old(primary).spec_contents()[index] == old(
                        primary,
                    ).pages@[p as int].slots@[o as int]);
                }
                if !excluded.has(index) {
                    let version = entities.version_of(index).unwrap();
                    let handle = EntityHandle { index, version };
                    let new_value = f(handle, &primary.pages[p].slots[o]);
                    let page = &mut primary.pages[p];
                    page.slots.set(o, new_value);
                    in_batch = in_batch + 1;
                    if in_batch == batch_size {
                        let _wake = waiter.drop_dependency(dependency);
                        dependency = waiter.make_dependency();
                        in_batch = 0;
                    }
                }
            }
            o = o + 1;
        }
        p = p + 1;
    }
    let _wake = waiter.drop_dependency(dependency);
    proof {
        assert(final(primary).spec_dom() =~= old(primary).spec_dom());
        assert forall|i: EntityIndex|
            old(primary).spec_has(i) implies (if excluded.dom().contains(i) {
            final(primary).spec_contents()[i] == old(primary).spec_contents()[i]
        } else {
            call_ensures(
                f,
                (handle_of(*entities, i), &old(primary).spec_contents()[i]),
                final(primary).spec_contents()[i],
            )
        }) by {
            lemma_linear_split(page_of(i), offset_of(i));
            let q = page_of(i);
            let s = offset_of(i);
            assert(q * 128 + s == i as int);
            assert((q * 128 + s) as EntityIndex == i);
            assert(primary.pages@[q].slot_used@ == old(primary).pages@[q].slot_used@);
            assert(old(primary).pages@[q].slot_used@[s]);
            assert(final(primary).spec_contents()[i] == primary.pages@[q].slots@[s]);
        }
    }
    waiter
}

/// The page split both ways: a page/offset pair below the page bound names
/// the index it composes to, and an index decomposes to its own page and
/// offset.
proof fn lemma_linear_split(q: int, s: int)
    requires
        0 <= q < 0x0200_0000,
        0 <= s < 128,
    ensures
        page_of((q * 128 + s) as EntityIndex) == q,
        offset_of((q * 128 + s) as EntityIndex) == s,
        ((q * 128 + s) as EntityIndex) as int == q * 128 + s,
        forall|j: EntityIndex| #[trigger] page_of(j) * 128 + offset_of(j) == j as int,
        forall|j: EntityIndex| 0 <= #[trigger] offset_of(j) < 128,
        forall|j: EntityIndex| 0 <= #[trigger] page_of(j) < 0x0200_0000,
{
    assert(0 <= q * 128 + s < 0x1_0000_0000) by (nonlinear_arith)
        requires
            0 <= q < 0x0200_0000,
            0 <= s < 128,
    ;
}

/// An entity takes part in a paired sweep: it holds a component in the
/// second store and is absent from the filter store.
pub open spec fn pair_selected(
    second_dom: Set<EntityIndex>,
    excluded_dom: Set<EntityIndex>,
    index: EntityIndex,
) -> bool {
    second_dom.contains(index) && !excluded_dom.contains(index)
}

/// Sweep two exclusive-write stores together: for every entity of the
/// primary store that also holds a component in `second` and is absent from
/// `excluded`, apply `f` to both components in place, handing it the
/// entity's resolved handle. Entities failing either requirement keep both
/// values, and `second`'s entries for entities outside the primary store are
/// untouched.
pub fn parallel_over_entities_pair<
    T,
    U,
    W: ComponentStore<U>,
    S: GenericComponentStore,
    F: Fn(EntityHandle, &T, &U) -> (T, U),
>(
    entities: &EntityManager,
    primary: &mut DenseStore<T>,
    second: &mut W,
    excluded: &S,
    batch_size: usize,
    f: F,
) -> (waiter: AtomicWaiter)
    requires
        entities.wf(),
        old(primary).wf(),
        old(second).inv(),
        excluded.inv(),
        batch_size > 0,
        forall|k: int|
            0 <= k < old(primary).dense_indices@.len() ==> entities.spec_exists_index(
                #[trigger] old(primary).dense_indices@[k],
            ),
        forall|k: int|
            0 <= k < old(primary).dense_values@.len() && pair_selected(
                old(second).dom(),
                excluded.dom(),
                old(primary).dense_indices@[k],
            ) ==> call_requires(
                f,
                (
                    handle_of(*entities, #[trigger] old(primary).dense_indices@[k]),
                    &old(primary).dense_values@[k],
                    &old(second).contents()[old(primary).dense_indices@[k]],
                ),
            ),
    ensures
        final(primary).wf(),
        final(primary).sparse_indices@ == old(primary).sparse_indices@,
        final(primary).dense_indices@ == old(primary).dense_indices@,
        final(primary).dense_values@.len() == old(primary).dense_values@.len(),
        final(second).inv(),
        final(second).dom() == old(second).dom(),
        forall|k: int|
            0 <= k < old(primary).dense_values@.len() && !pair_selected(
                old(second).dom(),
                excluded.dom(),
                old(primary).dense_indices@[k],
            ) ==> #[trigger] final(primary).dense_values@[k] == old(primary).dense_values@[k],
        forall|k: int|
            0 <= k < old(primary).dense_values@.len() && pair_selected(
                old(second).dom(),
                excluded.dom(),
                old(primary).dense_indices@[k],
            ) ==> call_ensures(
                f,
                (
                    handle_of(*entities, old(primary).dense_indices@[k]),
                    &old(primary).dense_values@[k],
                    &old(second).contents()[old(primary).dense_indices@[k]],
                ),
                (
                    #[trigger] final(primary).dense_values@[k],
                    final(second).contents()[old(primary).dense_indices@[k]],
                ),
            ),
        forall|i: EntityIndex|
            old(second).dom().contains(i) && !(old(primary).spec_has(i) && !excluded.dom().contains(
                i,
            )) ==> #[trigger] final(second).contents()[i] == old(second).contents()[i],
        waiter.spec_ready(),
{
    let mut waiter = AtomicWaiter::new();
    let n = primary.dense_values.len();
    let mut start: usize = 0;
    while start < n
        invariant
            entities.wf(),
            primary.wf(),
            second.inv(),
            excluded.inv(),
            batch_size > 0,
            n == primary.dense_values@.len(),
            0 <= start <= n,
            waiter.count == 0,
            primary.sparse_indices@ == old(primary).sparse_indices@,
            primary.dense_indices@ == old(primary).dense_indices@,
            primary.dense_values@.len() == old(primary).dense_values@.len(),
            second.dom() == old(second).dom(),
            forall|k: int|
                0 <= k < old(primary).dense_indices@.len() ==> entities.spec_exists_index(
                    #[trigger] old(primary).dense_indices@[k],
                ),
            forall|k: int|
                0 <= k < old(primary).dense_values@.len() && pair_selected(
                    old(second).dom(),
                    excluded.dom(),
                    old(primary).dense_indices@[k],
                ) ==> call_requires(
                    f,
                    (
                        handle_of(*entities, #[trigger] old(primary).dense_indices@[k]),
                        &old(primary).dense_values@[k],
                        &old(second).contents()[old(primary).dense_indices@[k]],
                    ),
                ),
            forall|j: int|
                start <= j < n ==> #[trigger] primary.dense_values@[j] == old(
                    primary,
                ).dense_values@[j],
            forall|j: int|
                0 <= j < start && !pair_selected(
                    old(second).dom(),
                    excluded.dom(),
                    old(primary).dense_indices@[j],
                ) ==> #[trigger] primary.dense_values@[j] == old(primary).dense_values@[j],
            forall|j: int|
                0 <= j < start && pair_selected(
                    old(second).dom(),
                    excluded.dom(),
                    old(primary).dense_indices@[j],
                ) ==> call_ensures(
                    f,
                    (
                        handle_of(*entities, old(primary).dense_indices@[j]),
                        &old(primary).dense_values@[j],
                        &old(second).contents()[old(primary).dense_indices@[j]],
                    ),
                    (
                        #[trigger] primary.dense_values@[j],
                        second.contents()[old(primary).dense_indices@[j]],
                    ),
                ),
            forall|i: EntityIndex|
                old(second).dom().contains(i) && !(old(primary).spec_has(i)
                    && !excluded.dom().contains(i) && old(primary).sparse_indices@[i as int]
                    < start) ==> #[trigger] second.contents()[i] == old(second).contents()[i],
        decreases n - start,
    {
        let dependency = waiter.make_dependency();
        let end = if n - start < batch_size {
            n
        } else {
            start + batch_size
        };
        let mut k: usize = start;
        while k < end
            invariant
                entities.wf(),
                primary.wf(),
                second.inv(),
                excluded.inv(),
                n == primary.dense_values@.len(),
                0 <= start <= k <= end <= n,
                primary.sparse_indices@ == old(primary).sparse_indices@,
                primary.dense_indices@ == old(primary).dense_indices@,
                primary.dense_values@.len() == old(primary).dense_values@.len(),
                second.dom() == old(second).dom(),
                forall|j: int|
                    0 <= j < old(primary).dense_indices@.len() ==> entities.spec_exists_index(
                        #[trigger] old(primary).dense_indices@[j],
                    ),
                forall|j: int|
                    0 <= j < old(primary).dense_values@.len() && pair_selected(
                        old(second).dom(),
                        excluded.dom(),
                        old(primary).dense_indices@[j],
                    ) ==> call_requires(
                        f,
                        (
                            handle_of(*entities, #[trigger] old(primary).dense_indices@[j]),
                            &old(primary).dense_values@[j],
                            &old(second).contents()[old(primary).dense_indices@[j]],
                        ),
                    ),
                forall|j: int|
                    k <= j < n ==> #[trigger] primary.dense_values@[j] == old(
                        primary,
                    ).dense_values@[j],
                forall|j: int|
                    0 <= j < k && !pair_selected(
                        old(second).dom(),
                        excluded.dom(),
                        old(primary).dense_indices@[j],
                    ) ==> #[trigger] primary.dense_values@[j] == old(primary).dense_values@[j],
                forall|j: int|
                    0 <= j < k && pair_selected(
                        old(second).dom(),
                        excluded.dom(),
                        old(primary).dense_indices@[j],
                    ) ==> call_ensures(
                        f,
                        (
                            handle_of(*entities, old(primary).dense_indices@[j]),
                            &old(primary).dense_values@[j],
                            &old(second).contents()[old(primary).dense_indices@[j]],
                        ),
                        (
                            #[trigger] primary.dense_values@[j],
                            second.contents()[old(primary).dense_indices@[j]],
                        ),
                    ),
                forall|i: EntityIndex|
                    old(second).dom().contains(i) && !(old(primary).spec_has(i)
                        && !excluded.dom().contains(i) && old(primary).sparse_indices@[i as int]
                        < k) ==> #[trigger] second.contents()[i] == old(second).contents()[i],
            decreases end - k,
        {
            let index = primary.dense_indices[k];
            proof {
                assert(primary.sparse_indices@[index as int] == k);
                assert forall|i: EntityIndex|
                    old(primary).spec_has(i) && i != index implies old(
                    primary,
                ).sparse_indices@[i as int] != k as int by {
                    assert(old(primary).dense_indices@[old(primary).sparse_indices@[i as int] as int]
                        == i);
                }
            }
            if !excluded.has(index) {
                if let Some(read_value) = second.get(index) {
                    let version = entities.version_of(index).unwrap();
                    let handle = EntityHandle { index, version };
                    let (new_primary, new_second) = f(handle, &primary.dense_values[k], read_value);
                    primary.dense_values.set(k, new_primary);
                    second.set(index, new_second);
                }
            }
            k = k + 1;
        }
        let _wake = waiter.drop_dependency(dependency);
        start = end;
    }
    waiter
}

/// Sweep the primary store with a shared-read companion: apply `f` to every
/// stored value whose entity also holds a component in `reader` (handed to
/// `f` as a borrow) and is absent from `excluded`. Entities failing either
/// requirement keep their value; the companion stores are only read.
pub fn parallel_over_entities_with<
    T,
    U,
    R: ComponentStore<U>,
    S: GenericComponentStore,
    F: Fn(EntityHandle, &T, &U) -> T,
>(
    entities: &EntityManager,
    primary: &mut DenseStore<T>,
    reader: &R,
    excluded: &S,
    batch_size: usize,
    f: F,
) -> (waiter: AtomicWaiter)
    requires
        entities.wf(),
        old(primary).wf(),
        reader.inv(),
        excluded.inv(),
        batch_size > 0,
        forall|k: int|
            0 <= k < old(primary).dense_indices@.len() ==> entities.spec_exists_index(
                #[trigger] old(primary).dense_indices@[k],
            ),
        forall|k: int|
            0 <= k < old(primary).dense_values@.len() && reader.dom().contains(
                old(primary).dense_indices@[k],
            ) && !excluded.dom().contains(old(primary).dense_indices@[k]) ==> call_requires(
                f,
                (
                    handle_of(*entities, #[trigger] old(primary).dense_indices@[k]),
                    &old(primary).dense_values@[k],
                    &reader.contents()[old(primary).dense_indices@[k]],
                ),
            ),
    ensures
        final(primary).wf(),
        final(primary).sparse_indices@ == old(primary).sparse_indices@,
        final(primary).dense_indices@ == old(primary).dense_indices@,
        final(primary).dense_values@.len() == old(primary).dense_values@.len(),
        forall|k: int|
            0 <= k < old(primary).dense_values@.len() && !(reader.dom().contains(
                old(primary).dense_indices@[k],
            ) && !excluded.dom().contains(old(primary).dense_indices@[k]))
                ==> #[trigger] final(primary).dense_values@[k] == old(primary).dense_values@[k],
        forall|k: int|
            0 <= k < old(primary).dense_values@.len() && reader.dom().contains(
                old(primary).dense_indices@[k],
            ) && !excluded.dom().contains(old(primary).dense_indices@[k]) ==> call_ensures(
                f,
                (
                    handle_of(*entities, old(primary).dense_indices@[k]),
                    &old(primary).dense_values@[k],
                    &reader.contents()[old(primary).dense_indices@[k]],
                ),
                #[trigger] final(primary).dense_values@[k],
            ),
        waiter.spec_ready(),
{
    let mut waiter = AtomicWaiter::new();
    let n = primary.dense_values.len();
    let mut start: usize = 0;
    while start < n
        invariant
            entities.wf(),
            primary.wf(),
            reader.inv(),
            excluded.inv(),
            batch_size > 0,
            n == primary.dense_values@.len(),
            0 <= start <= n,
            waiter.count == 0,
            primary.sparse_indices@ == old(primary).sparse_indices@,
            primary.dense_indices@ == old(primary).dense_indices@,
            primary.dense_values@.len() == old(primary).dense_values@.len(),
            forall|k: int|
                0 <= k < old(primary).dense_indices@.len() ==> entities.spec_exists_index(
                    #[trigger] old(primary).dense_indices@[k],
                ),
            forall|k: int|
                0 <= k < old(primary).dense_values@.len() && reader.dom().contains(
                    old(primary).dense_indices@[k],
                ) && !excluded.dom().contains(old(primary).dense_indices@[k]) ==> call_requires(
                    f,
                    (
                        handle_of(*entities, #[trigger] old(primary).dense_indices@[k]),
                        &old(primary).dense_values@[k],
                        &reader.contents()[old(primary).dense_indices@[k]],
                    ),
                ),
            forall|k: int|
                start <= k < n ==> #[trigger] primary.dense_values@[k] == old(
                    primary,
                ).dense_values@[k],
            forall|k: int|
                0 <= k < start && !(reader.dom().contains(old(primary).dense_indices@[k])
                    && !excluded.dom().contains(old(primary).dense_indices@[k]))
                    ==> #[trigger] primary.dense_values@[k] == old(primary).dense_values@[k],
            forall|k: int|
                0 <= k < start && reader.dom().contains(old(primary).dense_indices@[k])
                    && !excluded.dom().contains(old(primary).dense_indices@[k]) ==> call_ensures(
                    f,
                    (
                        handle_of(*entities, old(primary).dense_indices@[k]),
                        &old(primary).dense_values@[k],
                        &reader.contents()[old(primary).dense_indices@[k]],
                    ),
                    #[trigger] primary.dense_values@[k],
                ),
        decreases n - start,
    {
        let dependency = waiter.make_dependency();
        let end = if n - start < batch_size {
            n
        } else {
            start + batch_size
        };
        let mut k: usize = start;
        while k < end
            invariant
                entities.wf(),
                primary.wf(),
                reader.inv(),
                excluded.inv(),
                n == primary.dense_values@.len(),
                0 <= start <= k <= end <= n,
                primary.sparse_indices@ == old(primary).sparse_indices@,
                primary.dense_indices@ == old(primary).dense_indices@,
                primary.dense_values@.len() == old(primary).dense_values@.len(),
                forall|j: int|
                    0 <= j < old(primary).dense_indices@.len() ==> entities.spec_exists_index(
                        #[trigger] old(primary).dense_indices@[j],
                    ),
                forall|j: int|
                    0 <= j < old(primary).dense_values@.len() && reader.dom().contains(
                        old(primary).dense_indices@[j],
                    ) && !excluded.dom().contains(old(primary).dense_indices@[j])
                        ==> call_requires(
                        f,
                        (
                            handle_of(*entities, #[trigger] old(primary).dense_indices@[j]),
                            &old(primary).dense_values@[j],
                            &reader.contents()[old(primary).dense_indices@[j]],
                        ),
                    ),
                forall|j: int|
                    k <= j < n ==> #[trigger] primary.dense_values@[j] == old(
                        primary,
                    ).dense_values@[j],
                forall|j: int|
                    0 <= j < k && !(reader.dom().contains(old(primary).dense_indices@[j])
                        && !excluded.dom().contains(old(primary).dense_indices@[j]))
                        ==> #[trigger] primary.dense_values@[j] == old(primary).dense_values@[j],
                forall|j: int|
                    0 <= j < k && reader.dom().contains(old(primary).dense_indices@[j])
                        && !excluded.dom().contains(old(primary).dense_indices@[j])
                        ==> call_ensures(
                        f,
                        (
                            handle_of(*entities, old(primary).dense_indices@[j]),
                            &old(primary).dense_values@[j],
                            &reader.contents()[old(primary).dense_indices@[j]],
                        ),
                        #[trigger] primary.dense_values@[j],
                    ),
            decreases end - k,
        {
            let index = primary.dense_indices[k];
            if !excluded.has(index) {
                if let Some(read_value) = reader.get(index) {
                    let version = entities.version_of(index).unwrap();
                    let handle = EntityHandle { index, version };
                    let new_value = f(handle, &primary.dense_values[k], read_value);
                    primary.dense_values.set(k, new_value);
                }
            }
            k = k + 1;
        }
        let _wake = waiter.drop_dependency(dependency);
        start = end;
    }
    waiter
}

} // verus!
