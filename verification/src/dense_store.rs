//! Sparse-dense component storage.
//!
//! A sparse array maps entity index to an offset into a pair of parallel
//! dense arrays (owning index and value); absent entries hold a sentinel.
//! Memory is proportional to the live count and iteration is contiguous;
//! removal is a swap-remove that moves the last dense element into the freed
//! offset and fixes its sparse pointer, so it reorders the dense arrays.

use vstd::prelude::*;

use crate::component_storage::ComponentStore;
use crate::component_storage::GenericComponentStore;
use crate::handle::EntityIndex;

verus! {

/// The sentinel: the largest representable index, kept out of the usable
/// index space.
pub const SENTINEL_INDEX: u32 = 0xFFFF_FFFF;

pub struct DenseStore<T> {
    pub sparse_indices: Vec<EntityIndex>,
    pub dense_indices: Vec<EntityIndex>,
    pub dense_values: Vec<T>,
}

impl<T> DenseStore<T> {
    /// Sparse-dense well-formedness: the two dense arrays run in parallel,
    /// every dense entry's owning index points back at it through the sparse
    /// array, and every non-sentinel sparse entry points at a dense entry
    /// owned by it.
    pub open spec fn wf(self) -> bool {
        &&& self.dense_indices@.len() == self.dense_values@.len()
        &&& self.dense_values@.len() <= 0xFFFF_FFFF
        &&& self.sparse_indices@.len() <= 0xFFFF_FFFF
        &&& (forall|k: int|
            0 <= k < self.dense_indices@.len() ==> {
                let i = #[trigger] self.dense_indices@[k];
                (i as int) < self.sparse_indices@.len() && self.sparse_indices@[i as int] == k
            })
        &&& (forall|i: int|
            0 <= i < self.sparse_indices@.len() && (#[trigger] self.sparse_indices@[i])
                != SENTINEL_INDEX ==> (self.sparse_indices@[i] as int)
                < self.dense_indices@.len() && self.dense_indices@[self.sparse_indices@[i] as int]
                == i)
    }

    /// `index` holds a component: its sparse entry exists and is not the
    /// sentinel.
    pub open spec fn spec_has(self, index: EntityIndex) -> bool {
        (index as int) < self.sparse_indices@.len() && self.sparse_indices@[index as int]
            != SENTINEL_INDEX
    }

    pub open spec fn spec_dom(self) -> Set<EntityIndex> {
        Set::new(|i: EntityIndex| self.spec_has(i))
    }

    pub open spec fn spec_contents(self) -> Map<EntityIndex, T> {
        Map::new(
            |i: EntityIndex| self.spec_has(i),
            |i: EntityIndex| self.dense_values@[self.sparse_indices@[i as int] as int],
        )
    }

    /// Grow the sparse array with sentinels until `index` is in range.
    fn assure_index(&mut self, index: EntityIndex)
        requires
            old(self).wf(),
            index < SENTINEL_INDEX,
        ensures
            final(self).wf(),
            final(self).sparse_indices@.len() > index,
            final(self).sparse_indices@.len() >= old(self).sparse_indices@.len(),
            forall|i: int|
                0 <= i < old(self).sparse_indices@.len()
                    ==> final(self).sparse_indices@[i] == old(self).sparse_indices@[i],
            forall|i: int|
                old(self).sparse_indices@.len() <= i < final(self).sparse_indices@.len()
                    ==> final(self).sparse_indices@[i] == SENTINEL_INDEX,
            final(self).dense_indices@ == old(self).dense_indices@,
            final(self).dense_values@ == old(self).dense_values@,
            final(self).spec_dom() == old(self).spec_dom(),
            final(self).spec_contents() == old(self).spec_contents(),
    {
        while self.sparse_indices.len() <= index as usize
            invariant
                index < SENTINEL_INDEX,
                self.sparse_indices@.len() >= old(self).sparse_indices@.len(),
                self.sparse_indices@.len() <= index as int + 1 || self.sparse_indices@.len() == old(
                    self,
                ).sparse_indices@.len(),
                forall|i: int|
                    0 <= i < old(self).sparse_indices@.len()
                        ==> self.sparse_indices@[i] == old(self).sparse_indices@[i],
                forall|i: int|
                    old(self).sparse_indices@.len() <= i < self.sparse_indices@.len()
                        ==> self.sparse_indices@[i] == SENTINEL_INDEX,
                self.dense_indices@ == old(self).dense_indices@,
                self.dense_values@ == old(self).dense_values@,
            decreases index as int + 1 - self.sparse_indices@.len(),
        {
            self.sparse_indices.push(SENTINEL_INDEX);
        }
        proof {
            assert(final(self).spec_dom() =~= old(self).spec_dom());
            assert(final(self).spec_contents() =~= old(self).spec_contents());
        }
    }

    /// The dense arrays are strictly shorter than a sparse array that still
    /// has a sentinel entry: the owning indices are distinct and all point
    /// into the sparse array, missing the sentinel entry.
    proof fn lemma_dense_len_bound(self, index: EntityIndex)
        requires
            self.wf(),
            (index as int) < self.sparse_indices@.len(),
            self.sparse_indices@[index as int] == SENTINEL_INDEX,
        ensures
            self.dense_values@.len() < self.sparse_indices@.len(),
    {
        let s = self.dense_indices@.map_values(|x: EntityIndex| x as int);
        assert forall|k1: int, k2: int| 0 <= k1 < k2 < s.len() implies s[k1] != s[k2] by {
            assert(self.sparse_indices@[self.dense_indices@[k1] as int] == k1);
            assert(self.sparse_indices@[self.dense_indices@[k2] as int] == k2);
        }
        assert(s.no_duplicates());
        s.unique_seq_to_set();
        let full = vstd::set_lib::set_int_range(0, self.sparse_indices@.len() as int);
        vstd::set_lib::lemma_int_range(0, self.sparse_indices@.len() as int);
        let rng = full.remove(index as int);
        vstd::set::axiom_set_remove_finite(full, index as int);
        vstd::set::axiom_set_remove_len(full, index as int);
        assert(full.contains(index as int));
        assert(rng.len() == full.len() - 1);
        assert forall|x: int| s.to_set().contains(x) implies rng.contains(x) by {
            assert(s.contains(x));
            let k = choose|k: int| 0 <= k < s.len() && s[k] == x;
            assert(x == self.dense_indices@[k] as int);
            assert(self.sparse_indices@[x] == k);
            assert(k < 0xFFFF_FFFF);
            assert(x != index as int);
        }
        assert(s.to_set().subset_of(rng));
        vstd::set_lib::lemma_len_subset(s.to_set(), rng);
    }
}

impl<T> DenseStore<T> {
    /// How many components are stored: the length of the dense arrays.
    pub fn len(&self) -> (r: usize)
        ensures
            r == self.dense_values@.len(),
    {
        self.dense_values.len()
    }

    /// The stored values in dense order.
    pub fn iter(&self) -> (r: Vec<&T>)
        requires
            self.wf(),
        ensures
            r@.len() == self.dense_values@.len(),
            forall|k: int| 0 <= k < r@.len() ==> *(#[trigger] r@[k]) == self.dense_values@[k],
    {
        let mut r: Vec<&T> = Vec::new();
        let mut k: usize = 0;
        while k < self.dense_values.len()
            invariant
                0 <= k <= self.dense_values@.len(),
                r@.len() == k,
                forall|j: int| 0 <= j < k ==> *(#[trigger] r@[j]) == self.dense_values@[j],
            decreases self.dense_values@.len() - k,
        {
            r.push(&self.dense_values[k]);
            k = k + 1;
        }
        r
    }

    /// The owning index of each stored value, paired with the value, in dense
    /// order.
    pub fn iter_entity(&self) -> (r: Vec<(EntityIndex, &T)>)
        requires
            self.wf(),
        ensures
            r@.len() == self.dense_values@.len(),
            forall|k: int|
                0 <= k < r@.len() ==> (#[trigger] r@[k]).0 == self.dense_indices@[k] && *r@[k].1
                    == self.dense_values@[k],
    {
        let mut r: Vec<(EntityIndex, &T)> = Vec::new();
        let mut k: usize = 0;
        while k < self.dense_values.len()
            invariant
                self.wf(),
                0 <= k <= self.dense_values@.len(),
                r@.len() == k,
                forall|j: int|
                    0 <= j < k ==> (#[trigger] r@[j]).0 == self.dense_indices@[j] && *r@[j].1
                        == self.dense_values@[j],
            decreases self.dense_values@.len() - k,
        {
            r.push((self.dense_indices[k], &self.dense_values[k]));
            k = k + 1;
        }
        r
    }

    /// The dense entries cut into contiguous batches of at most `batch_size`:
    /// batch `b` holds the entries at dense positions `b * batch_size` and
    /// following. The batches partition the store without overlap.
    pub fn iter_entity_batch(&self, batch_size: usize) -> (r: Vec<Vec<(EntityIndex, &T)>>)
        requires
            self.wf(),
            batch_size > 0,
        ensures
            r@.len() * batch_size >= self.dense_values@.len(),
            forall|b: int|
                0 <= b < r@.len() ==> (#[trigger] r@[b])@.len() <= batch_size && b * batch_size
                    + r@[b]@.len() <= self.dense_values@.len(),
            forall|b: int|
                0 <= b < r@.len() ==> (b + 1 < r@.len() ==> (#[trigger] r@[b])@.len()
                    == batch_size) && (b + 1 == r@.len() ==> b * batch_size + r@[b]@.len()
                    == self.dense_values@.len()),
            forall|b: int, j: int|
                #![trigger r@[b]@[j]]
                0 <= b < r@.len() && 0 <= j < r@[b]@.len() ==> {
                    &&& r@[b]@[j].0 == self.dense_indices@[b * batch_size + j]
                    &&& *r@[b]@[j].1 == self.dense_values@[b * batch_size + j]
                },
            self.dense_values@.len() == 0 ==> r@.len() == 0,
    {
        let n = self.dense_values.len();
        let mut r: Vec<Vec<(EntityIndex, &T)>> = Vec::new();
        let mut start: usize = 0;
        proof {
            assert(r@.len() == 0);
            assert(r@.len() * batch_size == 0) by (nonlinear_arith)
                requires
                    r@.len() == 0,
            ;
        }
        while start < n
            invariant
                self.wf(),
                n == self.dense_values@.len(),
                batch_size > 0,
                0 <= start <= n,
                start == r@.len() * batch_size || (start == n && r@.len() * batch_size >= n),
                forall|b: int|
                    0 <= b < r@.len() ==> (#[trigger] r@[b])@.len() <= batch_size && b * batch_size
                        + r@[b]@.len() <= n,
                forall|b: int|
                    0 <= b < r@.len() ==> (b + 1 < r@.len() ==> (#[trigger] r@[b])@.len()
                        == batch_size) && (b + 1 == r@.len() ==> b * batch_size + r@[b]@.len()
                        == start),
                forall|b: int, j: int|
                    #![trigger r@[b]@[j]]
                    0 <= b < r@.len() && 0 <= j < r@[b]@.len() ==> {
                        &&& r@[b]@[j].0 == self.dense_indices@[b * batch_size + j]
                        &&& *r@[b]@[j].1 == self.dense_values@[b * batch_size + j]
                    },
                r@.len() > 0 ==> start > (r@.len() - 1) * batch_size,
            decreases n - start,
        {
            let ghost b0 = r@.len();
            let mut batch: Vec<(EntityIndex, &T)> = Vec::new();
            let mut k: usize = start;
            while k < n && k - start < batch_size
                invariant
                    self.wf(),
                    n == self.dense_values@.len(),
                    start <= k <= n,
                    k - start <= batch_size,
                    batch@.len() == k - start,
                    forall|j: int|
                        0 <= j < batch@.len() ==> {
                            &&& (#[trigger] batch@[j]).0 == self.dense_indices@[start + j]
                            &&& *batch@[j].1 == self.dense_values@[start + j]
                        },
                decreases n - k,
            {
                batch.push((self.dense_indices[k], &self.dense_values[k]));
                k = k + 1;
            }
            proof {
                assert(b0 * batch_size == start);
                assert((b0 + 1) * batch_size == b0 * batch_size + batch_size) by (nonlinear_arith);
                if b0 > 0 {
                    assert((b0 - 1) * batch_size + batch_size == b0 * batch_size)
                        by (nonlinear_arith);
                }
            }
            r.push(batch);
            start = k;
        }
        proof {
            if r@.len() > 0 {
                assert((r@.len() - 1) * batch_size + batch_size == r@.len() * batch_size)
                    by (nonlinear_arith);
            }
        }
        r
    }

    /// Apply `f` to every stored value in place, in dense order; the owning
    /// index of each value is handed to `f` beside it.
    pub fn iter_entity_mut<F: Fn(EntityIndex, &T) -> T>(&mut self, f: F)
        requires
            old(self).wf(),
            forall|k: int|
                0 <= k < old(self).dense_values@.len() ==> call_requires(
                    f,
                    (old(self).dense_indices@[k], &old(self).dense_values@[k]),
                ),
        ensures
            final(self).wf(),
            final(self).sparse_indices@ == old(self).sparse_indices@,
            final(self).dense_indices@ == old(self).dense_indices@,
            final(self).dense_values@.len() == old(self).dense_values@.len(),
            forall|k: int|
                0 <= k < old(self).dense_values@.len() ==> call_ensures(
                    f,
                    (old(self).dense_indices@[k], &old(self).dense_values@[k]),
                    #[trigger] final(self).dense_values@[k],
                ),
    {
        let mut k: usize = 0;
        while k < self.dense_values.len()
            invariant
                self.wf(),
                self.sparse_indices@ == old(self).sparse_indices@,
                self.dense_indices@ == old(self).dense_indices@,
                self.dense_values@.len() == old(self).dense_values@.len(),
                0 <= k <= self.dense_values@.len(),
                forall|j: int|
                    0 <= j < old(self).dense_values@.len() ==> call_requires(
                        f,
                        (old(self).dense_indices@[j], &old(self).dense_values@[j]),
                    ),
                forall|j: int|
                    k <= j < self.dense_values@.len() ==> #[trigger] self.dense_values@[j] == old(
                        self,
                    ).dense_values@[j],
                forall|j: int|
                    0 <= j < k ==> call_ensures(
                        f,
                        (old(self).dense_indices@[j], &old(self).dense_values@[j]),
                        #[trigger] self.dense_values@[j],
                    ),
            decreases self.dense_values@.len() - k,
        {
            let new_value = f(self.dense_indices[k], &self.dense_values[k]);
            self.dense_values.set(k, new_value);
            k = k + 1;
        }
    }

    /// Apply `f` to every stored value in place, in dense order.
    pub fn iter_mut<F: Fn(&T) -> T>(&mut self, f: F)
        requires
            old(self).wf(),
            forall|k: int|
                0 <= k < old(self).dense_values@.len() ==> call_requires(
                    f,
                    (&old(self).dense_values@[k],),
                ),
        ensures
            final(self).wf(),
            final(self).sparse_indices@ == old(self).sparse_indices@,
            final(self).dense_indices@ == old(self).dense_indices@,
            final(self).dense_values@.len() == old(self).dense_values@.len(),
            forall|k: int|
                0 <= k < old(self).dense_values@.len() ==> call_ensures(
                    f,
                    (&old(self).dense_values@[k],),
                    #[trigger] final(self).dense_values@[k],
                ),
    {
        let mut k: usize = 0;
        while k < self.dense_values.len()
            invariant
                self.wf(),
                self.sparse_indices@ == old(self).sparse_indices@,
                self.dense_indices@ == old(self).dense_indices@,
                self.dense_values@.len() == old(self).dense_values@.len(),
                0 <= k <= self.dense_values@.len(),
                forall|j: int|
                    0 <= j < old(self).dense_values@.len() ==> call_requires(
                        f,
                        (&old(self).dense_values@[j],),
                    ),
                forall|j: int|
                    k <= j < self.dense_values@.len() ==> #[trigger] self.dense_values@[j] == old(
                        self,
                    ).dense_values@[j],
                forall|j: int|
                    0 <= j < k ==> call_ensures(
                        f,
                        (&old(self).dense_values@[j],),
                        #[trigger] self.dense_values@[j],
                    ),
            decreases self.dense_values@.len() - k,
        {
            let new_value = f(&self.dense_values[k]);
            self.dense_values.set(k, new_value);
            k = k + 1;
        }
    }
}

impl<T: Default> DenseStore<T> {
    /// Rebuild the dense arrays in ascending index order. The stored contents
    /// are unchanged; only the dense layout is permuted.
    pub fn sort(&mut self)
        requires
            old(self).wf(),
        ensures
            final(self).wf(),
            final(self).spec_dom() == old(self).spec_dom(),
            final(self).spec_contents() == old(self).spec_contents(),
            forall|k1: int, k2: int|
                0 <= k1 < k2 < final(self).dense_indices@.len() ==> final(self).dense_indices@[k1]
                    < final(self).dense_indices@[k2],
    {
        let ghost old_self = *old(self);
        let mut new_dense_values: Vec<T> = Vec::new();
        let mut new_dense_indices: Vec<EntityIndex> = Vec::new();
        let mut i: usize = 0;
        while i < self.sparse_indices.len()
            invariant
                old_self == *old(self),
                old_self.wf(),
                self.dense_indices@ == old_self.dense_indices@,
                self.sparse_indices@.len() == old_self.sparse_indices@.len(),
                self.dense_values@.len() == old_self.dense_values@.len(),
                0 <= i <= self.sparse_indices@.len(),
                new_dense_values@.len() == new_dense_indices@.len(),
                new_dense_indices@.len() <= i,
                // unprocessed sparse entries and the values they point at are untouched
                forall|j: int|
                    i <= j < self.sparse_indices@.len() ==> #[trigger] self.sparse_indices@[j]
                        == old_self.sparse_indices@[j],
                forall|j: int|
                    i <= j < self.sparse_indices@.len() && old_self.sparse_indices@[j]
                        != SENTINEL_INDEX ==> #[trigger] self.dense_values@[old_self.sparse_indices@[j] as int]
                        == old_self.dense_values@[old_self.sparse_indices@[j] as int],
                // processed live entries moved into the new arrays
                forall|k: int|
                    0 <= k < new_dense_indices@.len() ==> (#[trigger] new_dense_indices@[k] as int)
                        < i && old_self.sparse_indices@[new_dense_indices@[k] as int]
                        != SENTINEL_INDEX && self.sparse_indices@[new_dense_indices@[k] as int]
                        == k && new_dense_values@[k]
                        == old_self.dense_values@[old_self.sparse_indices@[new_dense_indices@[k] as int] as int],
                forall|j: int|
                    0 <= j < i && old_self.sparse_indices@[j] != SENTINEL_INDEX ==> {
                        &&& (#[trigger] self.sparse_indices@[j] as int) < new_dense_indices@.len()
                        &&& new_dense_indices@[self.sparse_indices@[j] as int] == j
                    },
                forall|j: int|
                    0 <= j < i && old_self.sparse_indices@[j] == SENTINEL_INDEX
                        ==> #[trigger] self.sparse_indices@[j] == SENTINEL_INDEX,
                forall|k1: int, k2: int|
                    0 <= k1 < k2 < new_dense_indices@.len() ==> new_dense_indices@[k1]
                        < new_dense_indices@[k2],
            decreases self.sparse_indices@.len() - i,
        {
            let di = self.sparse_indices[i];
            if di != SENTINEL_INDEX {
                let new_pos = new_dense_indices.len();
                let mut element = T::default();
                self.dense_values.set_and_swap(di as usize, &mut element);
                new_dense_values.push(element);
                new_dense_indices.push(i as EntityIndex);
                self.sparse_indices.set(i, new_pos as u32);
                proof {
                    assert forall|j: int|
                        i + 1 <= j < self.sparse_indices@.len() && old_self.sparse_indices@[j]
                            != SENTINEL_INDEX implies #[trigger] self.dense_values@[old_self.sparse_indices@[j] as int]
                        == old_self.dense_values@[old_self.sparse_indices@[j] as int] by {
                        assert(old_self.dense_indices@[old_self.sparse_indices@[j] as int] == j);
                        assert(old_self.dense_indices@[old_self.sparse_indices@[i as int] as int]
                            == i as int);
                    }
                }
            }
            i = i + 1;
        }
        self.dense_values = new_dense_values;
        self.dense_indices = new_dense_indices;
        proof {
            assert forall|k: int| 0 <= k < self.dense_indices@.len() implies {
                let idx = #[trigger] self.dense_indices@[k];
                (idx as int) < self.sparse_indices@.len() && self.sparse_indices@[idx as int] == k
            } by {}
            assert(self.wf());
            assert(final(self).spec_dom() =~= old(self).spec_dom());
            assert(final(self).spec_contents() =~= old(self).spec_contents());
        }
    }
}

impl<T> GenericComponentStore for DenseStore<T> {
    open spec fn inv(&self) -> bool {
        self.wf()
    }

    open spec fn dom(&self) -> Set<EntityIndex> {
        self.spec_dom()
    }

    fn has(&self, index: EntityIndex) -> (r: bool) {
        (index as usize) < self.sparse_indices.len() && self.sparse_indices[index as usize]
            != SENTINEL_INDEX
    }

}

impl<T> ComponentStore<T> for DenseStore<T> {
    type ComponentType = T;

    open spec fn contents(&self) -> Map<EntityIndex, T> {
        self.spec_contents()
    }

    proof fn lemma_contents_dom(&self) {
        assert(self.spec_contents().dom() =~= self.spec_dom());
    }

    fn new() -> (r: Self) {
        let r = DenseStore {
            sparse_indices: Vec::new(),
            dense_indices: Vec::new(),
            dense_values: Vec::new(),
        };
        proof {
            assert(r.spec_contents() =~= Map::<EntityIndex, T>::empty());
            assert(r.spec_dom() =~= Set::<EntityIndex>::empty());
        }
        r
    }

    fn get(&self, index: EntityIndex) -> (r: Option<&T>) {
        if (index as usize) < self.sparse_indices.len() && self.sparse_indices[index as usize]
            != SENTINEL_INDEX {
            let di = self.sparse_indices[index as usize] as usize;
            Some(&self.dense_values[di])
        } else {
            None
        }
    }

    fn get_mut(&mut self, index: EntityIndex) -> (r: Option<&mut T>) {
        if (index as usize) < self.sparse_indices.len() && self.sparse_indices[index as usize]
            != SENTINEL_INDEX {
            let di = self.sparse_indices[index as usize] as usize;
            let v = &mut self.dense_values[di];
            Some(v)
        } else {
            None
        }
    }

    fn set(&mut self, index: EntityIndex, value: T) {
        let di = self.sparse_indices[index as usize] as usize;
        self.dense_values.set(di, value);
        proof {
            assert(final(self).spec_contents() =~= old(self).spec_contents().insert(index, value));
            assert(final(self).spec_dom() =~= old(self).spec_dom());
        }
    }

    /// Swap-remove: the last dense element moves into the freed offset and
    /// its sparse pointer is fixed; the freed index's sparse entry becomes
    /// the sentinel. O(1), reorders the dense arrays.
    fn rem(&mut self, index: EntityIndex)
        ensures
            final(self).spec_contents() == old(self).spec_contents().remove(index),
            final(self).sparse_indices@[index as int] == SENTINEL_INDEX,
            final(self).dense_values@.len() + 1 == old(self).dense_values@.len(),
            final(self).dense_indices@ == old(self).dense_indices@.update(
                old(self).sparse_indices@[index as int] as int,
                old(self).dense_indices@.last(),
            ).drop_last(),
            final(self).dense_values@ == old(self).dense_values@.update(
                old(self).sparse_indices@[index as int] as int,
                old(self).dense_values@.last(),
            ).drop_last(),
            ({
                let di = old(self).sparse_indices@[index as int] as int;
                di + 1 < old(self).dense_values@.len() ==> final(self).sparse_indices@[old(
                    self,
                ).dense_indices@.last() as int] == di
            }),
    {
        let di = self.sparse_indices[index as usize] as usize;
        let ghost old_self = *self;
        let _removed_value = self.dense_values.swap_remove(di);
        let _removed_index = self.dense_indices.swap_remove(di);
        if di < self.dense_indices.len() {
            let moved = self.dense_indices[di];
            proof {
                assert(moved == old_self.dense_indices@.last());
                assert(old_self.sparse_indices@[moved as int] == old_self.dense_indices@.len()
                    - 1);
                assert(moved != index);
            }
            self.sparse_indices.set(moved as usize, di as u32);
        }
        self.sparse_indices.set(index as usize, SENTINEL_INDEX);
        proof {
            let oldv = old_self;
            let n = oldv.dense_indices@.len() as int;
            let dii = oldv.sparse_indices@[index as int] as int;
            assert forall|k: int| 0 <= k < self.dense_indices@.len() implies {
                let i = #[trigger] self.dense_indices@[k];
                (i as int) < self.sparse_indices@.len() && self.sparse_indices@[i as int] == k
            } by {
                if k != dii {
                    assert(self.dense_indices@[k] == oldv.dense_indices@[k]);
                    assert(oldv.sparse_indices@[oldv.dense_indices@[k] as int] == k);
                    assert(oldv.dense_indices@[k] != index);
                    if dii < n - 1 {
                        assert(oldv.dense_indices@[k] != oldv.dense_indices@[n - 1]) by {
                            assert(oldv.sparse_indices@[oldv.dense_indices@[n - 1] as int] == n
                                - 1);
                        }
                    }
                }
            }
            assert(self.wf());
            assert(final(self).spec_contents() =~= old(self).spec_contents().remove(index));
            assert(final(self).spec_dom() =~= old(self).spec_dom().remove(index));
        }
    }

    /// The new entry is appended at the tail of the parallel dense arrays and
    /// the index's sparse entry points at that last dense slot; every other
    /// sparse entry is kept (entries grown to reach `index` hold the
    /// sentinel).
    fn add(&mut self, index: EntityIndex, value: T)
        ensures
            final(self).dense_indices@ == old(self).dense_indices@.push(index),
            final(self).dense_values@ == old(self).dense_values@.push(value),
            final(self).sparse_indices@.len() > index,
            final(self).sparse_indices@[index as int] == old(self).dense_indices@.len(),
            forall|i: int|
                0 <= i < old(self).sparse_indices@.len() && i != index
                    ==> final(self).sparse_indices@[i] == old(self).sparse_indices@[i],
            forall|i: int|
                old(self).sparse_indices@.len() <= i < final(self).sparse_indices@.len() && i
                    != index ==> final(self).sparse_indices@[i] == SENTINEL_INDEX,
    {
        self.assure_index(index);
        proof {
            self.lemma_dense_len_bound(index);
        }
        self.dense_values.push(value);
        self.dense_indices.push(index);
        let pos = self.dense_indices.len() - 1;
        self.sparse_indices.set(index as usize, pos as u32);
        proof {
            let ghost mid = old(self);
            assert forall|k: int| 0 <= k < self.dense_indices@.len() implies {
                let i = #[trigger] self.dense_indices@[k];
                (i as int) < self.sparse_indices@.len() && self.sparse_indices@[i as int] == k
            } by {
                if k < self.dense_indices@.len() - 1 {
                    assert(self.dense_indices@[k] != index);
                }
            }
            assert(self.wf());
            assert(final(self).spec_contents() =~= old(self).spec_contents().insert(index, value));
            assert(final(self).spec_dom() =~= old(self).spec_dom().insert(index));
        }
    }
}

} // verus!
