//! Paged-linear component storage.
//!
//! Values live in lazily allocated fixed-size pages (128 slots each), keyed
//! directly by entity index: the high bits of the index pick the page, the
//! low bits the slot. Each slot carries a used flag; each page carries a live
//! count so that iteration can skip empty pages. There is no compaction:
//! memory is proportional to the largest index used, page-granular.

use vstd::prelude::*;

use crate::component_storage::ComponentStore;
use crate::component_storage::GenericComponentStore;
use crate::handle::EntityIndex;

verus! {

pub const PAGE_EXPONENT: usize = 7;

pub const PAGE_SIZE: usize = 128;

pub const PAGE_MASK: usize = 127;

/// Most pages a store can hold: every 32-bit index fits in this many pages.
pub const MAX_PAGES: usize = 0x0200_0000;

/// The page holding `index`: the index's high bits.
pub fn get_page_index(index: EntityIndex, page_exponent: usize) -> (r: usize)
    requires
        page_exponent < usize::BITS as usize,
    ensures
        r == (index as usize) >> page_exponent,
{
    index as usize >> page_exponent
}

/// The slot of `index` within its page: the index's low bits.
pub fn get_page_offset(index: EntityIndex, page_mask: usize) -> (r: usize)
    ensures
        r == (index as usize) & page_mask,
{
    index as usize & page_mask
}

/// The low-bits mask belonging to a page exponent.
pub fn get_page_mask(page_exponent: usize) -> (r: usize)
    requires
        page_exponent < usize::BITS as usize,
    ensures
        r == !(usize::MAX << page_exponent),
{
    !(usize::MAX << page_exponent)
}

/// The page of an index, as arithmetic: division by the page size.
pub open spec fn page_of(i: EntityIndex) -> int {
    i as int / 128
}

/// The in-page offset of an index, as arithmetic: remainder by the page size.
pub open spec fn offset_of(i: EntityIndex) -> int {
    i as int % 128
}

/// The bit-level page split equals the arithmetic one.
proof fn lemma_split7(x: usize)
    ensures
        x >> 7usize == x / 128,
        x & 127usize == x % 128,
{
    vstd::bits::lemma_usize_shr_is_div(x, 7);
    vstd::bits::lemma_usize_low_bits_mask_is_mod(x, 7);
    vstd::arithmetic::power2::lemma2_to64();
    vstd::bits::lemma_low_bits_mask_values();
}

/// Every index is its page times the page size plus its offset; pages and
/// offsets are in range.
proof fn lemma_split_identity()
    ensures
        forall|j: EntityIndex| #[trigger] page_of(j) * 128 + offset_of(j) == j as int,
        forall|j: EntityIndex| 0 <= #[trigger] offset_of(j) < 128,
        forall|j: EntityIndex| 0 <= #[trigger] page_of(j) < 0x0200_0000,
{
}

/// `v` is a placeholder: a possible result of the component type's default.
pub open spec fn is_placeholder<T: Default>(v: T) -> bool {
    call_ensures(T::default, (), v)
}

/// How many entries of `s` are set.
pub open spec fn count_true(s: Seq<bool>) -> int
    decreases s.len(),
{
    if s.len() == 0 {
        0
    } else {
        count_true(s.drop_last()) + if s.last() {
            1int
        } else {
            0int
        }
    }
}

proof fn lemma_count_true_bounds(s: Seq<bool>)
    ensures
        0 <= count_true(s) <= s.len(),
    decreases s.len(),
{
    if s.len() > 0 {
        lemma_count_true_bounds(s.drop_last());
    }
}

proof fn lemma_count_true_update(s: Seq<bool>, k: int, v: bool)
    requires
        0 <= k < s.len(),
    ensures
        count_true(s.update(k, v)) == count_true(s) + (if v {
            1int
        } else {
            0int
        }) - (if s[k] {
            1int
        } else {
            0int
        }),
    decreases s.len(),
{
    if k == s.len() - 1 {
        assert(s.update(k, v).drop_last() =~= s.drop_last());
    } else {
        assert(s.update(k, v).drop_last() =~= s.drop_last().update(k, v));
        lemma_count_true_update(s.drop_last(), k, v);
    }
}

proof fn lemma_count_true_pos(s: Seq<bool>, k: int)
    requires
        0 <= k < s.len(),
        s[k],
    ensures
        count_true(s) >= 1,
    decreases s.len(),
{
    if k == s.len() - 1 {
        lemma_count_true_bounds(s.drop_last());
    } else {
        lemma_count_true_pos(s.drop_last(), k);
    }
}

proof fn lemma_count_true_zero(s: Seq<bool>)
    requires
        forall|k: int| 0 <= k < s.len() ==> !s[k],
    ensures
        count_true(s) == 0,
    decreases s.len(),
{
    if s.len() > 0 {
        lemma_count_true_zero(s.drop_last());
    }
}

/// One fixed-size page: values, used flags, and a live count.
pub struct Page<T> {
    pub slots: Vec<T>,
    pub slot_used: Vec<bool>,
    pub len: usize,
}

impl<T> Page<T> {
    /// Both arrays span the whole page and the live count matches the flags.
    pub open spec fn wf(self) -> bool {
        &&& self.slots@.len() == 128
        &&& self.slot_used@.len() == 128
        &&& self.len == count_true(self.slot_used@)
    }
}

impl<T: Default> Page<T> {
    /// A fresh page: all slots unused, filled with placeholder values.
    pub fn new() -> (r: Page<T>)
        ensures
            r.wf(),
            r.len == 0,
            forall|o: int| 0 <= o < 128 ==> !r.slot_used@[o],
    {
        let mut slots: Vec<T> = Vec::new();
        let mut slot_used: Vec<bool> = Vec::new();
        let mut k: usize = 0;
        while k < PAGE_SIZE
            invariant
                0 <= k <= 128,
                slots@.len() == k,
                slot_used@.len() == k,
                forall|o: int| 0 <= o < k ==> !slot_used@[o],
            decreases 128 - k,
        {
            slots.push(T::default());
            slot_used.push(false);
            k = k + 1;
        }
        proof {
            lemma_count_true_zero(slot_used@);
        }
        Page { slots, slot_used, len: 0 }
    }
}

pub struct LinearStore<T> {
    pub pages: Vec<Page<T>>,
}

impl<T> LinearStore<T> {
    pub open spec fn wf(self) -> bool {
        &&& self.pages@.len() <= MAX_PAGES
        &&& (forall|p: int| 0 <= p < self.pages@.len() ==> (#[trigger] self.pages@[p]).wf())
    }

    /// A page/offset pair addresses a used slot.
    pub open spec fn spec_has_split(self, page_index: int, page_offset: int) -> bool {
        &&& 0 <= page_index < self.pages@.len()
        &&& 0 <= page_offset < 128
        &&& self.pages@[page_index].slot_used@[page_offset]
    }

    /// `index` holds a component.
    pub open spec fn spec_has(self, index: EntityIndex) -> bool {
        self.spec_has_split(page_of(index), offset_of(index))
    }

    pub open spec fn spec_dom(self) -> Set<EntityIndex> {
        Set::new(|i: EntityIndex| self.spec_has(i))
    }

    pub open spec fn spec_contents(self) -> Map<EntityIndex, T> {
        Map::new(
            |i: EntityIndex| self.spec_has(i),
            |i: EntityIndex| self.pages@[page_of(i)].slots@[offset_of(i)],
        )
    }

    /// Split presence check on an already computed page and offset.
    pub fn has_split(&self, page_index: usize, page_offset: usize) -> (r: bool)
        requires
            self.wf(),
            page_offset < 128,
        ensures
            r == self.spec_has_split(page_index as int, page_offset as int),
    {
        page_index < self.pages.len() && self.pages[page_index].slot_used[page_offset]
    }
}

impl<T> LinearStore<T> {
    /// The present entries whose index lies in `[a, b)`, in ascending index
    /// order, each paired with its stored value.
    pub open spec fn entries_between(self, a: int, b: int) -> Seq<(EntityIndex, T)>
        decreases b - a,
    {
        if a >= b {
            Seq::empty()
        } else {
            self.entries_between(a, b - 1) + if 0 <= b - 1 < 0x1_0000_0000 && self.spec_has(
                (b - 1) as EntityIndex,
            ) {
                seq![
                    (
                        (b - 1) as EntityIndex,
                        self.pages@[page_of((b - 1) as EntityIndex)].slots@[offset_of(
                            (b - 1) as EntityIndex,
                        )],
                    ),
                ]
            } else {
                Seq::empty()
            }
        }
    }

    /// All present entries, in ascending index order.
    pub open spec fn entries(self) -> Seq<(EntityIndex, T)> {
        self.entries_between(0, self.pages@.len() as int * 128)
    }

    proof fn lemma_entries_concat(self, a: int, b: int, c: int)
        requires
            a <= b <= c,
        ensures
            self.entries_between(a, c) == self.entries_between(a, b) + self.entries_between(b, c),
        decreases c - b,
    {
        if b == c {
            assert(self.entries_between(a, b) + self.entries_between(b, c)
                =~= self.entries_between(a, c));
        } else {
            self.lemma_entries_concat(a, b, c - 1);
            assert(self.entries_between(a, b) + self.entries_between(b, c)
                =~= self.entries_between(a, c));
        }
    }

    proof fn lemma_entries_empty_range(self, a: int, b: int)
        requires
            a <= b,
            forall|g: int|
                a <= g < b && 0 <= g < 0x1_0000_0000 ==> !self.spec_has(
                    #[trigger] (g as EntityIndex),
                ),
        ensures
            self.entries_between(a, b).len() == 0,
        decreases b - a,
    {
        if a < b {
            self.lemma_entries_empty_range(a, b - 1);
        }
    }

    /// The present index/value pairs, in ascending index order.
    pub fn iter_entity(&self) -> (r: Vec<(EntityIndex, &T)>)
        requires
            self.wf(),
        ensures
            r@.len() == self.entries().len(),
            forall|k: int|
                0 <= k < r@.len() ==> (#[trigger] r@[k]).0 == self.entries()[k].0 && *r@[k].1
                    == self.entries()[k].1,
    {
        proof {
            lemma_split_identity();
        }
        let mut r: Vec<(EntityIndex, &T)> = Vec::new();
        let mut p: usize = 0;
        while p < self.pages.len()
            invariant
                self.wf(),
                0 <= p <= self.pages@.len(),
                r@.len() == self.entries_between(0, p as int * 128).len(),
                forall|k: int|
                    0 <= k < r@.len() ==> (#[trigger] r@[k]).0 == self.entries_between(
                        0,
                        p as int * 128,
                    )[k].0 && *r@[k].1 == self.entries_between(0, p as int * 128)[k].1,
            decreases self.pages@.len() - p,
        {
            if self.pages[p].len > 0 {
                let mut o: usize = 0;
                while o < PAGE_SIZE
                    invariant
                        self.wf(),
                        0 <= p < self.pages@.len(),
                        0 <= o <= 128,
                        r@.len() == self.entries_between(0, p as int * 128 + o).len(),
                        forall|k: int|
                            0 <= k < r@.len() ==> (#[trigger] r@[k]).0 == self.entries_between(
                                0,
                                p as int * 128 + o,
                            )[k].0 && *r@[k].1 == self.entries_between(0, p as int * 128 + o)[k].1,
                    decreases 128 - o,
                {
                    let ghost g = p as int * 128 + o;
                    proof {
                        assert(page_of((g) as EntityIndex) == p && offset_of((g) as EntityIndex)
                            == o) by {
                            lemma_split_identity();
                            assert(g < 0x1_0000_0000);
                            assert((g as EntityIndex) as int == g);
                        }
                        assert(self.entries_between(0, g + 1) == self.entries_between(0, g)
                            + self.entries_between(g, g + 1)) by {
                            self.lemma_entries_concat(0, g, g + 1);
                        }
                    }
                    if self.pages[p].slot_used[o] {
                        let index = (p * PAGE_SIZE + o) as EntityIndex;
                        r.push((index, &self.pages[p].slots[o]));
                    }
                    o = o + 1;
                }
            } else {
                proof {
                    assert forall|o: int| 0 <= o < 128 implies !self.pages@[p as int].slot_used@[o]
                    by {
                        if self.pages@[p as int].slot_used@[o] {
                            lemma_count_true_pos(self.pages@[p as int].slot_used@, o);
                        }
                    }
                    assert forall|g: int|
                        p as int * 128 <= g < (p as int + 1) * 128 && 0 <= g
                            < 0x1_0000_0000 implies !self.spec_has(#[trigger] (g as EntityIndex)) by {
                        lemma_split_identity();
                        assert((g as EntityIndex) as int == g);
                        assert(page_of(g as EntityIndex) == p as int);
                        assert(offset_of(g as EntityIndex) == g - p as int * 128);
                    }
                    self.lemma_entries_empty_range(p as int * 128, (p as int + 1) * 128);
                    self.lemma_entries_concat(0, p as int * 128, (p as int + 1) * 128);
                    assert(self.entries_between(0, (p as int + 1) * 128) =~= self.entries_between(
                        0,
                        p as int * 128,
                    ));
                }
            }
            p = p + 1;
        }
        r
    }

    /// The present values, in ascending index order.
    pub fn iter(&self) -> (r: Vec<&T>)
        requires
            self.wf(),
        ensures
            r@.len() == self.entries().len(),
            forall|k: int| 0 <= k < r@.len() ==> *(#[trigger] r@[k]) == self.entries()[k].1,
    {
        let es = self.iter_entity();
        let mut r: Vec<&T> = Vec::new();
        let mut k: usize = 0;
        while k < es.len()
            invariant
                es@.len() == self.entries().len(),
                forall|j: int|
                    0 <= j < es@.len() ==> (#[trigger] es@[j]).0 == self.entries()[j].0 && *es@[j].1
                        == self.entries()[j].1,
                0 <= k <= es@.len(),
                r@.len() == k,
                forall|j: int| 0 <= j < k ==> *(#[trigger] r@[j]) == self.entries()[j].1,
            decreases es@.len() - k,
        {
            r.push(es[k].1);
            k = k + 1;
        }
        r
    }

    /// The present entries cut into contiguous batches of at most
    /// `batch_size`, in ascending index order: batch `b` holds the entries at
    /// positions `b * batch_size` and following of the entry sequence. The
    /// batches partition the store's live entries without overlap; a page
    /// holding more live entries than `batch_size` is split across batches.
    pub fn iter_entity_batch(&self, batch_size: usize) -> (r: Vec<Vec<(EntityIndex, &T)>>)
        requires
            self.wf(),
            batch_size > 0,
        ensures
            r@.len() * batch_size >= self.entries().len(),
            self.entries().len() == 0 ==> r@.len() == 0,
            forall|b: int|
                0 <= b < r@.len() ==> (#[trigger] r@[b])@.len() <= batch_size && b * batch_size
                    + r@[b]@.len() <= self.entries().len(),
            forall|b: int|
                0 <= b < r@.len() ==> (b + 1 < r@.len() ==> (#[trigger] r@[b])@.len()
                    == batch_size) && (b + 1 == r@.len() ==> b * batch_size + r@[b]@.len()
                    == self.entries().len()),
            forall|b: int, j: int|
                #![trigger r@[b]@[j]]
                0 <= b < r@.len() && 0 <= j < r@[b]@.len() ==> {
                    &&& r@[b]@[j].0 == self.entries()[b * batch_size + j].0
                    &&& *r@[b]@[j].1 == self.entries()[b * batch_size + j].1
                },
    {
        let es = self.iter_entity();
        let n = es.len();
        let mut r: Vec<Vec<(EntityIndex, &T)>> = Vec::new();
        let mut start: usize = 0;
        proof {
            assert(r@.len() == 0);
            assert(r@.len() * batch_size == 0) by (nonlinear_arith)
                requires
                    r@.len() == 0,
            ;
        }
        while start < n
            invariant
                batch_size > 0,
                n == es@.len(),
                es@.len() == self.entries().len(),
                forall|k: int|
                    0 <= k < es@.len() ==> (#[trigger] es@[k]).0 == self.entries()[k].0 && *es@[k].1
                        == self.entries()[k].1,
                0 <= start <= n,
                start == r@.len() * batch_size || (start == n && r@.len() * batch_size >= n),
                forall|b: int|
                    0 <= b < r@.len() ==> (#[trigger] r@[b])@.len() <= batch_size && b * batch_size
                        + r@[b]@.len() <= n,
                forall|b: int|
                    0 <= b < r@.len() ==> (b + 1 < r@.len() ==> (#[trigger] r@[b])@.len()
                        == batch_size) && (b + 1 == r@.len() ==> b * batch_size + r@[b]@.len()
                        == start),
                forall|b: int, j: int|
                    #![trigger r@[b]@[j]]
                    0 <= b < r@.len() && 0 <= j < r@[b]@.len() ==> {
                        &&& r@[b]@[j].0 == self.entries()[b * batch_size + j].0
                        &&& *r@[b]@[j].1 == self.entries()[b * batch_size + j].1
                    },
                r@.len() > 0 ==> start > (r@.len() - 1) * batch_size,
            decreases n - start,
        {
            let ghost b0 = r@.len();
            let mut batch: Vec<(EntityIndex, &T)> = Vec::new();
            let mut k: usize = start;
            while k < n && k - start < batch_size
                invariant
                    n == es@.len(),
                    es@.len() == self.entries().len(),
                    forall|m: int|
                        0 <= m < es@.len() ==> (#[trigger] es@[m]).0 == self.entries()[m].0
                            && *es@[m].1 == self.entries()[m].1,
                    start <= k <= n,
                    k - start <= batch_size,
                    batch@.len() == k - start,
                    forall|j: int|
                        0 <= j < batch@.len() ==> {
                            &&& (#[trigger] batch@[j]).0 == self.entries()[start + j].0
                            &&& *batch@[j].1 == self.entries()[start + j].1
                        },
                decreases n - k,
            {
                batch.push(es[k]);
                k = k + 1;
            }
            proof {
                assert(b0 * batch_size == start);
                assert((b0 + 1) * batch_size == b0 * batch_size + batch_size) by (nonlinear_arith);
                if b0 > 0 {
                    assert((b0 - 1) * batch_size + batch_size == b0 * batch_size)
                        by (nonlinear_arith);
                }
            }
            r.push(batch);
            start = k;
        }
        proof {
            if r@.len() > 0 {
                assert((r@.len() - 1) * batch_size + batch_size == r@.len() * batch_size)
                    by (nonlinear_arith);
            }
        }
        r
    }
}

impl<T> LinearStore<T> {
    /// Apply `f` to every present value in place, in ascending index order;
    /// the owning index is handed to `f` beside the value.
    pub fn iter_entity_mut<F: Fn(EntityIndex, &T) -> T>(&mut self, f: F)
        requires
            old(self).wf(),
            forall|i: EntityIndex|
                old(self).spec_has(i) ==> call_requires(f, (i, &old(self).spec_contents()[i])),
        ensures
            final(self).wf(),
            final(self).pages@.len() == old(self).pages@.len(),
            final(self).spec_dom() == old(self).spec_dom(),
            forall|i: EntityIndex|
                old(self).spec_has(i) ==> call_ensures(
                    f,
                    (i, &old(self).spec_contents()[i]),
                    #[trigger] final(self).spec_contents()[i],
                ),
    {
        proof {
            lemma_split_identity();
        }
        let mut p: usize = 0;
        while p < self.pages.len()
            invariant
                self.wf(),
                old(self).wf(),
                self.pages@.len() == old(self).pages@.len(),
                0 <= p <= self.pages@.len(),
                forall|i: EntityIndex|
                    old(self).spec_has(i) ==> call_requires(f, (i, &old(self).spec_contents()[i])),
                forall|q: int|
                    0 <= q < self.pages@.len() ==> (#[trigger] self.pages@[q]).slot_used@ == old(
                        self,
                    ).pages@[q].slot_used@ && self.pages@[q].len == old(self).pages@[q].len,
                forall|q: int|
                    p <= q < self.pages@.len() ==> (#[trigger] self.pages@[q]).slots@ == old(
                        self,
                    ).pages@[q].slots@,
                forall|q: int, s: int|
                    #![trigger self.pages@[q].slots@[s]]
                    0 <= q < p && 0 <= s < 128 && old(self).pages@[q].slot_used@[s]
                        ==> call_ensures(
                        f,
                        ((q * 128 + s) as EntityIndex, &old(self).pages@[q].slots@[s]),
                        self.pages@[q].slots@[s],
                    ),
            decreases self.pages@.len() - p,
        {
            let mut o: usize = 0;
            while o < PAGE_SIZE
                invariant
                    self.wf(),
                    old(self).wf(),
                    self.pages@.len() == old(self).pages@.len(),
                    0 <= p < self.pages@.len(),
                    0 <= o <= 128,
                    forall|i: EntityIndex|
                        old(self).spec_has(i) ==> call_requires(
                            f,
                            (i, &old(self).spec_contents()[i]),
                        ),
                    forall|q: int|
                        0 <= q < self.pages@.len() ==> (#[trigger] self.pages@[q]).slot_used@
                            == old(self).pages@[q].slot_used@ && self.pages@[q].len == old(
                            self,
                        ).pages@[q].len,
                    forall|q: int|
                        p < q < self.pages@.len() ==> (#[trigger] self.pages@[q]).slots@ == old(
                            self,
                        ).pages@[q].slots@,
                    forall|s: int|
                        o <= s < 128 ==> #[trigger] self.pages@[p as int].slots@[s] == old(
                            self,
                        ).pages@[p as int].slots@[s],
                    forall|q: int, s: int|
                        #![trigger self.pages@[q].slots@[s]]
                        0 <= q < p && 0 <= s < 128 && old(self).pages@[q].slot_used@[s]
                            ==> call_ensures(
                            f,
                            ((q * 128 + s) as EntityIndex, &old(self).pages@[q].slots@[s]),
                            self.pages@[q].slots@[s],
                        ),
                    forall|s: int|
                        #![trigger self.pages@[p as int].slots@[s]]
                        0 <= s < o && old(self).pages@[p as int].slot_used@[s] ==> call_ensures(
                            f,
                            ((p as int * 128 + s) as EntityIndex, &old(self).pages@[p as int].slots@[s]),
                            self.pages@[p as int].slots@[s],
                        ),
                decreases 128 - o,
            {
                if self.pages[p].slot_used[o] {
                    let index = (p * PAGE_SIZE + o) as EntityIndex;
                    proof {
                        lemma_split_identity();
                        assert(p * PAGE_SIZE + o < 0x1_0000_0000);
                        assert(index as int == p as int * 128 + o);
                        assert(page_of(index) == p as int && offset_of(index) == o as int);
                        assert(old(self).spec_has(index));
                        assert(old(self).spec_contents()[index] == old(
                            self,
                        ).pages@[p as int].slots@[o as int]);
                    }
                    let new_value = f(index, &self.pages[p].slots[o]);
                    let page = &mut self.pages[p];
                    page.slots.set(o, new_value);
                }
                o = o + 1;
            }
            p = p + 1;
        }
        proof {
            assert(final(self).spec_dom() =~= old(self).spec_dom());
            assert forall|i: EntityIndex| old(self).spec_has(i) implies call_ensures(
                f,
                (i, &old(self).spec_contents()[i]),
                #[trigger] final(self).spec_contents()[i],
            ) by {
                let q = page_of(i);
                let s = offset_of(i);
                assert(q * 128 + s == i as int);
                assert((q * 128 + s) as EntityIndex == i);
                assert(self.pages@[q].slot_used@ == old(self).pages@[q].slot_used@);
                assert(old(self).pages@[q].slot_used@[s]);
                assert(final(self).spec_contents()[i] == self.pages@[q].slots@[s]);
            }
        }
    }

    /// Apply `f` to every present value in place, in ascending index order.
    pub fn iter_mut<F: Fn(&T) -> T>(&mut self, f: F)
        requires
            old(self).wf(),
            forall|i: EntityIndex|
                old(self).spec_has(i) ==> call_requires(f, (&old(self).spec_contents()[i],)),
        ensures
            final(self).wf(),
            final(self).pages@.len() == old(self).pages@.len(),
            final(self).spec_dom() == old(self).spec_dom(),
            forall|i: EntityIndex|
                old(self).spec_has(i) ==> call_ensures(
                    f,
                    (&old(self).spec_contents()[i],),
                    #[trigger] final(self).spec_contents()[i],
                ),
    {
        proof {
            lemma_split_identity();
        }
        let mut p: usize = 0;
        while p < self.pages.len()
            invariant
                self.wf(),
                old(self).wf(),
                self.pages@.len() == old(self).pages@.len(),
                0 <= p <= self.pages@.len(),
                forall|i: EntityIndex|
                    old(self).spec_has(i) ==> call_requires(f, (&old(self).spec_contents()[i],)),
                forall|q: int|
                    0 <= q < self.pages@.len() ==> (#[trigger] self.pages@[q]).slot_used@ == old(
                        self,
                    ).pages@[q].slot_used@ && self.pages@[q].len == old(self).pages@[q].len,
                forall|q: int|
                    p <= q < self.pages@.len() ==> (#[trigger] self.pages@[q]).slots@ == old(
                        self,
                    ).pages@[q].slots@,
                forall|q: int, s: int|
                    #![trigger self.pages@[q].slots@[s]]
                    0 <= q < p && 0 <= s < 128 && old(self).pages@[q].slot_used@[s]
                        ==> call_ensures(
                        f,
                        (&old(self).pages@[q].slots@[s],),
                        self.pages@[q].slots@[s],
                    ),
            decreases self.pages@.len() - p,
        {
            let mut o: usize = 0;
            while o < PAGE_SIZE
                invariant
                    self.wf(),
                    old(self).wf(),
                    self.pages@.len() == old(self).pages@.len(),
                    0 <= p < self.pages@.len(),
                    0 <= o <= 128,
                    forall|i: EntityIndex|
                        old(self).spec_has(i) ==> call_requires(
                            f,
                            (&old(self).spec_contents()[i],),
                        ),
                    forall|q: int|
                        0 <= q < self.pages@.len() ==> (#[trigger] self.pages@[q]).slot_used@
                            == old(self).pages@[q].slot_used@ && self.pages@[q].len == old(
                            self,
                        ).pages@[q].len,
                    forall|q: int|
                        p < q < self.pages@.len() ==> (#[trigger] self.pages@[q]).slots@ == old(
                            self,
                        ).pages@[q].slots@,
                    forall|s: int|
                        o <= s < 128 ==> #[trigger] self.pages@[p as int].slots@[s] == old(
                            self,
                        ).pages@[p as int].slots@[s],
                    forall|q: int, s: int|
                        #![trigger self.pages@[q].slots@[s]]
                        0 <= q < p && 0 <= s < 128 && old(self).pages@[q].slot_used@[s]
                            ==> call_ensures(
                            f,
                            (&old(self).pages@[q].slots@[s],),
                            self.pages@[q].slots@[s],
                        ),
                    forall|s: int|
                        #![trigger self.pages@[p as int].slots@[s]]
                        0 <= s < o && old(self).pages@[p as int].slot_used@[s] ==> call_ensures(
                            f,
                            (&old(self).pages@[p as int].slots@[s],),
                            self.pages@[p as int].slots@[s],
                        ),
                decreases 128 - o,
            {
                if self.pages[p].slot_used[o] {
                    proof {
                        lemma_split_identity();
                        let ghost index = (p as int * 128 + o) as EntityIndex;
                        assert(p as int * 128 + o < 0x1_0000_0000);
                        assert(index as int == p as int * 128 + o);
                        assert(page_of(index) == p as int && offset_of(index) == o as int);
                        assert(old(self).spec_has(index));
                        assert(old(self).spec_contents()[index] == old(
                            self,
                        ).pages@[p as int].slots@[o as int]);
                    }
                    let new_value = f(&self.pages[p].slots[o]);
                    let page = &mut self.pages[p];
                    page.slots.set(o, new_value);
                }
                o = o + 1;
            }
            p = p + 1;
        }
        proof {
            assert(final(self).spec_dom() =~= old(self).spec_dom());
            assert forall|i: EntityIndex| old(self).spec_has(i) implies call_ensures(
                f,
                (&old(self).spec_contents()[i],),
                #[trigger] final(self).spec_contents()[i],
            ) by {
                let q = page_of(i);
                let s = offset_of(i);
                assert(q * 128 + s == i as int);
                assert((q * 128 + s) as EntityIndex == i);
                assert(self.pages@[q].slot_used@ == old(self).pages@[q].slot_used@);
                assert(old(self).pages@[q].slot_used@[s]);
                assert(final(self).spec_contents()[i] == self.pages@[q].slots@[s]);
            }
        }
    }
}

impl<T: Default> LinearStore<T> {
    /// Grow the page list with empty pages until `page_index` exists.
    fn assure_page(&mut self, page_index: usize)
        requires
            old(self).wf(),
            page_index < MAX_PAGES,
        ensures
            final(self).wf(),
            final(self).pages@.len() > page_index,
            final(self).pages@.len() >= old(self).pages@.len(),
            forall|p: int|
                0 <= p < old(self).pages@.len() ==> final(self).pages@[p] == old(self).pages@[p],
            forall|p: int|
                old(self).pages@.len() <= p < final(self).pages@.len() ==> {
                    &&& (#[trigger] final(self).pages@[p]).wf()
                    &&& final(self).pages@[p].len == 0
                    &&& forall|o: int| 0 <= o < 128 ==> !final(self).pages@[p].slot_used@[o]
                },
            final(self).spec_dom() == old(self).spec_dom(),
            final(self).spec_contents() == old(self).spec_contents(),
    {
        let ghost len0 = self.pages@.len();
        while self.pages.len() <= page_index
            invariant
                page_index < MAX_PAGES,
                self.pages@.len() >= len0,
                self.pages@.len() <= page_index + 1 || self.pages@.len() == len0,
                forall|p: int| 0 <= p < len0 ==> self.pages@[p] == old(self).pages@[p],
                len0 == old(self).pages@.len(),
                forall|p: int|
                    len0 <= p < self.pages@.len() ==> {
                        &&& (#[trigger] self.pages@[p]).wf()
                        &&& self.pages@[p].len == 0
                        &&& forall|o: int| 0 <= o < 128 ==> !self.pages@[p].slot_used@[o]
                    },
            decreases page_index + 1 - self.pages@.len(),
        {
            self.pages.push(Page::new());
        }
        proof {
            lemma_split_identity();
            assert(final(self).spec_dom() =~= old(self).spec_dom());
            assert(final(self).spec_contents() =~= old(self).spec_contents());
        }
    }
}

impl<T: Default> GenericComponentStore for LinearStore<T> {
    open spec fn inv(&self) -> bool {
        self.wf()
    }

    open spec fn dom(&self) -> Set<EntityIndex> {
        self.spec_dom()
    }

    fn has(&self, index: EntityIndex) -> (r: bool) {
        let page_index = get_page_index(index, PAGE_EXPONENT);
        let page_offset = get_page_offset(index, PAGE_MASK);
        proof {
            lemma_split7(index as usize);
        }
        self.has_split(page_index, page_offset)
    }

}

impl<T: Default> ComponentStore<T> for LinearStore<T> {
    type ComponentType = T;

    open spec fn contents(&self) -> Map<EntityIndex, T> {
        self.spec_contents()
    }

    proof fn lemma_contents_dom(&self) {
        assert(self.spec_contents().dom() =~= self.spec_dom());
    }

    fn new() -> (r: Self) {
        let r = LinearStore { pages: Vec::new() };
        proof {
            assert(r.spec_contents() =~= Map::<EntityIndex, T>::empty());
            assert(r.spec_dom() =~= Set::<EntityIndex>::empty());
        }
        r
    }

    fn get(&self, index: EntityIndex) -> (r: Option<&T>) {
        let page_index = get_page_index(index, PAGE_EXPONENT);
        let page_offset = get_page_offset(index, PAGE_MASK);
        proof {
            lemma_split7(index as usize);
        }
        if self.has_split(page_index, page_offset) {
            Some(&self.pages[page_index].slots[page_offset])
        } else {
            None
        }
    }

    fn get_mut(&mut self, index: EntityIndex) -> (r: Option<&mut T>) {
        let page_index = get_page_index(index, PAGE_EXPONENT);
        let page_offset = get_page_offset(index, PAGE_MASK);
        proof {
            lemma_split7(index as usize);
            lemma_split_identity();
        }
        if page_index < self.pages.len() && self.pages[page_index].slot_used[page_offset] {
            let v = &mut self.pages[page_index].slots[page_offset];
            Some(v)
        } else {
            None
        }
    }

    /// Clear the slot in place — no other slot moves: the value reverts to
    /// the placeholder, the used flag falls, the page's live count drops by
    /// one, and every other page is untouched.
    fn rem(&mut self, index: EntityIndex)
        ensures
            final(self).spec_contents() == old(self).spec_contents().remove(index),
            final(self).pages@.len() == old(self).pages@.len(),
            ({
                let p = page_of(index);
                let o = offset_of(index);
                &&& final(self).pages@[p].len + 1 == old(self).pages@[p].len
                &&& !final(self).pages@[p].slot_used@[o]
                &&& is_placeholder::<T>(final(self).pages@[p].slots@[o])
                &&& forall|s: int|
                    0 <= s < 128 && s != o ==> final(self).pages@[p].slots@[s] == old(
                        self,
                    ).pages@[p].slots@[s] && final(self).pages@[p].slot_used@[s] == old(
                        self,
                    ).pages@[p].slot_used@[s]
            }),
            forall|q: int|
                0 <= q < old(self).pages@.len() && q != page_of(index)
                    ==> #[trigger] final(self).pages@[q] == old(self).pages@[q],
    {
        let page_index = get_page_index(index, PAGE_EXPONENT);
        let page_offset = get_page_offset(index, PAGE_MASK);
        proof {
            lemma_split7(index as usize);
            lemma_split_identity();
            lemma_count_true_pos(self.pages@[page_index as int].slot_used@, page_offset as int);
            lemma_count_true_update(
                self.pages@[page_index as int].slot_used@,
                page_offset as int,
                false,
            );
        }
        let page = &mut self.pages[page_index];
        page.slots.set(page_offset, T::default());
        page.slot_used.set(page_offset, false);
        let new_len = page.len - 1;
        page.len = new_len;
        proof {
            assert(final(self).spec_dom() =~= old(self).spec_dom().remove(index));
            assert(final(self).spec_contents() =~= old(self).spec_contents().remove(index));
        }
    }

    fn set(&mut self, index: EntityIndex, value: T) {
        let page_index = get_page_index(index, PAGE_EXPONENT);
        let page_offset = get_page_offset(index, PAGE_MASK);
        proof {
            lemma_split7(index as usize);
            lemma_split_identity();
        }
        let page = &mut self.pages[page_index];
        page.slots.set(page_offset, value);
        proof {
            assert(final(self).spec_dom() =~= old(self).spec_dom());
            assert(final(self).spec_contents() =~= old(self).spec_contents().insert(index, value));
        }
    }

    fn add(&mut self, index: EntityIndex, value: T) {
        let page_index = get_page_index(index, PAGE_EXPONENT);
        let page_offset = get_page_offset(index, PAGE_MASK);
        proof {
            lemma_split7(index as usize);
            lemma_split_identity();
        }
        self.assure_page(page_index);
        proof {
            lemma_count_true_bounds(self.pages@[page_index as int].slot_used@);
            lemma_count_true_update(
                self.pages@[page_index as int].slot_used@,
                page_offset as int,
                true,
            );
        }
        let page = &mut self.pages[page_index];
        page.slots.set(page_offset, value);
        page.slot_used.set(page_offset, true);
        let new_len = page.len + 1;
        page.len = new_len;
        proof {
            assert(final(self).spec_dom() =~= old(self).spec_dom().insert(index));
            assert(final(self).spec_contents() =~= old(self).spec_contents().insert(index, value));
        }
    }
}

} // verus!
