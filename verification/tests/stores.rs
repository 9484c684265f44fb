use eisen::component_storage::Component;
use eisen::component_storage::ComponentStore;
use eisen::component_storage::GenericComponentStore;
use eisen::dense_store::DenseStore;
use eisen::linear_store::get_page_index;
use eisen::linear_store::get_page_mask;
use eisen::linear_store::get_page_offset;
use eisen::linear_store::LinearStore;

#[derive(Clone, Default, PartialEq, Debug)]
struct Pos(i64, i64);

impl Component for Pos {
    type Storage = LinearStore<Pos>;
}

#[test]
fn page_math_splits_indices() {
    assert_eq!(get_page_mask(7), 127);
    assert_eq!(get_page_index(0, 7), 0);
    assert_eq!(get_page_offset(0, 127), 0);
    assert_eq!(get_page_index(127, 7), 0);
    assert_eq!(get_page_offset(127, 127), 127);
    assert_eq!(get_page_index(128, 7), 1);
    assert_eq!(get_page_offset(128, 127), 0);
    assert_eq!(get_page_index(1000, 7), 7);
    assert_eq!(get_page_offset(1000, 127), 104);
}

#[test]
fn linear_round_trip() {
    let mut s: LinearStore<Pos> = ComponentStore::new();
    assert!(!s.has(0));
    s.add(0, Pos(1, 2));
    s.add(127, Pos(3, 4));
    s.add(128, Pos(5, 6));
    assert!(s.has(0) && s.has(127) && s.has(128));
    assert!(!s.has(1) && !s.has(129));
    assert_eq!(s.get(127), Some(&Pos(3, 4)));
    s.set(127, Pos(7, 8));
    assert_eq!(s.get(127), Some(&Pos(7, 8)));
    if let Some(v) = s.get_mut(128) {
        v.0 = 50;
    }
    assert_eq!(s.get(128), Some(&Pos(50, 6)));
    s.rem(127);
    assert!(!s.has(127));
    assert_eq!(s.get(127), None);
    assert_eq!(s.get(0), Some(&Pos(1, 2)));
}

#[test]
fn linear_iteration_is_index_ordered() {
    let mut s: LinearStore<Pos> = ComponentStore::new();
    s.add(300, Pos(3, 0));
    s.add(5, Pos(1, 0));
    s.add(130, Pos(2, 0));
    let entries: Vec<(u32, &Pos)> = s.iter_entity();
    let indices: Vec<u32> = entries.iter().map(|e| e.0).collect();
    assert_eq!(indices, vec![5, 130, 300]);
    let values: Vec<&Pos> = s.iter();
    assert_eq!(values, vec![&Pos(1, 0), &Pos(2, 0), &Pos(3, 0)]);
}

#[test]
fn linear_batches_bound_the_batch_size() {
    let mut s: LinearStore<Pos> = ComponentStore::new();
    s.add(0, Pos(1, 0));
    s.add(1, Pos(2, 0));
    s.add(2, Pos(3, 0));
    s.add(260, Pos(4, 0));
    s.add(261, Pos(5, 0));
    // five live entries in batches of two: a single page's entries are split
    // across batches, and one batch spans the page boundary
    let batches = s.iter_entity_batch(2);
    assert_eq!(batches.len(), 3);
    assert_eq!(batches[0].len(), 2);
    assert_eq!(batches[1].len(), 2);
    assert_eq!(batches[2].len(), 1);
    assert_eq!(batches[0][0].0, 0);
    assert_eq!(batches[0][1].0, 1);
    assert_eq!(batches[1][0].0, 2);
    assert_eq!(batches[1][1].0, 260);
    assert_eq!(batches[2][0].0, 261);
    // a batch size above the live count yields a single batch
    let whole = s.iter_entity_batch(100);
    assert_eq!(whole.len(), 1);
    assert_eq!(whole[0].len(), 5);
}

#[test]
fn linear_mutating_iteration() {
    let mut s: LinearStore<Pos> = ComponentStore::new();
    s.add(5, Pos(1, 1));
    s.add(200, Pos(2, 2));
    s.iter_mut(|v: &Pos| Pos(v.0 + 1, v.1));
    assert_eq!(s.get(5), Some(&Pos(2, 1)));
    assert_eq!(s.get(200), Some(&Pos(3, 2)));
    s.iter_entity_mut(|i: u32, v: &Pos| Pos(v.0, v.1 + i as i64));
    assert_eq!(s.get(5), Some(&Pos(2, 6)));
    assert_eq!(s.get(200), Some(&Pos(3, 202)));
    assert!(!s.has(6));
}

#[test]
fn dense_round_trip() {
    let mut s: DenseStore<u64> = ComponentStore::new();
    assert!(!s.has(3));
    assert_eq!(s.len(), 0);
    s.add(3, 30);
    s.add(9, 90);
    assert_eq!(s.len(), 2);
    assert!(s.has(3) && s.has(9));
    assert_eq!(s.get(3), Some(&30));
    s.set(3, 31);
    assert_eq!(s.get(3), Some(&31));
    if let Some(v) = s.get_mut(9) {
        *v = 91;
    }
    assert_eq!(s.get(9), Some(&91));
    s.rem(3);
    assert!(!s.has(3));
    assert_eq!(s.get(3), None);
    assert_eq!(s.get(9), Some(&91));
}

#[test]
fn dense_grows_its_sparse_array_on_demand() {
    let mut s: DenseStore<u64> = ComponentStore::new();
    s.add(1_000_000, 7);
    assert!(s.has(1_000_000));
    assert!(!s.has(999_999));
    assert_eq!(s.get(1_000_000), Some(&7));
    assert_eq!(s.sparse_indices.len(), 1_000_001);
    assert_eq!(s.dense_values.len(), 1);
}

#[test]
fn dense_swap_remove_moves_last_into_freed_offset() {
    let mut s: DenseStore<u64> = ComponentStore::new();
    s.add(10, 100);
    s.add(20, 200);
    s.add(30, 300);
    // entity 10 sits at dense offset 0; removing it must shrink the dense
    // arrays by one and move the formerly-last entity (30) into offset 0,
    // reachable through its fixed sparse pointer
    s.rem(10);
    assert_eq!(s.dense_values.len(), 2);
    assert_eq!(s.dense_indices.len(), 2);
    assert_eq!(s.dense_indices[0], 30);
    assert_eq!(s.dense_values[0], 300);
    assert_eq!(s.sparse_indices[30], 0);
    assert_eq!(s.get(30), Some(&300));
    assert_eq!(s.get(20), Some(&200));
    assert!(!s.has(10));
}

#[test]
fn dense_swap_remove_of_last_entry() {
    let mut s: DenseStore<u64> = ComponentStore::new();
    s.add(1, 10);
    s.add(2, 20);
    s.rem(2);
    assert_eq!(s.dense_values.len(), 1);
    assert_eq!(s.get(1), Some(&10));
    assert!(!s.has(2));
    s.rem(1);
    assert_eq!(s.dense_values.len(), 0);
    assert!(!s.has(1));
}

#[test]
fn dense_sort_orders_by_index() {
    let mut s: DenseStore<u64> = ComponentStore::new();
    s.add(50, 5);
    s.add(10, 1);
    s.add(30, 3);
    s.rem(50);
    s.add(50, 5);
    s.sort();
    assert_eq!(s.dense_indices, vec![10, 30, 50]);
    assert_eq!(s.dense_values, vec![1, 3, 5]);
    assert_eq!(s.get(10), Some(&1));
    assert_eq!(s.get(30), Some(&3));
    assert_eq!(s.get(50), Some(&5));
}

#[test]
fn dense_iteration_and_batches() {
    let mut s: DenseStore<u64> = ComponentStore::new();
    for i in 0..5u32 {
        s.add(i * 2, (i * 10) as u64);
    }
    let values: Vec<&u64> = s.iter();
    assert_eq!(values, vec![&0, &10, &20, &30, &40]);
    let entries: Vec<(u32, &u64)> = s.iter_entity();
    assert_eq!(entries.len(), 5);
    assert_eq!(entries[3], (6, &30));
    let batches = s.iter_entity_batch(2);
    assert_eq!(batches.len(), 3);
    assert_eq!(batches[0].len(), 2);
    assert_eq!(batches[1].len(), 2);
    assert_eq!(batches[2].len(), 1);
    assert_eq!(batches[2][0], (8, &40));
}

#[test]
fn dense_mutating_iteration() {
    let mut s: DenseStore<u64> = ComponentStore::new();
    s.add(1, 10);
    s.add(2, 20);
    s.iter_mut(|v: &u64| v + 1);
    assert_eq!(s.get(1), Some(&11));
    assert_eq!(s.get(2), Some(&21));
    s.iter_entity_mut(|i: u32, v: &u64| v + i as u64);
    assert_eq!(s.get(1), Some(&12));
    assert_eq!(s.get(2), Some(&23));
}
