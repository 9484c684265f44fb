use eisen::component_storage::ComponentStore;
use eisen::component_storage::GenericComponentStore;
use eisen::dense_store::DenseStore;
use eisen::entity_manager::EntityManager;
use eisen::handle::EntityHandle;
use eisen::iteration::parallel_over_entities;
use eisen::iteration::parallel_over_entities_linear;
use eisen::iteration::parallel_over_entities_pair;
use eisen::iteration::parallel_over_entities_with;
use eisen::linear_store::LinearStore;

#[test]
fn sweep_increments_every_fourth_entity() {
    // the end-to-end scenario: a million entities, a numeric component on
    // every fourth, one sweep in batches of 200 that adds one to each value
    const N: u32 = 1_000_000;
    let mut em = EntityManager::new();
    let mut health: DenseStore<u64> = ComponentStore::new();
    let excluded: LinearStore<i64> = ComponentStore::new();
    let mut handles: Vec<EntityHandle> = Vec::with_capacity(N as usize);
    for i in 0..N {
        let e = em.create();
        if i % 4 == 0 {
            em.add(&mut health, (i + 1) as u64, e);
        }
        handles.push(e);
    }
    let mut waiter = parallel_over_entities(&em, &mut health, &excluded, 200, |_h, v: &u64| v + 1);
    // the sweep's fork-join waiter has joined every batch token
    assert!(waiter.poll(1));
    for i in 0..N {
        assert!(em.exists_entity(handles[i as usize]));
        if i % 4 == 0 {
            assert_eq!(health.get(i), Some(&((i + 2) as u64)));
        } else {
            assert!(!health.has(i));
        }
    }
}

#[test]
fn sweep_filters_required_absent_entities() {
    let mut em = EntityManager::new();
    let mut score: DenseStore<u64> = ComponentStore::new();
    let mut frozen: LinearStore<i64> = ComponentStore::new();
    for i in 0..10u32 {
        let e = em.create();
        em.add(&mut score, (i * 10) as u64, e);
        if i % 3 == 0 {
            em.add(&mut frozen, -1, e);
        }
    }
    let mut waiter = parallel_over_entities(&em, &mut score, &frozen, 4, |_h, v: &u64| v + 1);
    assert!(waiter.poll(0));
    for i in 0..10u32 {
        let expected = if i % 3 == 0 { (i * 10) as u64 } else { (i * 10 + 1) as u64 };
        assert_eq!(score.get(i), Some(&expected));
    }
    // the filtering store itself is untouched
    assert!(frozen.has(0) && frozen.has(3) && frozen.has(6) && frozen.has(9));
}

#[test]
fn sweep_hands_the_closure_resolved_handles() {
    let mut em = EntityManager::new();
    let mut comp: DenseStore<u64> = ComponentStore::new();
    let excluded: LinearStore<i64> = ComponentStore::new();
    // recycle index 0 once so its generation is 1
    let first = em.create();
    em.destroy(first);
    em.cleanup();
    let e = em.create();
    assert_eq!(e.version, 1);
    em.add(&mut comp, 5, e);
    let mut waiter =
        parallel_over_entities(&em, &mut comp, &excluded, 1, |h: EntityHandle, v: &u64| {
            assert_eq!(h, e);
            v * 2
        });
    assert!(waiter.poll(3));
    assert_eq!(comp.get(e.index), Some(&10));
}

#[test]
fn sweep_with_shared_read_store_filters_and_reads() {
    let mut em = EntityManager::new();
    let mut health: DenseStore<u64> = ComponentStore::new();
    let mut bonus: DenseStore<u64> = ComponentStore::new();
    let mut frozen: LinearStore<i64> = ComponentStore::new();
    for i in 0..8u32 {
        let e = em.create();
        em.add(&mut health, 100, e);
        if i % 2 == 0 {
            em.add(&mut bonus, (i + 1) as u64, e);
        }
        if i == 4 {
            em.add(&mut frozen, -1, e);
        }
    }
    let mut waiter = parallel_over_entities_with(
        &em,
        &mut health,
        &bonus,
        &frozen,
        3,
        |_h, v: &u64, b: &u64| v + b,
    );
    assert!(waiter.poll(0));
    for i in 0..8u32 {
        // only entities holding a bonus and not frozen were updated
        let expected = if i % 2 == 0 && i != 4 { 100 + (i + 1) as u64 } else { 100 };
        assert_eq!(health.get(i), Some(&expected));
    }
    // the companion stores were only read
    assert_eq!(bonus.get(4), Some(&5));
    assert!(frozen.has(4));
}

#[test]
fn sweep_with_two_writable_stores_updates_both() {
    let mut em = EntityManager::new();
    let mut health: DenseStore<u64> = ComponentStore::new();
    let mut stamina: LinearStore<u64> = ComponentStore::new();
    let mut frozen: LinearStore<i64> = ComponentStore::new();
    for i in 0..12u32 {
        let e = em.create();
        em.add(&mut health, (i * 10) as u64, e);
        if i % 2 == 0 {
            em.add(&mut stamina, 100, e);
        }
        if i == 6 {
            em.add(&mut frozen, -1, e);
        }
    }
    let mut waiter = parallel_over_entities_pair(
        &em,
        &mut health,
        &mut stamina,
        &frozen,
        5,
        |_h, v: &u64, s: &u64| (v + 1, s + v),
    );
    assert!(waiter.poll(0));
    for i in 0..12u32 {
        let touched = i % 2 == 0 && i != 6;
        let expected_health = if touched { (i * 10 + 1) as u64 } else { (i * 10) as u64 };
        assert_eq!(health.get(i), Some(&expected_health));
        if i % 2 == 0 {
            let expected_stamina = if touched { 100 + (i * 10) as u64 } else { 100 };
            assert_eq!(stamina.get(i), Some(&expected_stamina));
        } else {
            assert!(!stamina.has(i));
        }
    }
}

#[test]
fn sweep_over_a_paged_primary_store() {
    let mut em = EntityManager::new();
    let mut pos: LinearStore<i64> = ComponentStore::new();
    let mut frozen: DenseStore<u64> = ComponentStore::new();
    // entries on two pages, one of them excluded
    for i in 0..300u32 {
        let e = em.create();
        if i % 100 == 0 {
            em.add(&mut pos, (i as i64) * 2, e);
        }
        if i == 200 {
            em.add(&mut frozen, 1, e);
        }
    }
    let mut waiter =
        parallel_over_entities_linear(&em, &mut pos, &frozen, 2, |h: EntityHandle, v: &i64| {
            v + h.index as i64
        });
    assert!(waiter.poll(0));
    assert_eq!(pos.get(0), Some(&0));
    assert_eq!(pos.get(100), Some(&300));
    assert_eq!(pos.get(200), Some(&400));
    assert!(!pos.has(1));
}

#[test]
fn sweep_of_an_empty_store_resolves_immediately() {
    let em = EntityManager::new();
    let mut comp: DenseStore<u64> = ComponentStore::new();
    let excluded: LinearStore<i64> = ComponentStore::new();
    let mut waiter = parallel_over_entities(&em, &mut comp, &excluded, 200, |_h, v: &u64| *v);
    assert!(waiter.poll(0));
    assert!(!comp.has(0));
}
