use eisen::component_storage::cleanup_and_sweep;
use eisen::component_storage::sweep_store;
use eisen::component_storage::ComponentStore;
use eisen::component_storage::GenericComponentStore;
use eisen::dense_store::DenseStore;
use eisen::entity_manager::EntityManager;

#[test]
fn create_issues_valid_handles() {
    let mut em = EntityManager::new();
    let a = em.create();
    let b = em.create();
    let c = em.create();
    assert_eq!(a.index, 0);
    assert_eq!(b.index, 1);
    assert_eq!(c.index, 2);
    assert_eq!(a.version, 0);
    assert!(em.exists_entity(a));
    assert!(em.exists_entity(b));
    assert!(em.exists_entity(c));
    assert_eq!(em.version_of(0), Some(0));
    assert_eq!(em.version_of(3), None);
}

#[test]
fn destroy_invalidates_only_its_handle() {
    let mut em = EntityManager::new();
    let a = em.create();
    let b = em.create();
    em.destroy(a);
    assert!(!em.exists_entity(a));
    assert!(em.exists_entity(b));
    assert_eq!(em.version_of(a.index), None);
}

#[test]
fn cleanup_bumps_version_and_recycles_index() {
    let mut em = EntityManager::new();
    let a = em.create();
    em.destroy(a);
    let processed = em.cleanup();
    assert_eq!(processed, vec![a.index]);
    // the index is recycled with a bumped generation: the old handle can
    // never be valid again
    let a2 = em.create();
    assert_eq!(a2.index, a.index);
    assert_eq!(a2.version, a.version + 1);
    assert!(em.exists_entity(a2));
    assert!(!em.exists_entity(a));
}

#[test]
fn destroyed_handle_stays_invalid_through_reuse() {
    let mut em = EntityManager::new();
    let a = em.create();
    let _b = em.create();
    em.destroy(a);
    assert!(!em.exists_entity(a));
    em.cleanup();
    assert!(!em.exists_entity(a));
    let a2 = em.create();
    em.destroy(a2);
    em.cleanup();
    let a3 = em.create();
    assert_eq!(a3.index, a.index);
    assert_eq!(a3.version, 2);
    assert!(!em.exists_entity(a));
    assert!(!em.exists_entity(a2));
    assert!(em.exists_entity(a3));
}

#[test]
fn cleanup_without_destroys_is_a_no_op() {
    let mut em = EntityManager::new();
    let a = em.create();
    let processed = em.cleanup();
    assert!(processed.is_empty());
    assert!(em.exists_entity(a));
    assert_eq!(a.version, 0);
}

#[test]
fn cleanup_sweeps_components_out_of_stores() {
    let mut em = EntityManager::new();
    let mut health: DenseStore<u64> = ComponentStore::new();
    let a = em.create();
    let b = em.create();
    em.add(&mut health, 10, a);
    em.add(&mut health, 20, b);
    em.destroy(a);
    let processed = em.cleanup();
    sweep_store(&mut health, &processed);
    assert!(!health.has(a.index));
    assert!(health.has(b.index));
    assert_eq!(health.get(b.index), Some(&20));
}

#[test]
fn combined_cleanup_and_sweep() {
    let mut em = EntityManager::new();
    let mut health: DenseStore<u64> = ComponentStore::new();
    let a = em.create();
    let b = em.create();
    let c = em.create();
    em.add(&mut health, 10, a);
    em.add(&mut health, 30, c);
    em.destroy(a);
    em.destroy(b);
    let processed = cleanup_and_sweep(&mut em, &mut health);
    assert_eq!(processed, vec![a.index, b.index]);
    // generations bumped, components gone, survivors untouched
    assert!(!em.exists_entity(a));
    assert!(!em.exists_entity(b));
    assert!(em.exists_entity(c));
    assert!(!health.has(a.index));
    assert_eq!(health.get(c.index), Some(&30));
    // the freed indices are recycled with bumped generations; the destruct
    // queue drains into the free list from its tail, so the first destroyed
    // index is reissued first
    let a2 = em.create();
    let b2 = em.create();
    assert_eq!((a2.index, a2.version), (a.index, a.version + 1));
    assert_eq!((b2.index, b2.version), (b.index, b.version + 1));
}
