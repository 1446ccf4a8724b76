use provisioner::allocator::{
    allocate, allocation_step, release_compute_unit_lock, reset_lock, AllocationOutcome,
    AllocationStep, ComputeUnit, LockAttempt,
};
use provisioner::lifecycle::{
    transition_allowed, ClusterRecord, ClusterState, ClusterTable, SetStateOutcome,
};
use provisioner::lock::LockStore;
use provisioner::LOCK_TTL_SECS;

fn unit(id: i64, fqdn: &str, region: &str, available: bool) -> ComputeUnit {
    ComputeUnit {
        id,
        fqdn: fqdn.as_bytes().to_vec(),
        region_code: region.as_bytes().to_vec(),
        available,
    }
}

#[test]
fn at_most_one_acquisition_succeeds_per_unit() {
    let mut locks = LockStore::new();
    assert!(locks.acquire(7, LOCK_TTL_SECS));
    assert!(!locks.acquire(7, LOCK_TTL_SECS));
    assert!(!locks.acquire(7, LOCK_TTL_SECS));
    assert!(locks.is_locked(7));
    locks.release(7);
    assert!(locks.acquire(7, LOCK_TTL_SECS));
}

#[test]
fn releasing_a_missing_lock_succeeds() {
    let mut locks = LockStore::new();
    locks.release(42);
    assert!(!locks.is_locked(42));
    assert!(locks.acquire(42, LOCK_TTL_SECS));
    locks.release(42);
    locks.release(42);
    assert!(!locks.is_locked(42));
}

#[test]
fn allocation_skips_locked_and_foreign_units() {
    let units = vec![
        unit(1, "h1", "eu_west_1", true),
        unit(2, "h2", "ap_south_1", false),
        unit(3, "h3", "ap_south_1", true),
        unit(4, "h4", "ap_south_1", true),
    ];
    let mut locks = LockStore::new();
    assert!(locks.acquire(3, LOCK_TTL_SECS));
    let region = b"ap_south_1".to_vec();
    match allocate(&units, &mut locks, &region) {
        AllocationOutcome::Allocated { index } => assert_eq!(index, 3),
        AllocationOutcome::NoneAvailable => panic!("unit 4 was free"),
    }
    assert!(locks.is_locked(4));
    match allocate(&units, &mut locks, &region) {
        AllocationOutcome::Allocated { .. } => panic!("everything is reserved now"),
        AllocationOutcome::NoneAvailable => {}
    }
}

#[test]
fn allocation_protocol_steps() {
    let mut excluded: Vec<i64> = Vec::new();
    assert_eq!(allocation_step(&mut excluded, 5, LockAttempt::AlreadyHeld), AllocationStep::Retry);
    assert_eq!(excluded, vec![5]);
    assert_eq!(allocation_step(&mut excluded, 6, LockAttempt::Acquired), AllocationStep::Finish);
    assert_eq!(excluded, vec![5]);
    assert_eq!(allocation_step(&mut excluded, 7, LockAttempt::StoreFailed), AllocationStep::Abort);
    assert_eq!(excluded, vec![5]);
}

#[test]
fn release_and_reset_clear_the_lock() {
    let mut locks = LockStore::new();
    assert!(locks.acquire(9, LOCK_TTL_SECS));
    release_compute_unit_lock(&mut locks, 9);
    assert!(!locks.is_locked(9));
    assert!(locks.acquire(9, LOCK_TTL_SECS));
    reset_lock(&mut locks, 9);
    assert!(!locks.is_locked(9));
}

fn record(id: &str, state: ClusterState) -> ClusterRecord {
    ClusterRecord {
        identifier: id.as_bytes().to_vec(),
        state,
        parent_server_fqdn: None,
        kubeconfig: None,
    }
}

#[test]
fn forward_transitions_are_accepted() {
    let mut table = ClusterTable::new();
    table.insert(record("c1", ClusterState::Init));
    let id = b"c1".to_vec();
    assert_eq!(table.set_state(&id, ClusterState::Running), SetStateOutcome::Updated);
    assert_eq!(table.set_state(&id, ClusterState::Deleting), SetStateOutcome::Updated);
    assert_eq!(table.set_state(&id, ClusterState::Deleted), SetStateOutcome::Updated);
    assert_eq!(table.state_of(&id), Some(ClusterState::Deleted));
}

#[test]
fn deleted_is_terminal() {
    let mut table = ClusterTable::new();
    table.insert(record("c1", ClusterState::Deleted));
    let id = b"c1".to_vec();
    assert_eq!(table.set_state(&id, ClusterState::Init), SetStateOutcome::Rejected);
    assert_eq!(table.state_of(&id), Some(ClusterState::Deleted));
    assert_eq!(table.set_state(&id, ClusterState::Running), SetStateOutcome::Rejected);
    assert_eq!(table.state_of(&id), Some(ClusterState::Deleted));
    assert_eq!(table.set_state(&id, ClusterState::Deleting), SetStateOutcome::Rejected);
    assert_eq!(table.set_state(&id, ClusterState::Deleted), SetStateOutcome::Updated);
    assert_eq!(table.state_of(&id), Some(ClusterState::Deleted));
}

#[test]
fn backward_transitions_are_rejected() {
    let mut table = ClusterTable::new();
    table.insert(record("c1", ClusterState::Running));
    let id = b"c1".to_vec();
    assert_eq!(table.set_state(&id, ClusterState::Init), SetStateOutcome::Rejected);
    assert_eq!(table.state_of(&id), Some(ClusterState::Running));
    assert!(!transition_allowed(ClusterState::Deleting, ClusterState::Running));
    assert!(transition_allowed(ClusterState::Init, ClusterState::Deleted));
}

#[test]
fn unknown_identifiers_change_nothing() {
    let mut table = ClusterTable::new();
    table.insert(record("c1", ClusterState::Init));
    assert_eq!(
        table.set_state(&b"c2".to_vec(), ClusterState::Running),
        SetStateOutcome::NoSuchCluster
    );
    assert_eq!(table.state_of(&b"c2".to_vec()), None);
    assert!(!table.set_kubeconfig(&b"c2".to_vec(), &b"cfg".to_vec()));
    assert!(!table.set_parent_host(&b"c2".to_vec(), &b"h1".to_vec()));
}

#[test]
fn credentials_and_host_are_recorded() {
    let mut table = ClusterTable::new();
    table.insert(record("c1", ClusterState::Init));
    let id = b"c1".to_vec();
    assert!(table.set_parent_host(&id, &b"h1.example".to_vec()));
    assert!(table.set_kubeconfig(&id, &b"apiVersion: v1".to_vec()));
    assert_eq!(table.parent_of(&id), Some(b"h1.example".to_vec()));
    assert_eq!(table.kubeconfig_of(&id), Some(b"apiVersion: v1".to_vec()));
}
