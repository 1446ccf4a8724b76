use provisioner::allocator::ComputeUnit;
use provisioner::engine::{
    handle_creation, handle_deletion, CreationReport, DeletionReport, ScriptRun, World,
};
use provisioner::lifecycle::{ClusterRecord, ClusterState, ClusterTable};
use provisioner::lock::LockStore;
use provisioner::queue::dead_letter_due;
use provisioner::remote::{ExecError, SessionEnding};
use provisioner::{LOCK_TTL_SECS, RETRY_TTL_MS, WAITING_TTL_MS};

const REGION: &[u8] = b"ap_south_1";

fn unit(id: i64, fqdn: &str, available: bool) -> ComputeUnit {
    ComputeUnit {
        id,
        fqdn: fqdn.as_bytes().to_vec(),
        region_code: REGION.to_vec(),
        available,
    }
}

fn world_with(units: Vec<ComputeUnit>, clusters: ClusterTable) -> World {
    World {
        units,
        locks: LockStore::new(),
        clusters,
        retry_queue: Vec::new(),
        waiting_queue: Vec::new(),
    }
}

fn successful_run() -> ScriptRun {
    ScriptRun {
        stdout_lines: vec![
            b"provisioning...".to_vec(),
            b"[KUBECONFIG] apiVersion: v1".to_vec(),
            b"[KUBECONFIG] clusters: []".to_vec(),
        ],
        ending: SessionEnding::Exited { code: 0 },
    }
}

fn creation_raw() -> Vec<u8> {
    br#"{"identifier":"c1","cpu_limit":4,"ram_limit":8,"disk_size":50}"#.to_vec()
}

#[test]
fn creation_with_capacity_ends_running_with_credentials_and_lock_released() {
    let mut clusters = ClusterTable::new();
    clusters.insert(ClusterRecord {
        identifier: b"c1".to_vec(),
        state: ClusterState::Init,
        parent_server_fqdn: None,
        kubeconfig: None,
    });
    let mut w = world_with(vec![unit(1, "h1.example", true)], clusters);

    let report = handle_creation(&mut w, &creation_raw(), 1_000, &REGION.to_vec(), &successful_run());

    assert_eq!(report, CreationReport::Completed { unit_index: 0 });
    let id = b"c1".to_vec();
    assert_eq!(w.clusters.state_of(&id), Some(ClusterState::Running));
    assert_eq!(
        w.clusters.kubeconfig_of(&id),
        Some(b"apiVersion: v1\nclusters: []".to_vec())
    );
    assert_eq!(w.clusters.parent_of(&id), Some(b"h1.example".to_vec()));
    assert!(!w.locks.is_locked(1));
    assert_eq!(w.retry_queue.len(), 0);
    assert_eq!(w.waiting_queue.len(), 1);
    assert_eq!(w.waiting_queue[0].payload, creation_raw());
    assert_eq!(w.waiting_queue[0].ttl_ms, WAITING_TTL_MS);
}

#[test]
fn creation_without_capacity_republishes_to_the_retry_queue() {
    let mut w = world_with(vec![unit(1, "h1", false)], ClusterTable::new());

    let report = handle_creation(&mut w, &creation_raw(), 5_000, &REGION.to_vec(), &successful_run());

    assert_eq!(report, CreationReport::Requeued);
    assert_eq!(w.retry_queue.len(), 1);
    assert_eq!(w.retry_queue[0].payload, creation_raw());
    assert_eq!(w.retry_queue[0].enqueued_at_ms, 5_000);
    assert_eq!(w.retry_queue[0].ttl_ms, RETRY_TTL_MS);
    assert_eq!(w.waiting_queue.len(), 0);
    assert!(!w.locks.is_locked(1));
}

#[test]
fn requeued_message_returns_only_after_its_delay() {
    let mut w = world_with(vec![unit(1, "h1", false)], ClusterTable::new());
    handle_creation(&mut w, &creation_raw(), 5_000, &REGION.to_vec(), &successful_run());

    let early = dead_letter_due(&mut w.retry_queue, 5_000 + RETRY_TTL_MS - 1);
    assert!(early.is_empty());
    assert_eq!(w.retry_queue.len(), 1);

    let due = dead_letter_due(&mut w.retry_queue, 5_000 + RETRY_TTL_MS);
    assert_eq!(due, vec![creation_raw()]);
    assert_eq!(w.retry_queue.len(), 0);
}

#[test]
fn redelivered_message_succeeds_once_capacity_appears() {
    let mut clusters = ClusterTable::new();
    clusters.insert(ClusterRecord {
        identifier: b"c1".to_vec(),
        state: ClusterState::Init,
        parent_server_fqdn: None,
        kubeconfig: None,
    });
    let mut w = world_with(vec![unit(1, "h1", false)], clusters);

    let first = handle_creation(&mut w, &creation_raw(), 0, &REGION.to_vec(), &successful_run());
    assert_eq!(first, CreationReport::Requeued);

    let redelivered = dead_letter_due(&mut w.retry_queue, RETRY_TTL_MS);
    assert_eq!(redelivered.len(), 1);

    w.units[0].available = true;
    let second = handle_creation(
        &mut w,
        &redelivered[0],
        RETRY_TTL_MS,
        &REGION.to_vec(),
        &successful_run(),
    );
    assert_eq!(second, CreationReport::Completed { unit_index: 0 });
    assert_eq!(w.clusters.state_of(&b"c1".to_vec()), Some(ClusterState::Running));
}

#[test]
fn failed_creation_run_leaves_the_cluster_as_recorded() {
    let mut clusters = ClusterTable::new();
    clusters.insert(ClusterRecord {
        identifier: b"c1".to_vec(),
        state: ClusterState::Init,
        parent_server_fqdn: None,
        kubeconfig: None,
    });
    let mut w = world_with(vec![unit(1, "h1", true)], clusters);
    let run = ScriptRun { stdout_lines: Vec::new(), ending: SessionEnding::TimedOut };

    let report = handle_creation(&mut w, &creation_raw(), 0, &REGION.to_vec(), &run);

    assert_eq!(
        report,
        CreationReport::Failed { unit_index: 0, error: ExecError::TimedOut }
    );
    let id = b"c1".to_vec();
    assert_eq!(w.clusters.state_of(&id), Some(ClusterState::Init));
    assert_eq!(w.clusters.kubeconfig_of(&id), None);
    assert!(w.locks.is_locked(1));
    assert_eq!(w.waiting_queue.len(), 0);
}

#[test]
fn malformed_creation_payload_is_dropped() {
    let mut w = world_with(vec![unit(1, "h1", true)], ClusterTable::new());
    let report = handle_creation(
        &mut w,
        &b"not json".to_vec(),
        0,
        &REGION.to_vec(),
        &successful_run(),
    );
    assert_eq!(report, CreationReport::Dropped);
    assert!(!w.locks.is_locked(1));
    assert_eq!(w.retry_queue.len(), 0);
}

#[test]
fn deletion_of_unknown_cluster_changes_nothing() {
    let mut clusters = ClusterTable::new();
    clusters.insert(ClusterRecord {
        identifier: b"c1".to_vec(),
        state: ClusterState::Running,
        parent_server_fqdn: Some(b"h1".to_vec()),
        kubeconfig: None,
    });
    let mut w = world_with(vec![unit(1, "h1", true)], clusters);
    assert!(w.locks.acquire(1, LOCK_TTL_SECS));

    let raw = br#"{"identifier":"nope"}"#.to_vec();
    let report = handle_deletion(&mut w, &raw, &successful_run());

    assert_eq!(report, DeletionReport::NotFound);
    assert_eq!(w.clusters.state_of(&b"c1".to_vec()), Some(ClusterState::Running));
    assert!(w.locks.is_locked(1));
}

#[test]
fn successful_deletion_releases_the_lock_and_marks_deleted() {
    let mut clusters = ClusterTable::new();
    clusters.insert(ClusterRecord {
        identifier: b"c1".to_vec(),
        state: ClusterState::Deleting,
        parent_server_fqdn: Some(b"h1".to_vec()),
        kubeconfig: Some(b"cfg".to_vec()),
    });
    let mut w = world_with(vec![unit(1, "h1", true)], clusters);
    assert!(w.locks.acquire(1, LOCK_TTL_SECS));

    let raw = br#"{"identifier":"c1"}"#.to_vec();
    let run = ScriptRun { stdout_lines: Vec::new(), ending: SessionEnding::Exited { code: 0 } };
    let report = handle_deletion(&mut w, &raw, &run);

    assert_eq!(report, DeletionReport::Deleted { unit_id: 1 });
    assert_eq!(w.clusters.state_of(&b"c1".to_vec()), Some(ClusterState::Deleted));
    assert!(!w.locks.is_locked(1));
}

#[test]
fn failed_deletion_run_changes_nothing() {
    let mut clusters = ClusterTable::new();
    clusters.insert(ClusterRecord {
        identifier: b"c1".to_vec(),
        state: ClusterState::Deleting,
        parent_server_fqdn: Some(b"h1".to_vec()),
        kubeconfig: None,
    });
    let mut w = world_with(vec![unit(1, "h1", true)], clusters);
    assert!(w.locks.acquire(1, LOCK_TTL_SECS));

    let raw = br#"{"identifier":"c1"}"#.to_vec();
    let run = ScriptRun { stdout_lines: Vec::new(), ending: SessionEnding::Exited { code: 3 } };
    let report = handle_deletion(&mut w, &raw, &run);

    assert_eq!(report, DeletionReport::Failed { error: ExecError::ScriptFailed { code: 3 } });
    assert_eq!(w.clusters.state_of(&b"c1".to_vec()), Some(ClusterState::Deleting));
    assert!(w.locks.is_locked(1));
}

#[test]
fn deletion_without_assigned_host_changes_nothing() {
    let mut clusters = ClusterTable::new();
    clusters.insert(ClusterRecord {
        identifier: b"c1".to_vec(),
        state: ClusterState::Init,
        parent_server_fqdn: None,
        kubeconfig: None,
    });
    let mut w = world_with(vec![unit(1, "h1", true)], clusters);

    let raw = br#"{"identifier":"c1"}"#.to_vec();
    let report = handle_deletion(&mut w, &raw, &successful_run());

    assert_eq!(report, DeletionReport::NoAssignedHost);
    assert_eq!(w.clusters.state_of(&b"c1".to_vec()), Some(ClusterState::Init));
}

#[test]
fn deletion_with_unknown_host_changes_nothing() {
    let mut clusters = ClusterTable::new();
    clusters.insert(ClusterRecord {
        identifier: b"c1".to_vec(),
        state: ClusterState::Deleting,
        parent_server_fqdn: Some(b"gone.example".to_vec()),
        kubeconfig: None,
    });
    let mut w = world_with(vec![unit(1, "h1", true)], clusters);

    let raw = br#"{"identifier":"c1"}"#.to_vec();
    let report = handle_deletion(&mut w, &raw, &successful_run());

    assert_eq!(report, DeletionReport::UnknownHost);
    assert_eq!(w.clusters.state_of(&b"c1".to_vec()), Some(ClusterState::Deleting));
}

#[test]
fn concurrent_creations_get_distinct_units() {
    let mut clusters = ClusterTable::new();
    for id in ["c1", "c2"] {
        clusters.insert(ClusterRecord {
            identifier: id.as_bytes().to_vec(),
            state: ClusterState::Init,
            parent_server_fqdn: None,
            kubeconfig: None,
        });
    }
    let mut w = world_with(vec![unit(1, "h1", true), unit(2, "h2", true)], clusters);

    let raw1 = br#"{"identifier":"c1"}"#.to_vec();
    let raw2 = br#"{"identifier":"c2"}"#.to_vec();
    let run = ScriptRun { stdout_lines: Vec::new(), ending: SessionEnding::TimedOut };
    let first = handle_creation(&mut w, &raw1, 0, &REGION.to_vec(), &run);
    let second = handle_creation(&mut w, &raw2, 0, &REGION.to_vec(), &run);

    match (first, second) {
        (
            CreationReport::Failed { unit_index: i, .. },
            CreationReport::Failed { unit_index: j, .. },
        ) => {
            assert_ne!(w.units[i].id, w.units[j].id);
        }
        other => panic!("both runs were started: {:?}", other),
    }
    assert!(w.locks.is_locked(1));
    assert!(w.locks.is_locked(2));
}
