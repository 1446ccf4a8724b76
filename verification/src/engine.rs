//! Decision core of the two queue consumers.
//!
//! One inbound message is handled against a [`World`]: the compute-unit
//! table, the lock store, the cluster table and the two delay queues.
//! The remote run itself is outside work; its observed outcome comes in
//! as a [`ScriptRun`] and these functions decide — and the contracts
//! state — exactly what is recorded, released and republished for every
//! possible outcome. The caller acknowledges the inbound message in
//! every case: a failed run is not retried, a dropped message is not
//! redelivered.
use vstd::prelude::*;

use crate::allocator::{
    allocate, allocates_at, distinct_unit_ids, region_exhausted, release_compute_unit_lock,
    AllocationOutcome, ComputeUnit,
};
use crate::lifecycle::{
    spec_set_kubeconfig, spec_set_parent, spec_set_state, ClusterState, ClusterTable,
};
use crate::lock::LockStore;
use crate::message::{
    parse_creation_message, parse_deletion_message, spec_creation_message, spec_deletion_message,
};
use crate::queue::{QueuedMessage, SpecQueuedMessage};
use crate::remote::{
    conclude_deletion_run, conclude_run, conclusion, deletion_conclusion, ExecError,
    SessionEnding,
};
use crate::text::copy_range;
use crate::{LOCK_TTL_SECS, RETRY_TTL_MS, WAITING_TTL_MS};

verus! {

/// What one remote script run produced, as observed by the driver that
/// ran it: the drained standard-output lines and the way it ended.
pub struct ScriptRun {
    /// The standard-output lines, in receipt order.
    pub stdout_lines: Vec<Vec<u8>>,
    /// How the run ended.
    pub ending: SessionEnding,
}

/// Everything one worker's handling of a message can read or write:
/// the compute-unit table (read-only here), the lock store, the
/// cluster table, and the two delay queues.
pub struct World {
    /// The regional pool of compute units.
    pub units: Vec<ComputeUnit>,
    /// The lock store, sole arbiter of unit availability.
    pub locks: LockStore,
    /// The durable cluster records.
    pub clusters: ClusterTable,
    /// The creation retry queue: holds a message for a fixed
    /// time-to-live, then dead-letters it back to the creation queue.
    pub retry_queue: Vec<QueuedMessage>,
    /// The deferred-deletion queue: holds the companion message of a
    /// created cluster, then dead-letters it to the deletion queue.
    pub waiting_queue: Vec<QueuedMessage>,
}

impl World {
    /// Well-formedness of all components.
    pub open spec fn wf(self) -> bool {
        &&& self.locks.wf()
        &&& self.clusters.wf()
        &&& distinct_unit_ids(self.units@)
    }
}

/// How the handling of one creation message ended.
#[derive(Clone, Copy, Debug, PartialEq, Eq, Structural)]
pub enum CreationReport {
    /// The payload is not a well-formed message; dropped.
    Dropped,
    /// No unit was available; the raw message was republished onto the
    /// retry queue.
    Requeued,
    /// A unit was reserved but the creation run failed; its reservation
    /// is left to expire, the cluster stays as last recorded.
    Failed { unit_index: usize, error: ExecError },
    /// The cluster was created: recorded running with its credentials,
    /// the unit's reservation released, the companion deletion message
    /// parked.
    Completed { unit_index: usize },
}

/// How the handling of one deletion message ended.
#[derive(Clone, Copy, Debug, PartialEq, Eq, Structural)]
pub enum DeletionReport {
    /// The payload is not a well-formed message; dropped.
    Dropped,
    /// No cluster record carries the identifier; nothing changes and
    /// the message is acknowledged normally.
    NotFound,
    /// The record exists but no host was ever assigned; nothing
    /// changes.
    NoAssignedHost,
    /// The assigned host is not in the compute-unit table; nothing
    /// changes.
    UnknownHost,
    /// The teardown run failed; nothing changes.
    Failed { error: ExecError },
    /// The cluster was torn down: its unit's lock released and its
    /// state recorded `Deleted`.
    Deleted { unit_id: i64 },
}

/// The unit at `index` is the first of the table on host `fqdn`.
pub open spec fn unit_on_host_at(units: Seq<ComputeUnit>, fqdn: Seq<u8>, index: int) -> bool {
    &&& 0 <= index < units.len()
    &&& units[index].fqdn@ == fqdn
    &&& forall|j: int| 0 <= j < index ==> (#[trigger] units[j]).fqdn@ != fqdn
}

/// No unit of the table is on host `fqdn`.
pub open spec fn no_unit_on_host(units: Seq<ComputeUnit>, fqdn: Seq<u8>) -> bool {
    forall|j: int| 0 <= j < units.len() ==> (#[trigger] units[j]).fqdn@ != fqdn
}

/// Index of the first unit on host `fqdn`, if any.
fn find_unit_by_fqdn(units: &Vec<ComputeUnit>, fqdn: &Vec<u8>) -> (r: Option<usize>)
    ensures
        match r {
            Some(i) => unit_on_host_at(units@, fqdn@, i as int),
            None => no_unit_on_host(units@, fqdn@),
        },
{
    let mut i: usize = 0;
    while i < units.len()
        invariant
            i <= units@.len(),
            forall|j: int| 0 <= j < i ==> (#[trigger] units@[j]).fqdn@ != fqdn@,
        decreases units@.len() - i,
    {
        if crate::text::bytes_eq(&units[i].fqdn, fqdn) {
            return Some(i);
        }
        i += 1;
    }
    None
}

/// Handles one creation message at `now_ms`: parse, allocate, run the
/// creation script (whose observed outcome is `run`), record, and
/// republish as the contract states for each report.
pub fn handle_creation(
    w: &mut World,
    raw: &Vec<u8>,
    now_ms: u64,
    region: &Vec<u8>,
    run: &ScriptRun,
) -> (r: CreationReport)
    requires
        old(w).wf(),
    ensures
        final(w).wf(),
        final(w).units@ == old(w).units@,
        match r {
            CreationReport::Dropped => {
                &&& spec_creation_message(raw@) is None
                &&& final(w).locks@ =~= old(w).locks@
                &&& final(w).clusters@ =~= old(w).clusters@
                &&& final(w).retry_queue.deep_view() == old(w).retry_queue.deep_view()
                &&& final(w).waiting_queue.deep_view() == old(w).waiting_queue.deep_view()
            },
            CreationReport::Requeued => {
                &&& spec_creation_message(raw@) is Some
                &&& region_exhausted(old(w).units@, old(w).locks@, region@)
                &&& final(w).locks@ =~= old(w).locks@
                &&& final(w).clusters@ =~= old(w).clusters@
                &&& final(w).retry_queue.deep_view() == old(w).retry_queue.deep_view().push(
                    SpecQueuedMessage {
                        payload: raw@,
                        enqueued_at_ms: now_ms,
                        ttl_ms: RETRY_TTL_MS,
                    },
                )
                &&& final(w).waiting_queue.deep_view() == old(w).waiting_queue.deep_view()
            },
            CreationReport::Failed { unit_index, error } => {
                &&& spec_creation_message(raw@) matches Some(cm) && {
                    &&& allocates_at(old(w).units@, old(w).locks@, region@, unit_index as int)
                    &&& conclusion(run.stdout_lines.deep_view(), run.ending) == Err::<
                        Seq<u8>,
                        ExecError,
                    >(error)
                    &&& final(w).locks@ =~= old(w).locks@.insert(
                        old(w).units@[unit_index as int].id,
                        LOCK_TTL_SECS,
                    )
                    &&& final(w).clusters@ =~= spec_set_parent(
                        spec_set_state(old(w).clusters@, cm.identifier, ClusterState::Init),
                        cm.identifier,
                        old(w).units@[unit_index as int].fqdn@,
                    )
                    &&& final(w).retry_queue.deep_view() == old(w).retry_queue.deep_view()
                    &&& final(w).waiting_queue.deep_view() == old(
                        w,
                    ).waiting_queue.deep_view()
                }
            },
            CreationReport::Completed { unit_index } => {
                &&& spec_creation_message(raw@) matches Some(cm) && {
                    &&& allocates_at(old(w).units@, old(w).locks@, region@, unit_index as int)
                    &&& conclusion(run.stdout_lines.deep_view(), run.ending) matches Ok(
                        payload,
                    ) && {
                        &&& final(w).locks@ =~= old(w).locks@
                        &&& final(w).clusters@ =~= spec_set_kubeconfig(
                            spec_set_state(
                                spec_set_parent(
                                    spec_set_state(
                                        old(w).clusters@,
                                        cm.identifier,
                                        ClusterState::Init,
                                    ),
                                    cm.identifier,
                                    old(w).units@[unit_index as int].fqdn@,
                                ),
                                cm.identifier,
                                ClusterState::Running,
                            ),
                            cm.identifier,
                            payload,
                        )
                        &&& final(w).retry_queue.deep_view() == old(
                            w,
                        ).retry_queue.deep_view()
                        &&& final(w).waiting_queue.deep_view() == old(
                            w,
                        ).waiting_queue.deep_view().push(
                            SpecQueuedMessage {
                                payload: raw@,
                                enqueued_at_ms: now_ms,
                                ttl_ms: WAITING_TTL_MS,
                            },
                        )
                    }
                }
            },
        },
{
    match parse_creation_message(raw) {
        None => CreationReport::Dropped,
        Some(cm) => {
            match allocate(&w.units, &mut w.locks, region) {
                AllocationOutcome::NoneAvailable => {
                    let ghost retry_before = w.retry_queue.deep_view();
                    let parked = QueuedMessage {
                        payload: copy_range(raw, 0, raw.len()),
                        enqueued_at_ms: now_ms,
                        ttl_ms: RETRY_TTL_MS,
                    };
                    proof {
                        assert(parked@.payload =~= raw@);
                    }
                    w.retry_queue.push(parked);
                    proof {
                        assert(w.retry_queue.deep_view() =~= retry_before.push(
                            SpecQueuedMessage {
                                payload: raw@,
                                enqueued_at_ms: now_ms,
                                ttl_ms: RETRY_TTL_MS,
                            },
                        ));
                    }
                    CreationReport::Requeued
                },
                AllocationOutcome::Allocated { index } => {
                    let unit_id = w.units[index].id;
                    let fqdn = copy_range(&w.units[index].fqdn, 0, w.units[index].fqdn.len());
                    proof {
                        assert(fqdn@ =~= w.units@[index as int].fqdn@);
                    }
                    w.clusters.set_state(&cm.identifier, ClusterState::Init);
                    w.clusters.set_parent_host(&cm.identifier, &fqdn);
                    match conclude_run(&run.stdout_lines, run.ending) {
                        Ok(payload) => {
                            release_compute_unit_lock(&mut w.locks, unit_id);
                            proof {
                                assert(w.locks@ =~= old(w).locks@);
                            }
                            w.clusters.set_state(&cm.identifier, ClusterState::Running);
                            w.clusters.set_kubeconfig(&cm.identifier, &payload);
                            let ghost waiting_before = w.waiting_queue.deep_view();
                            let companion = QueuedMessage {
                                payload: copy_range(raw, 0, raw.len()),
                                enqueued_at_ms: now_ms,
                                ttl_ms: WAITING_TTL_MS,
                            };
                            proof {
                                assert(companion@.payload =~= raw@);
                            }
                            w.waiting_queue.push(companion);
                            proof {
                                assert(w.waiting_queue.deep_view() =~= waiting_before.push(
                                    SpecQueuedMessage {
                                        payload: raw@,
                                        enqueued_at_ms: now_ms,
                                        ttl_ms: WAITING_TTL_MS,
                                    },
                                ));
                            }
                            CreationReport::Completed { unit_index: index }
                        },
                        Err(error) => CreationReport::Failed { unit_index: index, error },
                    }
                },
            }
        },
    }
}

/// Handles one deletion message: parse, look up the cluster's assigned
/// host, run the teardown script (whose observed outcome is `run`),
/// and on success release the unit's lock and record the terminal
/// state. An unknown cluster changes nothing and is acknowledged
/// normally.
#[verifier::rlimit(60)]
pub fn handle_deletion(w: &mut World, raw: &Vec<u8>, run: &ScriptRun) -> (r: DeletionReport)
    requires
        old(w).wf(),
    ensures
        final(w).wf(),
        final(w).units@ == old(w).units@,
        final(w).retry_queue.deep_view() == old(w).retry_queue.deep_view(),
        final(w).waiting_queue.deep_view() == old(w).waiting_queue.deep_view(),
        r is Dropped ==> {
            &&& spec_deletion_message(raw@) is None
            &&& final(w).locks@ =~= old(w).locks@
            &&& final(w).clusters@ =~= old(w).clusters@
        },
        r is NotFound ==> {
            &&& spec_deletion_message(raw@) matches Some(dm) && !old(w).clusters@.contains_key(
                dm.identifier,
            )
            &&& final(w).locks@ =~= old(w).locks@
            &&& final(w).clusters@ =~= old(w).clusters@
        },
        r is NoAssignedHost ==> {
            &&& spec_deletion_message(raw@) matches Some(dm) && {
                &&& old(w).clusters@.contains_key(dm.identifier)
                &&& old(w).clusters@[dm.identifier].parent_server_fqdn is None
            }
            &&& final(w).locks@ =~= old(w).locks@
            &&& final(w).clusters@ =~= old(w).clusters@
        },
        r is UnknownHost ==> {
            &&& spec_deletion_message(raw@) matches Some(dm) && {
                &&& old(w).clusters@.contains_key(dm.identifier)
                &&& old(w).clusters@[dm.identifier].parent_server_fqdn matches Some(fqdn)
                    && no_unit_on_host(old(w).units@, fqdn)
            }
            &&& final(w).locks@ =~= old(w).locks@
            &&& final(w).clusters@ =~= old(w).clusters@
        },
        r matches DeletionReport::Failed { error } ==> {
            &&& spec_deletion_message(raw@) matches Some(dm) && old(w).clusters@.contains_key(
                dm.identifier,
            )
            &&& deletion_conclusion(run.ending) == Err::<(), ExecError>(error)
            &&& final(w).locks@ =~= old(w).locks@
            &&& final(w).clusters@ =~= old(w).clusters@
        },
        r matches DeletionReport::Deleted { unit_id } ==> {
            &&& spec_deletion_message(raw@) matches Some(dm) && {
                &&& old(w).clusters@.contains_key(dm.identifier)
                &&& old(w).clusters@[dm.identifier].parent_server_fqdn matches Some(fqdn)
                    && {
                    &&& exists|i: int|
                        unit_on_host_at(old(w).units@, fqdn, i) && old(w).units@[i].id
                            == unit_id
                    &&& deletion_conclusion(run.ending) == Ok::<(), ExecError>(())
                    &&& final(w).locks@ =~= old(w).locks@.remove(unit_id)
                    &&& final(w).clusters@ =~= spec_set_state(
                        old(w).clusters@,
                        dm.identifier,
                        ClusterState::Deleted,
                    )
                }
            }
        },
{
    match parse_deletion_message(raw) {
        None => DeletionReport::Dropped,
        Some(dm) => {
            if !w.clusters.contains(&dm.identifier) {
                return DeletionReport::NotFound;
            }
            match w.clusters.parent_of(&dm.identifier) {
                None => DeletionReport::NoAssignedHost,
                Some(fqdn) => {
                    match find_unit_by_fqdn(&w.units, &fqdn) {
                        None => DeletionReport::UnknownHost,
                        Some(i) => {
                            let unit_id = w.units[i].id;
                            match conclude_deletion_run(run.ending) {
                                Ok(()) => {
                                    release_compute_unit_lock(&mut w.locks, unit_id);
                                    w.clusters.set_state(
                                        &dm.identifier,
                                        ClusterState::Deleted,
                                    );
                                    proof {
                                        let fs = old(
                                            w,
                                        ).clusters@[dm.identifier@].parent_server_fqdn->Some_0;
                                        assert(fqdn@ == fs);
                                        assert(unit_on_host_at(old(w).units@, fs, i as int)
                                            && old(w).units@[i as int].id == unit_id);
                                    }
                                    DeletionReport::Deleted { unit_id }
                                },
                                Err(error) => DeletionReport::Failed { error },
                            }
                        },
                    }
                },
            }
        },
    }
}

} // verus!
