//! The resource-lock allocator: picks one free compute unit per request
//! and reserves it in the lock store.
//!
//! The compute-unit table is a coarse, externally managed pre-filter
//! (its `available` flag is never written here); the lock store is the
//! sole arbiter. An allocation scans the candidates of the region in
//! table order and reserves the first one whose lock can be acquired;
//! a unit whose lock is already held is skipped, exactly as the
//! exclusion-and-retry protocol over a stable candidate table does.
use vstd::prelude::*;

use crate::lock::LockStore;
use crate::text::bytes_eq;
use crate::LOCK_TTL_SECS;

verus! {

/// A host capable of running one cluster, drawn from a regional pool.
/// The row is immutable to this crate: created, deleted and marked
/// available externally; only its lock is acquired and released here.
#[derive(Clone, Debug)]
pub struct ComputeUnit {
    /// Unique identifier, the lock store's key.
    pub id: i64,
    /// Network address of the host.
    pub fqdn: Vec<u8>,
    /// Region the unit serves.
    pub region_code: Vec<u8>,
    /// Externally managed pre-filter; never written by this crate.
    pub available: bool,
}

/// Whether `unit` is a candidate for an allocation in `region`.
pub open spec fn is_candidate(unit: ComputeUnit, region: Seq<u8>) -> bool {
    unit.available && unit.region_code@ == region
}

/// No two units of the table share an identifier.
pub open spec fn distinct_unit_ids(units: Seq<ComputeUnit>) -> bool {
    forall|i: int, j: int|
        0 <= i < j < units.len() ==> (#[trigger] units[i]).id != (#[trigger] units[j]).id
}

/// The conditions under which an allocation in `region` reserves the
/// unit at `index`: the unit is a free candidate and every candidate
/// standing earlier in the table is already reserved.
pub open spec fn allocates_at(
    units: Seq<ComputeUnit>,
    locks: Map<i64, u64>,
    region: Seq<u8>,
    index: int,
) -> bool {
    &&& 0 <= index < units.len()
    &&& is_candidate(units[index], region)
    &&& !locks.contains_key(units[index].id)
    &&& forall|j: int|
        0 <= j < index && is_candidate(#[trigger] units[j], region) ==> locks.contains_key(
            units[j].id,
        )
}

/// Every candidate of the region is already reserved (or none exists):
/// "no unit available".
pub open spec fn region_exhausted(
    units: Seq<ComputeUnit>,
    locks: Map<i64, u64>,
    region: Seq<u8>,
) -> bool {
    forall|j: int|
        0 <= j < units.len() && is_candidate(#[trigger] units[j], region)
            ==> locks.contains_key(units[j].id)
}

/// Of two allocations with no release in between, the second never
/// receives the unit the first reserved: every other attempt gets a
/// different unit or none at all.
pub proof fn lemma_second_allocation_differs(
    units: Seq<ComputeUnit>,
    locks: Map<i64, u64>,
    region: Seq<u8>,
    i: int,
    j: int,
)
    requires
        allocates_at(units, locks, region, i),
        allocates_at(units, locks.insert(units[i].id, LOCK_TTL_SECS), region, j),
    ensures
        units[j].id != units[i].id,
{
}

/// Result of one allocation attempt. "No unit available" is an
/// expected outcome under contention, not an error.
#[derive(Clone, Copy, Debug, PartialEq, Eq, Structural)]
pub enum AllocationOutcome {
    /// The unit at this index of the table was reserved.
    Allocated { index: usize },
    /// Every candidate of the region was already reserved, or the
    /// region has no candidate at all.
    NoneAvailable,
}

/// Reserves the first candidate of `region` whose lock is free, with
/// the fixed reservation time-to-live. On success the chosen unit's
/// lock — and nothing else — is created; every candidate standing
/// earlier in the table was already reserved. When every candidate is
/// reserved (or none exists), the store is left unchanged.
pub fn allocate(units: &Vec<ComputeUnit>, locks: &mut LockStore, region: &Vec<u8>) -> (r:
    AllocationOutcome)
    requires
        old(locks).wf(),
    ensures
        final(locks).wf(),
        match r {
            AllocationOutcome::Allocated { index } => {
                &&& allocates_at(units@, old(locks)@, region@, index as int)
                &&& final(locks)@ =~= old(locks)@.insert(
                    units@[index as int].id,
                    LOCK_TTL_SECS,
                )
            },
            AllocationOutcome::NoneAvailable => {
                &&& final(locks)@ =~= old(locks)@
                &&& region_exhausted(units@, old(locks)@, region@)
            },
        },
{
    let mut i: usize = 0;
    while i < units.len()
        invariant
            locks.wf(),
            i <= units@.len(),
            locks@ =~= old(locks)@,
            forall|j: int|
                0 <= j < i && is_candidate(#[trigger] units@[j], region@)
                    ==> old(locks)@.contains_key(units@[j].id),
        decreases units@.len() - i,
    {
        let unit = &units[i];
        if unit.available && bytes_eq(&unit.region_code, region) {
            if locks.acquire(unit.id, LOCK_TTL_SECS) {
                return AllocationOutcome::Allocated { index: i };
            }
        }
        i += 1;
    }
    AllocationOutcome::NoneAvailable
}

/// Outcome of one lock-store acquisition attempt, as the driver of the
/// exclusion-and-retry protocol observed it against the real store.
#[derive(Clone, Copy, Debug, PartialEq, Eq, Structural)]
pub enum LockAttempt {
    /// The reservation was created; the unit is ours.
    Acquired,
    /// A concurrent allocation holds the unit.
    AlreadyHeld,
    /// The store itself failed; infrastructure error, not contention.
    StoreFailed,
}

/// What the allocation protocol does after one acquisition attempt.
#[derive(Clone, Copy, Debug, PartialEq, Eq, Structural)]
pub enum AllocationStep {
    /// Terminal success: return the unit just reserved.
    Finish,
    /// Exclude the unit and query for the next candidate at once.
    Retry,
    /// Abort the whole allocation attempt; no retry on infrastructure
    /// errors.
    Abort,
}

/// The allocation protocol's decision after attempting to reserve
/// `unit_id`: contention excludes the unit and retries immediately, a
/// store failure aborts, success finishes. The exclusion set grows
/// only on contention.
pub fn allocation_step(excluded: &mut Vec<i64>, unit_id: i64, attempt: LockAttempt) -> (d:
    AllocationStep)
    ensures
        attempt == LockAttempt::Acquired ==> d == AllocationStep::Finish && final(excluded)@
            == old(excluded)@,
        attempt == LockAttempt::AlreadyHeld ==> d == AllocationStep::Retry && final(excluded)@
            == old(excluded)@.push(unit_id),
        attempt == LockAttempt::StoreFailed ==> d == AllocationStep::Abort && final(excluded)@
            == old(excluded)@,
{
    match attempt {
        LockAttempt::Acquired => AllocationStep::Finish,
        LockAttempt::AlreadyHeld => {
            excluded.push(unit_id);
            AllocationStep::Retry
        },
        LockAttempt::StoreFailed => AllocationStep::Abort,
    }
}

/// Releases the lock of a compute unit after use. Idempotent: a unit
/// that is not reserved stays unreserved, and the call succeeds.
pub fn release_compute_unit_lock(locks: &mut LockStore, compute_unit_id: i64)
    requires
        old(locks).wf(),
    ensures
        final(locks).wf(),
        final(locks)@ =~= old(locks)@.remove(compute_unit_id),
{
    locks.release(compute_unit_id);
}

/// Unconditionally deletes a unit's lock: the administrative recovery
/// path for stuck locks left behind by a crashed worker.
pub fn reset_lock(locks: &mut LockStore, compute_unit_id: i64)
    requires
        old(locks).wf(),
    ensures
        final(locks).wf(),
        final(locks)@ =~= old(locks)@.remove(compute_unit_id),
{
    locks.release(compute_unit_id);
}

} // verus!
