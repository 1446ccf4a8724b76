//! Model of the ephemeral lock store that arbitrates compute-unit
//! availability.
//!
//! The store keeps one entry per reserved compute unit, keyed by the
//! unit's identifier and carrying the time-to-live the reservation was
//! created with. Acquisition is atomic "create unless already present":
//! exactly the semantics the allocator relies on for mutual exclusion.
//! Expiry of a time-to-live behaves like a release performed by the
//! store itself, so both are modelled by [`LockStore::release`].
use vstd::prelude::*;

verus! {

/// One reservation in the lock store.
#[derive(Clone, Copy, Debug)]
pub struct LockEntry {
    /// Identifier of the reserved compute unit.
    pub unit_id: i64,
    /// Time-to-live, in seconds, the reservation was created with.
    pub ttl_secs: u64,
}

/// The lock store: a set of reservations, at most one per compute unit.
/// Its view is the map from reserved unit identifiers to the
/// time-to-live of their reservation.
pub struct LockStore {
    entries: Vec<LockEntry>,
}

/// The map that a sequence of reservation entries denotes.
spec fn entries_map(s: Seq<LockEntry>) -> Map<i64, u64>
    decreases s.len(),
{
    if s.len() == 0 {
        Map::empty()
    } else {
        entries_map(s.drop_last()).insert(s.last().unit_id, s.last().ttl_secs)
    }
}

/// A key is in the denoted map exactly when some entry carries it.
proof fn lemma_entries_map_contains(s: Seq<LockEntry>, id: i64)
    ensures
        entries_map(s).contains_key(id) <==> exists|i: int|
            0 <= i < s.len() && #[trigger] s[i].unit_id == id,
    decreases s.len(),
{
    if s.len() > 0 {
        lemma_entries_map_contains(s.drop_last(), id);
        if s.last().unit_id == id {
            assert(s[s.len() - 1].unit_id == id);
        } else if entries_map(s.drop_last()).contains_key(id) {
            let i = choose|i: int| 0 <= i < s.drop_last().len() && #[trigger] s.drop_last()[i].unit_id == id;
            assert(s[i].unit_id == id);
        } else if exists|i: int| 0 <= i < s.len() && #[trigger] s[i].unit_id == id {
            let i = choose|i: int| 0 <= i < s.len() && #[trigger] s[i].unit_id == id;
            assert(i < s.len() - 1 ==> s.drop_last()[i].unit_id == id);
        }
    }
}

/// Removing the one entry that carries `id` removes exactly `id` from
/// the denoted map.
proof fn lemma_entries_map_remove(s: Seq<LockEntry>, idx: int)
    requires
        0 <= idx < s.len(),
        forall|i: int, j: int|
            0 <= i < j < s.len() ==> #[trigger] s[i].unit_id != #[trigger] s[j].unit_id,
    ensures
        entries_map(s.remove(idx)) =~= entries_map(s).remove(s[idx].unit_id),
    decreases s.len(),
{
    let id = s[idx].unit_id;
    lemma_entries_map_contains(s.drop_last(), id);
    if idx == s.len() - 1 {
        assert(s.remove(idx) =~= s.drop_last());
        assert(!entries_map(s.drop_last()).contains_key(id));
        assert(entries_map(s.drop_last()).insert(s.last().unit_id, s.last().ttl_secs).remove(id)
            =~= entries_map(s.drop_last()));
    } else {
        let shorter = s.drop_last();
        assert(s.remove(idx).drop_last() =~= shorter.remove(idx));
        assert(s.remove(idx).last() == s.last());
        lemma_entries_map_remove(shorter, idx);
        assert(entries_map(s.remove(idx)) =~= entries_map(shorter).remove(id).insert(
            s.last().unit_id,
            s.last().ttl_secs,
        ));
        assert(s.last().unit_id != id);
    }
}

impl LockStore {
    /// No two entries reserve the same unit.
    pub closed spec fn wf(self) -> bool {
        forall|i: int, j: int|
            0 <= i < j < self.entries.len() ==> #[trigger] self.entries[i].unit_id
                != #[trigger] self.entries[j].unit_id
    }

    /// An empty lock store: nothing is reserved.
    pub fn new() -> (s: LockStore)
        ensures
            s.wf(),
            s@ =~= Map::<i64, u64>::empty(),
    {
        LockStore { entries: Vec::new() }
    }

    /// Index of the entry reserving `unit_id`, if any.
    fn find(&self, unit_id: i64) -> (r: Option<usize>)
        ensures
            match r {
                Some(i) => i < self.entries@.len() && self.entries@[i as int].unit_id == unit_id,
                None => forall|i: int|
                    0 <= i < self.entries@.len() ==> #[trigger] self.entries@[i].unit_id != unit_id,
            },
    {
        let mut i: usize = 0;
        while i < self.entries.len()
            invariant
                i <= self.entries@.len(),
                forall|j: int| 0 <= j < i ==> #[trigger] self.entries@[j].unit_id != unit_id,
            decreases self.entries@.len() - i,
        {
            if self.entries[i].unit_id == unit_id {
                return Some(i);
            }
            i += 1;
        }
        None
    }

    /// Whether `unit_id` is currently reserved.
    pub fn is_locked(&self, unit_id: i64) -> (r: bool)
        ensures
            r == self@.contains_key(unit_id),
    {
        proof {
            lemma_entries_map_contains(self.entries@, unit_id);
        }
        self.find(unit_id).is_some()
    }

    /// Atomically reserves `unit_id` for `ttl_secs` unless it is already
    /// reserved. Returns whether the reservation was created; on failure
    /// the store is unchanged. This is the allocator's only serialization
    /// point: of any number of attempts on the same identifier, only the
    /// one that finds the key absent succeeds.
    pub fn acquire(&mut self, unit_id: i64, ttl_secs: u64) -> (r: bool)
        requires
            old(self).wf(),
        ensures
            final(self).wf(),
            r == !old(self)@.contains_key(unit_id),
            r ==> final(self)@ =~= old(self)@.insert(unit_id, ttl_secs),
            !r ==> final(self)@ =~= old(self)@,
    {
        proof {
            lemma_entries_map_contains(self.entries@, unit_id);
        }
        match self.find(unit_id) {
            Some(_) => false,
            None => {
                self.entries.push(LockEntry { unit_id, ttl_secs });
                proof {
                    assert(self.entries@.drop_last() =~= old(self).entries@);
                }
                true
            },
        }
    }

    /// Deletes the reservation of `unit_id`. Always succeeds: releasing
    /// a lock that does not exist leaves the store unchanged, so the
    /// operation is idempotent.
    pub fn release(&mut self, unit_id: i64)
        requires
            old(self).wf(),
        ensures
            final(self).wf(),
            final(self)@ =~= old(self)@.remove(unit_id),
    {
        proof {
            lemma_entries_map_contains(self.entries@, unit_id);
        }
        match self.find(unit_id) {
            Some(i) => {
                proof {
                    lemma_entries_map_remove(self.entries@, i as int);
                }
                self.entries.remove(i);
            },
            None => {
                proof {
                    assert(self@ =~= self@.remove(unit_id));
                }
            },
        }
    }
}

/// One operation on the lock store, as the store serializes them.
/// Expiry of a reservation's time-to-live counts as a `Release`.
pub enum LockOp {
    /// An attempt to reserve `unit_id` for `ttl_secs`.
    Acquire { unit_id: i64, ttl_secs: u64 },
    /// Deletion of the reservation of `unit_id`, explicit or by expiry.
    Release { unit_id: i64 },
}

impl LockOp {
    /// Whether this operation is an acquisition attempt on `k`.
    pub open spec fn acquires(self, k: i64) -> bool {
        self matches LockOp::Acquire { unit_id, .. } && unit_id == k
    }

    /// Whether this operation releases `k`.
    pub open spec fn releases(self, k: i64) -> bool {
        self matches LockOp::Release { unit_id } && unit_id == k
    }
}

/// What the store holds after it performs `op` on `m`; exactly the
/// postconditions of [`LockStore::acquire`] and [`LockStore::release`].
pub open spec fn apply_op(m: Map<i64, u64>, op: LockOp) -> Map<i64, u64> {
    match op {
        LockOp::Acquire { unit_id, ttl_secs } => if m.contains_key(unit_id) {
            m
        } else {
            m.insert(unit_id, ttl_secs)
        },
        LockOp::Release { unit_id } => m.remove(unit_id),
    }
}

/// Whether `op` succeeds on `m`: a release always does, an acquisition
/// only when the key is absent.
pub open spec fn op_succeeds(m: Map<i64, u64>, op: LockOp) -> bool {
    match op {
        LockOp::Acquire { unit_id, .. } => !m.contains_key(unit_id),
        LockOp::Release { .. } => true,
    }
}

/// The store's contents after the first `n` of the operations in `ops`,
/// performed in order on the initial contents `m0`.
pub open spec fn state_after(m0: Map<i64, u64>, ops: Seq<LockOp>, n: int) -> Map<i64, u64>
    decreases n,
{
    if n <= 0 {
        m0
    } else {
        apply_op(state_after(m0, ops, n - 1), ops[n - 1])
    }
}

/// A reserved key stays reserved across any stretch of operations that
/// does not release it.
proof fn lemma_key_persists(m0: Map<i64, u64>, ops: Seq<LockOp>, k: i64, i: int, j: int)
    requires
        0 <= i <= j <= ops.len(),
        state_after(m0, ops, i).contains_key(k),
        forall|r: int| i <= r < j ==> !(#[trigger] ops[r]).releases(k),
    ensures
        state_after(m0, ops, j).contains_key(k),
    decreases j - i,
{
    if i < j {
        lemma_key_persists(m0, ops, k, i, j - 1);
    }
}

/// However many acquisition attempts on the same compute unit the store
/// serializes, at most one succeeds until the unit is released: if the
/// attempt at position `i` succeeded and no operation in between
/// releases the unit, the attempt at position `j` fails.
pub proof fn lemma_at_most_one_acquisition(
    m0: Map<i64, u64>,
    ops: Seq<LockOp>,
    k: i64,
    i: int,
    j: int,
)
    requires
        0 <= i < j < ops.len(),
        ops[i].acquires(k),
        op_succeeds(state_after(m0, ops, i), ops[i]),
        forall|r: int| i < r < j ==> !(#[trigger] ops[r]).releases(k),
        ops[j].acquires(k),
    ensures
        !op_succeeds(state_after(m0, ops, j), ops[j]),
{
    assert(state_after(m0, ops, i + 1).contains_key(k));
    lemma_key_persists(m0, ops, k, i + 1, j);
}

/// Releasing a reservation that does not exist changes nothing: the
/// operation is idempotent.
pub proof fn lemma_release_absent_is_noop(m: Map<i64, u64>, k: i64)
    requires
        !m.contains_key(k),
    ensures
        m.remove(k) =~= m,
{
}

impl View for LockStore {
    type V = Map<i64, u64>;

    closed spec fn view(&self) -> Map<i64, u64> {
        entries_map(self.entries@)
    }
}

} // verus!
