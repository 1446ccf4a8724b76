//! Cluster lifecycle states and the rule that governs their transitions.
//!
//! A cluster moves forward along `Init -> Running -> Deleting -> Deleted`.
//! A state is never moved backward, and `Deleted` is terminal: once a
//! record reaches it, every later transition request other than `Deleted`
//! itself is rejected.
use vstd::prelude::*;

verus! {

/// Lifecycle state of a cluster record.
#[derive(Clone, Copy, Debug, PartialEq, Eq, Structural)]
pub enum ClusterState {
    /// Request accepted; allocation or remote execution is in flight.
    Init,
    /// The creation script succeeded and credentials were captured.
    Running,
    /// Deletion was requested; teardown has not finished yet.
    Deleting,
    /// The teardown script succeeded. Terminal.
    Deleted,
}

impl ClusterState {
    /// Position of the state along the forward lifecycle order.
    pub open spec fn rank(self) -> int {
        match self {
            ClusterState::Init => 0,
            ClusterState::Running => 1,
            ClusterState::Deleting => 2,
            ClusterState::Deleted => 3,
        }
    }
}

/// A transition from `from` to `to` is accepted when it does not move
/// backward; `Deleted` only ever transitions to itself.
pub open spec fn can_transition(from: ClusterState, to: ClusterState) -> bool {
    from.rank() <= to.rank()
}

/// Decides whether a requested state change is accepted by the recorder.
pub fn transition_allowed(from: ClusterState, to: ClusterState) -> (r: bool)
    ensures
        r == can_transition(from, to),
{
    let from_rank: u8 = match from {
        ClusterState::Init => 0,
        ClusterState::Running => 1,
        ClusterState::Deleting => 2,
        ClusterState::Deleted => 3,
    };
    let to_rank: u8 = match to {
        ClusterState::Init => 0,
        ClusterState::Running => 1,
        ClusterState::Deleting => 2,
        ClusterState::Deleted => 3,
    };
    from_rank <= to_rank
}

/// A cluster's durable record: the provisioning request and what has
/// become of it. Rows are never deleted; teardown only marks the state.
#[derive(Debug)]
pub struct ClusterRecord {
    /// External identifier, the key of the record.
    pub identifier: Vec<u8>,
    /// Current lifecycle state.
    pub state: ClusterState,
    /// Address of the host the cluster was assigned to; `None` until
    /// allocation succeeds.
    pub parent_server_fqdn: Option<Vec<u8>>,
    /// Captured credential payload; `None` until creation succeeds.
    pub kubeconfig: Option<Vec<u8>>,
}

/// Specification-level contents of one record, keyed by identifier in
/// the table's view.
pub struct ClusterInfo {
    /// Current lifecycle state.
    pub state: ClusterState,
    /// Address of the assigned host, if any.
    pub parent_server_fqdn: Option<Seq<u8>>,
    /// Captured credential payload, if any.
    pub kubeconfig: Option<Seq<u8>>,
}

/// The view of an optional byte string.
pub open spec fn opt_bytes(o: Option<Vec<u8>>) -> Option<Seq<u8>> {
    match o {
        Some(v) => Some(v@),
        None => None,
    }
}

impl View for ClusterRecord {
    type V = ClusterInfo;

    open spec fn view(&self) -> ClusterInfo {
        ClusterInfo {
            state: self.state,
            parent_server_fqdn: opt_bytes(self.parent_server_fqdn),
            kubeconfig: opt_bytes(self.kubeconfig),
        }
    }
}

/// The map a sequence of records denotes, keyed by identifier.
spec fn cluster_map(s: Seq<ClusterRecord>) -> Map<Seq<u8>, ClusterInfo>
    decreases s.len(),
{
    if s.len() == 0 {
        Map::empty()
    } else {
        cluster_map(s.drop_last()).insert(s.last().identifier@, s.last()@)
    }
}

/// A key is in the denoted map exactly when some record carries it.
proof fn lemma_cluster_map_contains(s: Seq<ClusterRecord>, id: Seq<u8>)
    ensures
        cluster_map(s).contains_key(id) <==> exists|i: int|
            0 <= i < s.len() && #[trigger] s[i].identifier@ == id,
    decreases s.len(),
{
    if s.len() > 0 {
        lemma_cluster_map_contains(s.drop_last(), id);
        if s.last().identifier@ == id {
            assert(s[s.len() - 1].identifier@ == id);
        } else if cluster_map(s.drop_last()).contains_key(id) {
            let i = choose|i: int|
                0 <= i < s.drop_last().len() && #[trigger] s.drop_last()[i].identifier@ == id;
            assert(s[i].identifier@ == id);
        } else if exists|i: int| 0 <= i < s.len() && #[trigger] s[i].identifier@ == id {
            let i = choose|i: int| 0 <= i < s.len() && #[trigger] s[i].identifier@ == id;
            assert(i < s.len() - 1 ==> s.drop_last()[i].identifier@ == id);
        }
    }
}

/// With distinct keys, the record at `idx` is what the map holds for
/// its identifier.
proof fn lemma_cluster_map_value(s: Seq<ClusterRecord>, idx: int)
    requires
        0 <= idx < s.len(),
        forall|i: int, j: int|
            0 <= i < j < s.len() ==> (#[trigger] s[i]).identifier@ != (
            #[trigger] s[j]).identifier@,
    ensures
        cluster_map(s).contains_key(s[idx].identifier@),
        cluster_map(s)[s[idx].identifier@] == s[idx]@,
    decreases s.len(),
{
    lemma_cluster_map_contains(s, s[idx].identifier@);
    if idx == s.len() - 1 {
    } else {
        lemma_cluster_map_value(s.drop_last(), idx);
        assert(s.drop_last()[idx] == s[idx]);
        assert(s.last().identifier@ != s[idx].identifier@);
    }
}

/// Replacing the record at `idx` by one with the same identifier is an
/// overwriting insertion in the denoted map.
proof fn lemma_cluster_map_update(s: Seq<ClusterRecord>, idx: int, r: ClusterRecord)
    requires
        0 <= idx < s.len(),
        r.identifier@ == s[idx].identifier@,
        forall|i: int, j: int|
            0 <= i < j < s.len() ==> (#[trigger] s[i]).identifier@ != (
            #[trigger] s[j]).identifier@,
    ensures
        cluster_map(s.update(idx, r)) =~= cluster_map(s).insert(r.identifier@, r@),
    decreases s.len(),
{
    let id = r.identifier@;
    lemma_cluster_map_contains(s.drop_last(), id);
    if idx == s.len() - 1 {
        assert(s.update(idx, r).drop_last() =~= s.drop_last());
        assert(s.update(idx, r).last() == r);
        assert(cluster_map(s.update(idx, r)) =~= cluster_map(s).insert(id, r@));
    } else {
        assert(s.update(idx, r).drop_last() =~= s.drop_last().update(idx, r));
        assert(s.update(idx, r).last() == s.last());
        assert(s.drop_last()[idx] == s[idx]);
        lemma_cluster_map_update(s.drop_last(), idx, r);
        assert(s.last().identifier@ != id);
        assert(cluster_map(s.update(idx, r)) =~= cluster_map(s).insert(id, r@));
    }
}

/// What the recorder does to the table on a requested state change:
/// nothing for an unknown identifier, nothing for a transition the
/// lifecycle order rejects, and an overwriting update otherwise.
pub open spec fn spec_set_state(
    m: Map<Seq<u8>, ClusterInfo>,
    id: Seq<u8>,
    st: ClusterState,
) -> Map<Seq<u8>, ClusterInfo> {
    if m.contains_key(id) && can_transition(m[id].state, st) {
        m.insert(
            id,
            ClusterInfo {
                state: st,
                parent_server_fqdn: m[id].parent_server_fqdn,
                kubeconfig: m[id].kubeconfig,
            },
        )
    } else {
        m
    }
}

/// What recording an assigned host does to the table.
pub open spec fn spec_set_parent(
    m: Map<Seq<u8>, ClusterInfo>,
    id: Seq<u8>,
    fqdn: Seq<u8>,
) -> Map<Seq<u8>, ClusterInfo> {
    if m.contains_key(id) {
        m.insert(
            id,
            ClusterInfo {
                state: m[id].state,
                parent_server_fqdn: Some(fqdn),
                kubeconfig: m[id].kubeconfig,
            },
        )
    } else {
        m
    }
}

/// What recording captured credentials does to the table.
pub open spec fn spec_set_kubeconfig(
    m: Map<Seq<u8>, ClusterInfo>,
    id: Seq<u8>,
    cfg: Seq<u8>,
) -> Map<Seq<u8>, ClusterInfo> {
    if m.contains_key(id) {
        m.insert(
            id,
            ClusterInfo {
                state: m[id].state,
                parent_server_fqdn: m[id].parent_server_fqdn,
                kubeconfig: Some(cfg),
            },
        )
    } else {
        m
    }
}

/// Outcome of one recorded state change.
#[derive(Clone, Copy, Debug, PartialEq, Eq, Structural)]
pub enum SetStateOutcome {
    /// The record exists and the transition was accepted and written.
    Updated,
    /// The record exists but the transition moves backward (or leaves
    /// the terminal state); nothing was written.
    Rejected,
    /// No record carries the identifier; nothing was written.
    NoSuchCluster,
}

/// The durable cluster table: one record per identifier. Its view is
/// the map from identifiers to record contents.
pub struct ClusterTable {
    records: Vec<ClusterRecord>,
}

impl View for ClusterTable {
    type V = Map<Seq<u8>, ClusterInfo>;

    closed spec fn view(&self) -> Map<Seq<u8>, ClusterInfo> {
        cluster_map(self.records@)
    }
}

fn copy_bytes(v: &Vec<u8>) -> (r: Vec<u8>)
    ensures
        r@ == v@,
{
    crate::text::copy_range(v, 0, v.len())
}

fn copy_opt_bytes(o: &Option<Vec<u8>>) -> (r: Option<Vec<u8>>)
    ensures
        opt_bytes(r) == opt_bytes(*o),
{
    match o {
        Some(v) => Some(copy_bytes(v)),
        None => None,
    }
}

impl ClusterTable {
    /// No two records carry the same identifier.
    pub closed spec fn wf(self) -> bool {
        forall|i: int, j: int|
            0 <= i < j < self.records.len() ==> (#[trigger] self.records[i]).identifier@ != (
            #[trigger] self.records[j]).identifier@
    }

    /// An empty table.
    pub fn new() -> (t: ClusterTable)
        ensures
            t.wf(),
            t@ =~= Map::<Seq<u8>, ClusterInfo>::empty(),
    {
        ClusterTable { records: Vec::new() }
    }

    /// Index of the record carrying `id`, if any.
    fn find(&self, id: &Vec<u8>) -> (r: Option<usize>)
        ensures
            match r {
                Some(i) => i < self.records@.len() && self.records@[i as int].identifier@
                    == id@,
                None => forall|i: int|
                    0 <= i < self.records@.len() ==> (
                    #[trigger] self.records@[i]).identifier@ != id@,
            },
    {
        let mut i: usize = 0;
        while i < self.records.len()
            invariant
                i <= self.records@.len(),
                forall|j: int|
                    0 <= j < i ==> (#[trigger] self.records@[j]).identifier@ != id@,
            decreases self.records@.len() - i,
        {
            if crate::text::bytes_eq(&self.records[i].identifier, id) {
                return Some(i);
            }
            i += 1;
        }
        None
    }

    /// Whether a record carries `id`.
    pub fn contains(&self, id: &Vec<u8>) -> (r: bool)
        ensures
            r == self@.contains_key(id@),
    {
        proof {
            lemma_cluster_map_contains(self.records@, id@);
        }
        self.find(id).is_some()
    }

    /// The recorded state of cluster `id`, if it has a record.
    pub fn state_of(&self, id: &Vec<u8>) -> (r: Option<ClusterState>)
        requires
            self.wf(),
        ensures
            match r {
                Some(st) => self@.contains_key(id@) && self@[id@].state == st,
                None => !self@.contains_key(id@),
            },
    {
        proof {
            lemma_cluster_map_contains(self.records@, id@);
        }
        match self.find(id) {
            Some(i) => {
                proof {
                    lemma_cluster_map_value(self.records@, i as int);
                }
                Some(self.records[i].state)
            },
            None => None,
        }
    }

    /// The recorded host assignment of cluster `id`.
    pub fn parent_of(&self, id: &Vec<u8>) -> (r: Option<Vec<u8>>)
        requires
            self.wf(),
            self@.contains_key(id@),
        ensures
            opt_bytes(r) == self@[id@].parent_server_fqdn,
    {
        proof {
            lemma_cluster_map_contains(self.records@, id@);
        }
        match self.find(id) {
            Some(i) => {
                proof {
                    lemma_cluster_map_value(self.records@, i as int);
                }
                copy_opt_bytes(&self.records[i].parent_server_fqdn)
            },
            None => {
                proof {
                    assert(false);
                }
                None
            },
        }
    }

    /// The recorded credential payload of cluster `id`.
    pub fn kubeconfig_of(&self, id: &Vec<u8>) -> (r: Option<Vec<u8>>)
        requires
            self.wf(),
            self@.contains_key(id@),
        ensures
            opt_bytes(r) == self@[id@].kubeconfig,
    {
        proof {
            lemma_cluster_map_contains(self.records@, id@);
        }
        match self.find(id) {
            Some(i) => {
                proof {
                    lemma_cluster_map_value(self.records@, i as int);
                }
                copy_opt_bytes(&self.records[i].kubeconfig)
            },
            None => {
                proof {
                    assert(false);
                }
                None
            },
        }
    }

    /// Adds a record for a new identifier.
    pub fn insert(&mut self, record: ClusterRecord)
        requires
            old(self).wf(),
            !old(self)@.contains_key(record.identifier@),
        ensures
            final(self).wf(),
            final(self)@ =~= old(self)@.insert(record.identifier@, record@),
    {
        proof {
            lemma_cluster_map_contains(self.records@, record.identifier@);
        }
        let ghost before = self.records@;
        self.records.push(record);
        proof {
            assert(self.records@.drop_last() =~= before);
        }
    }

    /// Records a state change: a single conditional update keyed by the
    /// external identifier. An unknown identifier changes nothing; a
    /// transition that moves backward — in particular any transition
    /// out of the terminal `Deleted` — is rejected and changes nothing.
    pub fn set_state(&mut self, id: &Vec<u8>, st: ClusterState) -> (r: SetStateOutcome)
        requires
            old(self).wf(),
        ensures
            final(self).wf(),
            final(self)@ =~= spec_set_state(old(self)@, id@, st),
            match r {
                SetStateOutcome::Updated => old(self)@.contains_key(id@) && can_transition(
                    old(self)@[id@].state,
                    st,
                ),
                SetStateOutcome::Rejected => old(self)@.contains_key(id@) && !can_transition(
                    old(self)@[id@].state,
                    st,
                ),
                SetStateOutcome::NoSuchCluster => !old(self)@.contains_key(id@),
            },
    {
        proof {
            lemma_cluster_map_contains(self.records@, id@);
        }
        match self.find(id) {
            Some(i) => {
                proof {
                    lemma_cluster_map_value(self.records@, i as int);
                }
                let current = &self.records[i];
                if transition_allowed(current.state, st) {
                    let updated = ClusterRecord {
                        identifier: copy_bytes(&current.identifier),
                        state: st,
                        parent_server_fqdn: copy_opt_bytes(&current.parent_server_fqdn),
                        kubeconfig: copy_opt_bytes(&current.kubeconfig),
                    };
                    proof {
                        lemma_cluster_map_update(self.records@, i as int, updated);
                    }
                    self.records[i] = updated;
                    SetStateOutcome::Updated
                } else {
                    SetStateOutcome::Rejected
                }
            },
            None => SetStateOutcome::NoSuchCluster,
        }
    }

    /// Records the host a cluster was assigned to. An unknown
    /// identifier changes nothing.
    pub fn set_parent_host(&mut self, id: &Vec<u8>, fqdn: &Vec<u8>) -> (r: bool)
        requires
            old(self).wf(),
        ensures
            final(self).wf(),
            final(self)@ =~= spec_set_parent(old(self)@, id@, fqdn@),
            r == old(self)@.contains_key(id@),
    {
        proof {
            lemma_cluster_map_contains(self.records@, id@);
        }
        match self.find(id) {
            Some(i) => {
                proof {
                    lemma_cluster_map_value(self.records@, i as int);
                }
                let current = &self.records[i];
                let updated = ClusterRecord {
                    identifier: copy_bytes(&current.identifier),
                    state: current.state,
                    parent_server_fqdn: Some(copy_bytes(fqdn)),
                    kubeconfig: copy_opt_bytes(&current.kubeconfig),
                };
                proof {
                    lemma_cluster_map_update(self.records@, i as int, updated);
                }
                self.records[i] = updated;
                true
            },
            None => false,
        }
    }

    /// Records the credentials captured for a cluster. An unknown
    /// identifier changes nothing.
    pub fn set_kubeconfig(&mut self, id: &Vec<u8>, cfg: &Vec<u8>) -> (r: bool)
        requires
            old(self).wf(),
        ensures
            final(self).wf(),
            final(self)@ =~= spec_set_kubeconfig(old(self)@, id@, cfg@),
            r == old(self)@.contains_key(id@),
    {
        proof {
            lemma_cluster_map_contains(self.records@, id@);
        }
        match self.find(id) {
            Some(i) => {
                proof {
                    lemma_cluster_map_value(self.records@, i as int);
                }
                let current = &self.records[i];
                let updated = ClusterRecord {
                    identifier: copy_bytes(&current.identifier),
                    state: current.state,
                    parent_server_fqdn: copy_opt_bytes(&current.parent_server_fqdn),
                    kubeconfig: Some(copy_bytes(cfg)),
                };
                proof {
                    lemma_cluster_map_update(self.records@, i as int, updated);
                }
                self.records[i] = updated;
                true
            },
            None => false,
        }
    }
}

/// `Deleted` never transitions back to `Init` or `Running`: along any
/// chain of accepted transitions that starts at `Deleted`, every state
/// is `Deleted`.
pub proof fn lemma_deleted_is_terminal(chain: Seq<ClusterState>)
    requires
        chain.len() > 0,
        chain[0] == ClusterState::Deleted,
        forall|i: int|
            0 <= i < chain.len() - 1 ==> #[trigger] can_transition(chain[i], chain[i + 1]),
    ensures
        forall|i: int| 0 <= i < chain.len() ==> #[trigger] chain[i] == ClusterState::Deleted,
    decreases chain.len(),
{
    if chain.len() > 1 {
        assert(can_transition(chain[0int], chain[0int + 1]));
        assert(chain[1] == ClusterState::Deleted);
        lemma_deleted_is_terminal(chain.subrange(1, chain.len() as int));
        assert(forall|i: int|
            1 <= i < chain.len() ==> chain[i] == chain.subrange(1, chain.len() as int)[i - 1]);
    }
}

} // verus!
