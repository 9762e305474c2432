//! Progress tracking over a stream of state reports.
//!
//! The transport delivers snapshots unordered, possibly duplicated, at
//! least once.  The tracker therefore treats the header counter as
//! advisory, applies a snapshot it has already seen as a no-op, and
//! holds the vehicle to the rules of the report model: progress never
//! regresses while an order is active, the action log is cumulative,
//! and every action walks its lifecycle machine forward.

use vstd::prelude::*;

use crate::order::Edge;
use crate::order::EdgeModel;
use crate::order::Node;
use crate::order::NodeModel;
use crate::order::Order;
use crate::order::OrderModel;
use crate::state::ActionState;
use crate::state::ActionStateModel;
use crate::state::EdgeState;
use crate::state::EdgeStateModel;
use crate::state::NodeState;
use crate::state::NodeStateModel;
use crate::state::ActionStatus;
use crate::state::State;
use crate::state::status_may_follow;
use crate::common::string_eq;
use crate::value::ModelError;

verus! {

/// What applying one snapshot did.
#[derive(Clone, Copy, Debug, PartialEq, Eq, Structural)]
pub enum ApplyOutcome {
    /// The snapshot carried news and the tracker took it over.
    Applied,
    /// The snapshot was already seen (same or older header counter):
    /// nothing changed.
    Duplicate,
}

/// The controller-side mirror of one vehicle's progress: what the last
/// accepted snapshot established.
#[derive(Debug, Clone)]
pub struct StateTracker {
    /// True once a snapshot has been accepted.
    pub initialized: bool,
    /// Header counter of the last accepted snapshot.
    pub header_id: u64,
    /// Order the last accepted snapshot was about.
    pub order_id: String,
    /// Revision of that order the vehicle had accepted.
    pub order_update_id: u64,
    /// Sequencing key of the last node the vehicle had reached.
    pub last_node_sequence_id: u64,
    /// Last reported status per action identifier, in snapshot order.
    pub action_statuses: Vec<(String, ActionStatus)>,
}

/// No two records of one snapshot speak of the same action.
pub open spec fn action_ids_unique(xs: Seq<ActionStateModel>) -> bool {
    forall|i: int, j: int|
        0 <= i < j < xs.len() ==> (#[trigger] xs[i]).action_id != (#[trigger] xs[j]).action_id
}

/// The status log a snapshot establishes: one pair of action identifier
/// and status per record.
pub open spec fn status_log_of(xs: Seq<ActionStateModel>) -> Seq<(Seq<char>, ActionStatus)> {
    xs.map(|k: int, a: ActionStateModel| (a.action_id, a.action_status))
}

/// The snapshot retains the action of this log entry and only moves
/// its status forward.
pub open spec fn log_entry_consistent(
    entry: (Seq<char>, ActionStatus),
    xs: Seq<ActionStateModel>,
) -> bool {
    exists|j: int|
        0 <= j < xs.len() && (#[trigger] xs[j]).action_id == entry.0 && status_may_follow(
            entry.1,
            xs[j].action_status,
        )
}

/// Every action the tracker knows reappears in the new snapshot, and
/// its status is a lawful successor of the one on record: the log is
/// cumulative and the lifecycle machine only walks forward.
pub open spec fn statuses_consistent(
    log: Seq<(Seq<char>, ActionStatus)>,
    xs: Seq<ActionStateModel>,
) -> bool {
    forall|i: int| 0 <= i < log.len() ==> log_entry_consistent(#[trigger] log[i], xs)
}

/// A snapshot the tracker has already seen: its header counter does not
/// exceed the one on record.  Applying it again is a no-op.
pub open spec fn snapshot_duplicate(t: StateTracker, s: State) -> bool {
    t.initialized && s.header_id <= t.header_id
}

/// A snapshot the tracker takes over: unseen, internally consistent,
/// and, while the same order stays active, one that neither regresses
/// the revision counter or the progress point nor breaks an action's
/// lifecycle.
pub open spec fn snapshot_accepted(t: StateTracker, s: State) -> bool {
    &&& !snapshot_duplicate(t, s)
    &&& action_ids_unique(s.action_states.deep_view())
    &&& (t.initialized && s.order_id@ == t.order_id@ ==> {
        &&& s.order_update_id >= t.order_update_id
        &&& s.last_node_sequence_id >= t.last_node_sequence_id
        &&& statuses_consistent(t.action_statuses.deep_view(), s.action_states.deep_view())
    })
}

/// Re-applying the snapshot a tracker has just accepted is a duplicate
/// delivery: the second application changes nothing.
pub proof fn lemma_reapplied_snapshot_is_duplicate(t: StateTracker, s: State)
    requires
        t.initialized,
        t.header_id == s.header_id,
    ensures
        snapshot_duplicate(t, s),
{
}

/// Extracts the pair of identifier and status from every record.
fn extract_status_log(xs: &Vec<ActionState>) -> (r: Vec<(String, ActionStatus)>)
    ensures
        r.deep_view() == status_log_of(xs.deep_view()),
{
    let mut r: Vec<(String, ActionStatus)> = Vec::new();
    let mut i: usize = 0;
    while i < xs.len()
        invariant
            i <= xs@.len(),
            r.deep_view() =~= status_log_of(xs.deep_view()).subrange(0, i as int),
        decreases xs@.len() - i,
    {
        let ghost r0 = r.deep_view();
        let id = xs[i].action_id.clone();
        let st = xs[i].action_status;
        r.push((id, st));
        proof {
            let m = xs.deep_view();
            assert(r@.last() == (id, st));
            assert(r@.last().deep_view() == (id@, st));
            assert(r.deep_view() =~= r0.push((id@, st)));
            assert(m[i as int] == xs@[i as int].deep_view());
            assert(status_log_of(m)[i as int] == (m[i as int].action_id, m[i as int].action_status));
            assert(id@ == m[i as int].action_id);
            assert(r.deep_view() =~= status_log_of(m).subrange(0, i as int + 1));
        }
        i = i + 1;
    }
    proof {
        assert(status_log_of(xs.deep_view()).subrange(
            0,
            status_log_of(xs.deep_view()).len() as int,
        ) =~= status_log_of(xs.deep_view()));
    }
    r
}

/// Checks that no two records of the snapshot speak of the same action.
fn check_action_ids_unique(xs: &Vec<ActionState>) -> (r: bool)
    ensures
        r == action_ids_unique(xs.deep_view()),
{
    let ghost m = xs.deep_view();
    let mut i: usize = 0;
    while i < xs.len()
        invariant
            i <= xs@.len(),
            m == xs.deep_view(),
            m.len() == xs@.len(),
            forall|a: int, b: int|
                0 <= a < b < i ==> (#[trigger] m[a]).action_id != (#[trigger] m[b]).action_id,
        decreases xs@.len() - i,
    {
        let mut j: usize = 0;
        while j < i
            invariant
                j <= i < xs@.len(),
                m == xs.deep_view(),
                m.len() == xs@.len(),
                forall|a: int| 0 <= a < j ==> (#[trigger] m[a]).action_id != m[i as int].action_id,
            decreases i - j,
        {
            if string_eq(&xs[j].action_id, &xs[i].action_id) {
                proof {
                    assert(m[j as int].action_id == m[i as int].action_id);
                }
                return false;
            }
            j = j + 1;
        }
        i = i + 1;
    }
    true
}

/// Looks for the record that speaks of the given action.
fn find_action_state(xs: &Vec<ActionState>, id: &String) -> (r: Option<usize>)
    ensures
        r matches Option::Some(j) ==> j < xs.deep_view().len() && xs.deep_view()[j as int].action_id
            == id@,
        r is None ==> forall|j: int|
            0 <= j < xs.deep_view().len() ==> (#[trigger] xs.deep_view()[j]).action_id != id@,
{
    let ghost m = xs.deep_view();
    let mut j: usize = 0;
    while j < xs.len()
        invariant
            j <= xs@.len(),
            m == xs.deep_view(),
            m.len() == xs@.len(),
            forall|k: int| 0 <= k < j ==> (#[trigger] m[k]).action_id != id@,
        decreases xs@.len() - j,
    {
        if string_eq(&xs[j].action_id, id) {
            proof {
                assert(m[j as int].action_id == id@);
            }
            return Option::Some(j);
        }
        j = j + 1;
    }
    Option::None
}

/// Checks that the new snapshot retains every known action and only
/// moves each status forward.
fn check_statuses_consistent(log: &Vec<(String, ActionStatus)>, xs: &Vec<ActionState>) -> (r: bool)
    requires
        action_ids_unique(xs.deep_view()),
    ensures
        r == statuses_consistent(log.deep_view(), xs.deep_view()),
{
    let ghost lg = log.deep_view();
    let ghost m = xs.deep_view();
    let mut i: usize = 0;
    while i < log.len()
        invariant
            i <= log@.len(),
            lg == log.deep_view(),
            m == xs.deep_view(),
            lg.len() == log@.len(),
            m.len() == xs@.len(),
            action_ids_unique(m),
            forall|a: int| 0 <= a < i ==> log_entry_consistent(#[trigger] lg[a], m),
        decreases log@.len() - i,
    {
        let pair = &log[i];
        proof {
            assert(lg[i as int] == (pair.0@, pair.1));
        }
        match find_action_state(xs, &pair.0) {
            Option::None => {
                proof {
                    assert(forall|j: int|
                        0 <= j < m.len() ==> (#[trigger] m[j]).action_id != lg[i as int].0);
                    assert(!log_entry_consistent(lg[i as int], m));
                }
                return false;
            },
            Option::Some(j) => {
                if !pair.1.may_be_followed_by(&xs[j].action_status) {
                    proof {
                        assert forall|k: int|
                            0 <= k < m.len() && (#[trigger] m[k]).action_id == lg[i as int].0
                            implies !status_may_follow(lg[i as int].1, m[k].action_status) by {
                            if k != j as int {
                                if k < j as int {
                                    assert(m[k].action_id != m[j as int].action_id);
                                } else {
                                    assert(m[j as int].action_id != m[k].action_id);
                                }
                            }
                        };
                        assert(!log_entry_consistent(lg[i as int], m));
                    }
                    return false;
                }
                proof {
                    assert(0 <= j < m.len() && m[j as int].action_id == lg[i as int].0
                        && status_may_follow(lg[i as int].1, m[j as int].action_status));
                    assert(log_entry_consistent(lg[i as int], m));
                }
            },
        }
        i = i + 1;
    }
    proof {
        assert(statuses_consistent(lg, m));
    }
    true
}

impl StateTracker {
    /// A tracker that has not yet seen any snapshot.
    pub fn new() -> (r: StateTracker)
        ensures
            !r.initialized,
            r.header_id == 0,
            r.order_id@ == Seq::<char>::empty(),
            r.order_update_id == 0,
            r.last_node_sequence_id == 0,
            r.action_statuses@.len() == 0,
    {
        StateTracker {
            initialized: false,
            header_id: 0,
            order_id: String::new(),
            order_update_id: 0,
            last_node_sequence_id: 0,
            action_statuses: Vec::new(),
        }
    }

    /// Applies one state snapshot.
    ///
    /// A snapshot already seen (header counter not above the one on
    /// record) is a no-op, never an error, so a duplicated delivery is
    /// processed idempotently.  A snapshot for a new order identifier
    /// opens a new scope and clears the action log.  Within one order
    /// scope a snapshot that regresses the revision counter or the
    /// progress point, drops a known action, or moves a status against
    /// the lifecycle machine is a graph inconsistency and leaves the
    /// tracker untouched.
    pub fn apply_state(&mut self, s: &State) -> (r: Result<ApplyOutcome, ModelError>)
        ensures
            (r == Result::<ApplyOutcome, ModelError>::Ok(ApplyOutcome::Duplicate)) <==>
                snapshot_duplicate(*old(self), *s),
            (r == Result::<ApplyOutcome, ModelError>::Ok(ApplyOutcome::Applied)) <==>
                snapshot_accepted(*old(self), *s),
            r matches Result::Err(e) ==> e == ModelError::GraphInconsistency,
            (r matches Result::Err(_) || r == Result::<ApplyOutcome, ModelError>::Ok(
                ApplyOutcome::Duplicate,
            )) ==> *final(self) == *old(self),
            r == Result::<ApplyOutcome, ModelError>::Ok(ApplyOutcome::Applied) ==> {
                &&& final(self).initialized
                &&& final(self).header_id == s.header_id
                &&& final(self).order_id@ == s.order_id@
                &&& final(self).order_update_id == s.order_update_id
                &&& final(self).last_node_sequence_id == s.last_node_sequence_id
                &&& final(self).action_statuses.deep_view() == status_log_of(
                    s.action_states.deep_view(),
                )
            },
    {
        if self.initialized && s.header_id <= self.header_id {
            return Result::Ok(ApplyOutcome::Duplicate);
        }
        if !check_action_ids_unique(&s.action_states) {
            return Result::Err(ModelError::GraphInconsistency);
        }
        if self.initialized && string_eq(&s.order_id, &self.order_id) {
            if s.order_update_id < self.order_update_id {
                return Result::Err(ModelError::GraphInconsistency);
            }
            if s.last_node_sequence_id < self.last_node_sequence_id {
                return Result::Err(ModelError::GraphInconsistency);
            }
            if !check_statuses_consistent(&self.action_statuses, &s.action_states) {
                return Result::Err(ModelError::GraphInconsistency);
            }
        }
        self.initialized = true;
        self.header_id = s.header_id;
        self.order_id = s.order_id.clone();
        self.order_update_id = s.order_update_id;
        self.last_node_sequence_id = s.last_node_sequence_id;
        self.action_statuses = extract_status_log(&s.action_states);
        Result::Ok(ApplyOutcome::Applied)
    }
}


/// A remaining-node record mirrors a node of the order: same
/// identifier, same sequencing key, same release flag.
pub open spec fn node_state_mirrors(nodes: Seq<NodeModel>, s: NodeStateModel) -> bool {
    exists|k: int|
        0 <= k < nodes.len() && (#[trigger] nodes[k]).node_id == s.node_id && nodes[k].sequence_id
            == s.sequence_id && nodes[k].released == s.released
}

/// A remaining-edge record mirrors an edge of the order: same
/// identifier, same sequencing key, same release flag.
pub open spec fn edge_state_mirrors(edges: Seq<EdgeModel>, s: EdgeStateModel) -> bool {
    exists|k: int|
        0 <= k < edges.len() && (#[trigger] edges[k]).edge_id == s.edge_id && edges[k].sequence_id
            == s.sequence_id && edges[k].released == s.released
}

/// The remaining graph of a state report is a faithful mirror of the
/// order: every record names an element of the order, the records keep
/// the order's relative sequence, and once a node has been reached
/// (the last-node field is non-empty) every remaining element lies
/// beyond it.
pub open spec fn state_mirrors_order(
    o: OrderModel,
    nss: Seq<NodeStateModel>,
    ess: Seq<EdgeStateModel>,
    last_node_id: Seq<char>,
    last_seq: u64,
) -> bool {
    &&& forall|i: int| 0 <= i < nss.len() ==> node_state_mirrors(o.nodes, #[trigger] nss[i])
    &&& forall|i: int, j: int|
        0 <= i < j < nss.len() ==> (#[trigger] nss[i]).sequence_id < (
        #[trigger] nss[j]).sequence_id
    &&& forall|i: int| 0 <= i < ess.len() ==> edge_state_mirrors(o.edges, #[trigger] ess[i])
    &&& forall|i: int, j: int|
        0 <= i < j < ess.len() ==> (#[trigger] ess[i]).sequence_id < (
        #[trigger] ess[j]).sequence_id
    &&& (last_node_id.len() > 0 ==> forall|i: int|
        0 <= i < nss.len() ==> (#[trigger] nss[i]).sequence_id > last_seq)
    &&& (last_node_id.len() > 0 ==> forall|i: int|
        0 <= i < ess.len() ==> (#[trigger] ess[i]).sequence_id > last_seq)
}

/// Looks for the order node a remaining-node record mirrors.
fn find_mirrored_node(nodes: &Vec<Node>, s: &NodeState) -> (r: bool)
    ensures
        r == node_state_mirrors(nodes.deep_view(), s.deep_view()),
{
    let ghost ns = nodes.deep_view();
    let mut k: usize = 0;
    while k < nodes.len()
        invariant
            k <= nodes@.len(),
            ns == nodes.deep_view(),
            ns.len() == nodes@.len(),
            forall|a: int|
                0 <= a < k ==> !((#[trigger] ns[a]).node_id == s.deep_view().node_id
                    && ns[a].sequence_id == s.deep_view().sequence_id && ns[a].released
                    == s.deep_view().released),
        decreases nodes@.len() - k,
    {
        if string_eq(&nodes[k].node_id, &s.node_id) && nodes[k].sequence_id == s.sequence_id
            && nodes[k].released == s.released {
            proof {
                assert(ns[k as int].node_id == s.deep_view().node_id);
            }
            return true;
        }
        k = k + 1;
    }
    false
}

/// Looks for the order edge a remaining-edge record mirrors.
fn find_mirrored_edge(edges: &Vec<Edge>, s: &EdgeState) -> (r: bool)
    ensures
        r == edge_state_mirrors(edges.deep_view(), s.deep_view()),
{
    let ghost es = edges.deep_view();
    let mut k: usize = 0;
    while k < edges.len()
        invariant
            k <= edges@.len(),
            es == edges.deep_view(),
            es.len() == edges@.len(),
            forall|a: int|
                0 <= a < k ==> !((#[trigger] es[a]).edge_id == s.deep_view().edge_id
                    && es[a].sequence_id == s.deep_view().sequence_id && es[a].released
                    == s.deep_view().released),
        decreases edges@.len() - k,
    {
        if string_eq(&edges[k].edge_id, &s.edge_id) && edges[k].sequence_id == s.sequence_id
            && edges[k].released == s.released {
            proof {
                assert(es[k as int].edge_id == s.deep_view().edge_id);
            }
            return true;
        }
        k = k + 1;
    }
    false
}

/// Checks that the remaining graph of a state report faithfully mirrors
/// the order, as [`state_mirrors_order`] states.
pub fn check_state_mirrors_order(order: &Order, state: &State) -> (r: bool)
    ensures
        r == state_mirrors_order(
            order.deep_view(),
            state.node_states.deep_view(),
            state.edge_states.deep_view(),
            state.last_node_id@,
            state.last_node_sequence_id,
        ),
{
    let ghost nss = state.node_states.deep_view();
    let ghost ess = state.edge_states.deep_view();
    let has_last = !state.last_node_id.as_str().is_empty();
    let last_seq = state.last_node_sequence_id;
    let mut i: usize = 0;
    while i < state.node_states.len()
        invariant
            i <= state.node_states@.len(),
            nss == state.node_states.deep_view(),
            nss.len() == state.node_states@.len(),
            has_last == (state.last_node_id@.len() > 0),
            last_seq == state.last_node_sequence_id,
            forall|a: int| 0 <= a < i ==> node_state_mirrors(order.nodes.deep_view(), #[trigger] nss[a]),
            forall|a: int| 1 <= a < i ==> (#[trigger] nss[a - 1]).sequence_id < nss[a].sequence_id,
            forall|a: int| 0 <= a < i && has_last ==> (#[trigger] nss[a]).sequence_id > last_seq,
        decreases state.node_states@.len() - i,
    {
        if !find_mirrored_node(&order.nodes, &state.node_states[i]) {
            proof {
                assert(!node_state_mirrors(order.deep_view().nodes, nss[i as int]));
            }
            return false;
        }
        if i > 0 && state.node_states[i - 1].sequence_id >= state.node_states[i].sequence_id {
            proof {
                assert(nss[i - 1].sequence_id >= nss[i as int].sequence_id);
            }
            return false;
        }
        if has_last && state.node_states[i].sequence_id <= last_seq {
            proof {
                assert(nss[i as int].sequence_id <= last_seq);
            }
            return false;
        }
        i = i + 1;
    }
    let mut i: usize = 0;
    while i < state.edge_states.len()
        invariant
            i <= state.edge_states@.len(),
            nss == state.node_states.deep_view(),
            ess == state.edge_states.deep_view(),
            ess.len() == state.edge_states@.len(),
            has_last == (state.last_node_id@.len() > 0),
            last_seq == state.last_node_sequence_id,
            forall|a: int|
                0 <= a < nss.len() ==> node_state_mirrors(order.nodes.deep_view(), #[trigger] nss[a]),
            forall|a: int|
                1 <= a < nss.len() ==> (#[trigger] nss[a - 1]).sequence_id < nss[a].sequence_id,
            forall|a: int|
                0 <= a < nss.len() && has_last ==> (#[trigger] nss[a]).sequence_id > last_seq,
            forall|a: int| 0 <= a < i ==> edge_state_mirrors(order.edges.deep_view(), #[trigger] ess[a]),
            forall|a: int| 1 <= a < i ==> (#[trigger] ess[a - 1]).sequence_id < ess[a].sequence_id,
            forall|a: int| 0 <= a < i && has_last ==> (#[trigger] ess[a]).sequence_id > last_seq,
        decreases state.edge_states@.len() - i,
    {
        if !find_mirrored_edge(&order.edges, &state.edge_states[i]) {
            proof {
                assert(!edge_state_mirrors(order.deep_view().edges, ess[i as int]));
            }
            return false;
        }
        if i > 0 && state.edge_states[i - 1].sequence_id >= state.edge_states[i].sequence_id {
            proof {
                assert(ess[i - 1].sequence_id >= ess[i as int].sequence_id);
            }
            return false;
        }
        if has_last && state.edge_states[i].sequence_id <= last_seq {
            proof {
                assert(ess[i as int].sequence_id <= last_seq);
            }
            return false;
        }
        i = i + 1;
    }
    proof {
        let nids = nss.map(|k: int, n: NodeStateModel| n.sequence_id);
        assert forall|a: int, b: int| 0 <= a < b < nss.len() implies (
        #[trigger] nss[a]).sequence_id < (#[trigger] nss[b]).sequence_id by {
            assert(forall|k: int| 1 <= k < nids.len() ==> #[trigger] nids[k - 1] < nids[k]) by {
                assert(forall|k: int|
                    1 <= k < nids.len() ==> nids[k - 1] == nss[k - 1].sequence_id
                        && #[trigger] nids[k] == nss[k].sequence_id);
            };
            crate::order::lemma_chain_increasing(nids, a, b);
            assert(nids[a] == nss[a].sequence_id && nids[b] == nss[b].sequence_id);
        };
        let eids = ess.map(|k: int, e: EdgeStateModel| e.sequence_id);
        assert forall|a: int, b: int| 0 <= a < b < ess.len() implies (
        #[trigger] ess[a]).sequence_id < (#[trigger] ess[b]).sequence_id by {
            assert(forall|k: int| 1 <= k < eids.len() ==> #[trigger] eids[k - 1] < eids[k]) by {
                assert(forall|k: int|
                    1 <= k < eids.len() ==> eids[k - 1] == ess[k - 1].sequence_id
                        && #[trigger] eids[k] == ess[k].sequence_id);
            };
            crate::order::lemma_chain_increasing(eids, a, b);
            assert(eids[a] == ess[a].sequence_id && eids[b] == ess[b].sequence_id);
        };
    }
    true
}

} // verus!
