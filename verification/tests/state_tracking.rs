//! Tests of the action lifecycle machine and of the progress tracker.

use vda5050::common::Timestamp;
use vda5050::progress::ApplyOutcome;
use vda5050::progress::StateTracker;
use vda5050::progress::check_state_mirrors_order;
use vda5050::state::ActionState;
use vda5050::state::ActionStatus;
use vda5050::state::BatteryState;
use vda5050::state::EStop;
use vda5050::state::EdgeState;
use vda5050::state::NodeState;
use vda5050::state::OperatingMode;
use vda5050::state::SafetyState;
use vda5050::state::State;
use vda5050::common::Bits32;
use vda5050::order::Edge;
use vda5050::order::Node;
use vda5050::order::Order;
use vda5050::value::ModelError;

fn ts() -> Timestamp {
    Timestamp::new(1492256403, 120_000_000).unwrap()
}

fn action_state(id: &str, status: ActionStatus) -> ActionState {
    ActionState {
        action_id: id.to_string(),
        action_type: None,
        action_description: None,
        action_status: status,
        result_description: None,
    }
}

fn snapshot(header: u64, order_id: &str, last_seq: u64, actions: Vec<ActionState>) -> State {
    State {
        header_id: header,
        timestamp: ts(),
        version: "2.0.0".to_string(),
        manufacturer: "acme".to_string(),
        serial_number: "agv-1".to_string(),
        order_id: order_id.to_string(),
        order_update_id: 0,
        zone_set_id: None,
        last_node_id: if last_seq == 0 { String::new() } else { "n".to_string() },
        last_node_sequence_id: last_seq,
        driving: false,
        paused: None,
        new_base_request: None,
        distance_since_last_node: None,
        operating_mode: OperatingMode::Automatic,
        node_states: Vec::new(),
        edge_states: Vec::new(),
        agv_position: None,
        velocity: None,
        loads: Vec::new(),
        action_states: actions,
        battery_state: BatteryState {
            battery_charge: Bits32(0),
            battery_voltage: None,
            battery_health: None,
            charging: false,
            reach: None,
        },
        errors: Vec::new(),
        information: Vec::new(),
        safety_state: SafetyState { e_stop: EStop::Inactive, field_violation: false },
    }
}

#[test]
fn lifecycle_moves_forward_only() {
    let waiting = ActionStatus::Waiting;
    let initializing = ActionStatus::Initializing;
    let running = ActionStatus::Running;
    let paused = ActionStatus::Paused;
    let finished = ActionStatus::Finished;
    let failed = ActionStatus::Failed;
    assert!(waiting.may_be_followed_by(&initializing));
    assert!(waiting.may_be_followed_by(&running));
    assert!(waiting.may_be_followed_by(&waiting));
    assert!(initializing.may_be_followed_by(&running));
    assert!(running.may_be_followed_by(&paused));
    assert!(paused.may_be_followed_by(&running));
    assert!(running.may_be_followed_by(&finished));
    assert!(waiting.may_be_followed_by(&failed));
    assert!(paused.may_be_followed_by(&failed));

    assert!(!running.may_be_followed_by(&waiting));
    assert!(!initializing.may_be_followed_by(&waiting));
    assert!(!paused.may_be_followed_by(&waiting));
    assert!(!finished.may_be_followed_by(&running));
    assert!(!finished.may_be_followed_by(&failed));
    assert!(!failed.may_be_followed_by(&finished));
    assert!(!failed.may_be_followed_by(&waiting));
}

#[test]
fn tracker_accepts_then_ignores_duplicate() {
    let mut t = StateTracker::new();
    let s = snapshot(7, "order-1", 0, vec![action_state("a1", ActionStatus::Waiting)]);
    assert_eq!(t.apply_state(&s), Ok(ApplyOutcome::Applied));
    // Re-applying the identical snapshot is idempotent: a no-op, not an
    // error, and no observable change.
    let before = (
        t.header_id,
        t.order_id.clone(),
        t.order_update_id,
        t.last_node_sequence_id,
        t.action_statuses.clone(),
    );
    assert_eq!(t.apply_state(&s), Ok(ApplyOutcome::Duplicate));
    let after = (
        t.header_id,
        t.order_id.clone(),
        t.order_update_id,
        t.last_node_sequence_id,
        t.action_statuses.clone(),
    );
    assert_eq!(before.0, after.0);
    assert_eq!(before.1, after.1);
    assert_eq!(before.2, after.2);
    assert_eq!(before.3, after.3);
    assert_eq!(before.4.len(), after.4.len());
}

#[test]
fn tracker_ignores_older_header() {
    let mut t = StateTracker::new();
    assert_eq!(t.apply_state(&snapshot(7, "order-1", 2, vec![])), Ok(ApplyOutcome::Applied));
    assert_eq!(t.apply_state(&snapshot(3, "order-1", 9, vec![])), Ok(ApplyOutcome::Duplicate));
    assert_eq!(t.last_node_sequence_id, 2);
}

#[test]
fn tracker_rejects_progress_regression() {
    let mut t = StateTracker::new();
    assert_eq!(t.apply_state(&snapshot(1, "order-1", 4, vec![])), Ok(ApplyOutcome::Applied));
    assert_eq!(
        t.apply_state(&snapshot(2, "order-1", 2, vec![])),
        Err(ModelError::GraphInconsistency)
    );
    // The failed snapshot left no trace.
    assert_eq!(t.header_id, 1);
    assert_eq!(t.last_node_sequence_id, 4);
}

#[test]
fn tracker_rejects_terminal_status_leaving_terminal() {
    let mut t = StateTracker::new();
    let s1 = snapshot(1, "order-1", 0, vec![action_state("a1", ActionStatus::Finished)]);
    assert_eq!(t.apply_state(&s1), Ok(ApplyOutcome::Applied));
    let s2 = snapshot(2, "order-1", 0, vec![action_state("a1", ActionStatus::Running)]);
    assert_eq!(t.apply_state(&s2), Err(ModelError::GraphInconsistency));
}

#[test]
fn tracker_rejects_dropped_action() {
    let mut t = StateTracker::new();
    let s1 = snapshot(1, "order-1", 0, vec![action_state("a1", ActionStatus::Running)]);
    assert_eq!(t.apply_state(&s1), Ok(ApplyOutcome::Applied));
    let s2 = snapshot(2, "order-1", 0, vec![]);
    assert_eq!(t.apply_state(&s2), Err(ModelError::GraphInconsistency));
}

#[test]
fn tracker_rejects_backward_transition() {
    let mut t = StateTracker::new();
    let s1 = snapshot(1, "order-1", 0, vec![action_state("a1", ActionStatus::Running)]);
    assert_eq!(t.apply_state(&s1), Ok(ApplyOutcome::Applied));
    let s2 = snapshot(2, "order-1", 0, vec![action_state("a1", ActionStatus::Waiting)]);
    assert_eq!(t.apply_state(&s2), Err(ModelError::GraphInconsistency));
}

#[test]
fn tracker_allows_lawful_progress() {
    let mut t = StateTracker::new();
    let s1 = snapshot(1, "order-1", 0, vec![action_state("a1", ActionStatus::Waiting)]);
    let s2 = snapshot(
        2,
        "order-1",
        2,
        vec![action_state("a1", ActionStatus::Running), action_state("a2", ActionStatus::Waiting)],
    );
    let s3 = snapshot(
        3,
        "order-1",
        4,
        vec![action_state("a1", ActionStatus::Finished), action_state("a2", ActionStatus::Failed)],
    );
    assert_eq!(t.apply_state(&s1), Ok(ApplyOutcome::Applied));
    assert_eq!(t.apply_state(&s2), Ok(ApplyOutcome::Applied));
    assert_eq!(t.apply_state(&s3), Ok(ApplyOutcome::Applied));
    assert_eq!(t.last_node_sequence_id, 4);
}

#[test]
fn tracker_clears_log_on_new_order() {
    let mut t = StateTracker::new();
    let s1 = snapshot(1, "order-1", 4, vec![action_state("a1", ActionStatus::Finished)]);
    assert_eq!(t.apply_state(&s1), Ok(ApplyOutcome::Applied));
    // A new order identifier opens a new scope: the old log no longer
    // binds, and the same action identifier may start over.
    let s2 = snapshot(2, "order-2", 0, vec![action_state("a1", ActionStatus::Waiting)]);
    assert_eq!(t.apply_state(&s2), Ok(ApplyOutcome::Applied));
    assert_eq!(t.order_id, "order-2");
    assert_eq!(t.last_node_sequence_id, 0);
}

#[test]
fn tracker_rejects_duplicate_action_ids_in_snapshot() {
    let mut t = StateTracker::new();
    let s = snapshot(
        1,
        "order-1",
        0,
        vec![action_state("a1", ActionStatus::Waiting), action_state("a1", ActionStatus::Running)],
    );
    assert_eq!(t.apply_state(&s), Err(ModelError::GraphInconsistency));
}

fn node(id: &str, seq: u64, released: bool) -> Node {
    Node {
        node_id: id.to_string(),
        sequence_id: seq,
        node_description: None,
        released,
        node_position: None,
        actions: Vec::new(),
    }
}

fn edge(id: &str, seq: u64, released: bool, start: &str, end: &str) -> Edge {
    Edge {
        edge_id: id.to_string(),
        sequence_id: seq,
        edge_description: None,
        released,
        start_node_id: start.to_string(),
        end_node_id: end.to_string(),
        max_speed: None,
        max_height: None,
        min_height: None,
        orientation: None,
        orientation_type: None,
        direction: None,
        rotation_allowed: None,
        max_rotation_speed: None,
        length: None,
        trajectory: None,
        actions: Vec::new(),
    }
}

fn mirror_order() -> Order {
    Order {
        header_id: 1,
        timestamp: ts(),
        version: "2.0.0".to_string(),
        manufacturer: "acme".to_string(),
        serial_number: "agv-1".to_string(),
        order_id: "order-1".to_string(),
        order_update_id: 0,
        zone_set_id: None,
        nodes: vec![node("a", 0, true), node("b", 2, true), node("c", 4, false)],
        edges: vec![edge("e1", 1, true, "a", "b"), edge("e2", 3, false, "b", "c")],
    }
}

fn node_state(id: &str, seq: u64, released: bool) -> NodeState {
    NodeState {
        node_id: id.to_string(),
        sequence_id: seq,
        node_description: None,
        node_position: None,
        released,
    }
}

fn edge_state(id: &str, seq: u64, released: bool) -> EdgeState {
    EdgeState {
        edge_id: id.to_string(),
        sequence_id: seq,
        edge_description: None,
        released,
        trajectory: None,
    }
}

#[test]
fn mirror_of_remaining_graph_is_accepted() {
    let o = mirror_order();
    let mut s = snapshot(1, "order-1", 0, vec![]);
    s.last_node_id = "a".to_string();
    s.last_node_sequence_id = 0;
    s.node_states = vec![node_state("b", 2, true), node_state("c", 4, false)];
    s.edge_states = vec![edge_state("e1", 1, true), edge_state("e2", 3, false)];
    assert!(check_state_mirrors_order(&o, &s));
}

#[test]
fn mirror_with_unknown_element_is_rejected() {
    let o = mirror_order();
    let mut s = snapshot(1, "order-1", 0, vec![]);
    s.node_states = vec![node_state("ghost", 2, true)];
    assert!(!check_state_mirrors_order(&o, &s));
}

#[test]
fn mirror_out_of_sequence_is_rejected() {
    let o = mirror_order();
    let mut s = snapshot(1, "order-1", 0, vec![]);
    s.node_states = vec![node_state("c", 4, false), node_state("b", 2, true)];
    assert!(!check_state_mirrors_order(&o, &s));
}

#[test]
fn mirror_with_traversed_element_is_rejected() {
    let o = mirror_order();
    let mut s = snapshot(1, "order-1", 0, vec![]);
    s.last_node_id = "b".to_string();
    s.last_node_sequence_id = 2;
    // Node "b" was already reached; it must no longer be reported.
    s.node_states = vec![node_state("b", 2, true), node_state("c", 4, false)];
    assert!(!check_state_mirrors_order(&o, &s));
}

#[test]
fn mirror_before_first_node_allows_whole_graph() {
    let o = mirror_order();
    // No node reached yet: the whole base and horizon remain.
    let mut s = snapshot(1, "order-1", 0, vec![]);
    s.node_states = vec![
        node_state("a", 0, true),
        node_state("b", 2, true),
        node_state("c", 4, false),
    ];
    s.edge_states = vec![edge_state("e1", 1, true), edge_state("e2", 3, false)];
    assert!(check_state_mirrors_order(&o, &s));
}
