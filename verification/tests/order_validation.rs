//! Tests of the order graph invariants and of order updates.

use vda5050::common::Timestamp;
use vda5050::order::Edge;
use vda5050::order::Node;
use vda5050::order::Order;
use vda5050::order::UpdateAcceptance;
use vda5050::order::validate_order;
use vda5050::order::validate_order_update;
use vda5050::value::ModelError;

fn ts() -> Timestamp {
    Timestamp::new(1492256403, 120_000_000).unwrap()
}

fn node(id: &str, seq: u64, released: bool) -> Node {
    Node {
        node_id: id.to_string(),
        sequence_id: seq,
        node_description: None,
        released,
        node_position: None,
        actions: Vec::new(),
    }
}

fn edge(id: &str, seq: u64, released: bool, start: &str, end: &str) -> Edge {
    Edge {
        edge_id: id.to_string(),
        sequence_id: seq,
        edge_description: None,
        released,
        start_node_id: start.to_string(),
        end_node_id: end.to_string(),
        max_speed: None,
        max_height: None,
        min_height: None,
        orientation: None,
        orientation_type: None,
        direction: None,
        rotation_allowed: None,
        max_rotation_speed: None,
        length: None,
        trajectory: None,
        actions: Vec::new(),
    }
}

fn order(id: &str, update: u64, nodes: Vec<Node>, edges: Vec<Edge>) -> Order {
    Order {
        header_id: 1,
        timestamp: ts(),
        version: "2.0.0".to_string(),
        manufacturer: "acme".to_string(),
        serial_number: "agv-1".to_string(),
        order_id: id.to_string(),
        order_update_id: update,
        zone_set_id: None,
        nodes,
        edges,
    }
}

fn two_node_order() -> Order {
    order(
        "order-1",
        0,
        vec![node("a", 0, true), node("b", 2, true), node("c", 4, false)],
        vec![edge("e1", 1, true, "a", "b"), edge("e2", 3, false, "b", "c")],
    )
}

#[test]
fn valid_order_is_accepted() {
    assert_eq!(validate_order(&two_node_order()), Ok(()));
}

#[test]
fn single_node_order_without_edges_is_valid() {
    // A vehicle already at its destination: one node, no travel.
    let o = order("order-1", 0, vec![node("a", 0, true)], vec![]);
    assert_eq!(validate_order(&o), Ok(()));
}

#[test]
fn unknown_start_node_is_graph_inconsistency() {
    let o = order(
        "order-1",
        0,
        vec![node("a", 0, true), node("b", 2, true)],
        vec![edge("e1", 1, true, "ghost", "b")],
    );
    assert_eq!(validate_order(&o), Err(ModelError::GraphInconsistency));
}

#[test]
fn unknown_end_node_is_graph_inconsistency() {
    let o = order(
        "order-1",
        0,
        vec![node("a", 0, true), node("b", 2, true)],
        vec![edge("e1", 1, true, "a", "ghost")],
    );
    assert_eq!(validate_order(&o), Err(ModelError::GraphInconsistency));
}

#[test]
fn duplicate_sequence_id_is_graph_inconsistency() {
    // A node and an edge share one sequencing key.
    let o = order(
        "order-1",
        0,
        vec![node("a", 0, true), node("b", 2, true)],
        vec![edge("e1", 2, true, "a", "b")],
    );
    assert_eq!(validate_order(&o), Err(ModelError::GraphInconsistency));

    // Two nodes share one sequencing key.
    let o = order(
        "order-1",
        0,
        vec![node("a", 0, true), node("b", 0, true)],
        vec![],
    );
    assert_eq!(validate_order(&o), Err(ModelError::GraphInconsistency));
}

#[test]
fn decreasing_sequence_ids_are_rejected() {
    let o = order(
        "order-1",
        0,
        vec![node("a", 4, true), node("b", 2, true)],
        vec![],
    );
    assert_eq!(validate_order(&o), Err(ModelError::GraphInconsistency));
}

#[test]
fn released_after_horizon_is_rejected() {
    let o = order(
        "order-1",
        0,
        vec![node("a", 0, false), node("b", 2, true)],
        vec![],
    );
    assert_eq!(validate_order(&o), Err(ModelError::GraphInconsistency));
}

#[test]
fn update_flipping_released_node_is_rejected() {
    let prev = two_node_order();
    // Same graph, but node "b" reverted from base to horizon, with the
    // revision counter incremented.
    let next = order(
        "order-1",
        1,
        vec![node("a", 0, true), node("b", 2, false), node("c", 4, false)],
        vec![edge("e1", 1, true, "a", "b"), edge("e2", 3, false, "b", "c")],
    );
    assert_eq!(
        validate_order_update(&prev, &next),
        Err(ModelError::GraphInconsistency)
    );
}

#[test]
fn update_dropping_released_edge_is_rejected() {
    let prev = two_node_order();
    let next = order(
        "order-1",
        1,
        vec![node("a", 0, true), node("b", 2, true), node("c", 4, false)],
        vec![edge("e2", 3, false, "b", "c")],
    );
    assert_eq!(
        validate_order_update(&prev, &next),
        Err(ModelError::GraphInconsistency)
    );
}

#[test]
fn update_extending_horizon_is_accepted() {
    let prev = two_node_order();
    let next = order(
        "order-1",
        1,
        vec![
            node("a", 0, true),
            node("b", 2, true),
            node("c", 4, true),
            node("d", 6, false),
        ],
        vec![
            edge("e1", 1, true, "a", "b"),
            edge("e2", 3, true, "b", "c"),
            edge("e3", 5, false, "c", "d"),
        ],
    );
    assert_eq!(
        validate_order_update(&prev, &next),
        Ok(UpdateAcceptance::Accepted)
    );
}

#[test]
fn identical_update_is_already_applied() {
    let prev = two_node_order();
    let next = two_node_order();
    assert_eq!(
        validate_order_update(&prev, &next),
        Ok(UpdateAcceptance::AlreadyApplied)
    );
}

#[test]
fn same_revision_with_different_content_is_rejected() {
    let prev = two_node_order();
    let mut next = two_node_order();
    next.nodes[2].node_id = "other".to_string();
    assert_eq!(
        validate_order_update(&prev, &next),
        Err(ModelError::GraphInconsistency)
    );
}

#[test]
fn older_revision_is_rejected() {
    let mut prev = two_node_order();
    prev.order_update_id = 5;
    let mut next = two_node_order();
    next.order_update_id = 4;
    assert_eq!(
        validate_order_update(&prev, &next),
        Err(ModelError::GraphInconsistency)
    );
}

#[test]
fn malformed_update_is_rejected() {
    let prev = two_node_order();
    // The revision moves forward but the new graph repeats a key.
    let next = order(
        "order-1",
        1,
        vec![node("a", 0, true), node("b", 2, true), node("c", 2, false)],
        vec![],
    );
    assert_eq!(
        validate_order_update(&prev, &next),
        Err(ModelError::GraphInconsistency)
    );
}
