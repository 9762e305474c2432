//! The order graph model: an ordered path of nodes and edges forming
//! the route a vehicle is commanded to follow.
//!
//! Nodes and edges are flat ordered lists with a shared sequencing key,
//! so a receiver can verify the ordering without first rebuilding a
//! graph index.  The released elements form the base (the committed
//! prefix), the unreleased ones the horizon (the tentative suffix that
//! later updates may replace).

use vstd::prelude::*;

use crate::action::Action;
use crate::action::ActionModel;
use crate::action::actions_eq;
use crate::common::Bits32;
use crate::common::HeaderId;
use crate::common::NodePosition;
use crate::common::NodePositionModel;
use crate::common::Timestamp;
use crate::common::Trajectory;
use crate::common::TrajectoryModel;
use crate::common::node_position_eq;
use crate::common::opt_string_eq;
use crate::common::opt_trajectory_eq;
use crate::common::str_eq;
use crate::common::string_eq;
use crate::value::ModelError;

verus! {

/// How the orientation of an edge is to be interpreted.
#[derive(Clone, Copy, Debug, PartialEq, Eq, Structural)]
pub enum OrientationType {
    /// Relative to the global, project-specific map coordinate system.
    Global,
    /// Tangential to the edge.
    Tangential,
}

impl Default for OrientationType {
    /// The orientation of an edge is tangential unless said otherwise.
    fn default() -> (r: Self)
        ensures
            r == OrientationType::Tangential,
    {
        OrientationType::Tangential
    }
}

/// Wire token of an orientation type.
pub open spec fn orientation_type_token(t: OrientationType) -> Seq<char> {
    match t {
        OrientationType::Global => "GLOBAL"@,
        OrientationType::Tangential => "TANGENTIAL"@,
    }
}

impl OrientationType {
    /// The token this orientation type carries on the wire.
    pub fn token(&self) -> (r: &'static str)
        ensures
            r@ == orientation_type_token(*self),
    {
        match self {
            OrientationType::Global => "GLOBAL",
            OrientationType::Tangential => "TANGENTIAL",
        }
    }

    /// Reads a wire token; a token outside the closed enumeration is an
    /// invalid enumeration value.
    pub fn from_token(s: &str) -> (r: Result<OrientationType, ModelError>)
        ensures
            r == (if s@ == "GLOBAL"@ {
                Result::<OrientationType, ModelError>::Ok(OrientationType::Global)
            } else if s@ == "TANGENTIAL"@ {
                Result::<OrientationType, ModelError>::Ok(OrientationType::Tangential)
            } else {
                Result::<OrientationType, ModelError>::Err(ModelError::InvalidEnumValue)
            }),
    {
        if str_eq(s, "GLOBAL") {
            Result::Ok(OrientationType::Global)
        } else if str_eq(s, "TANGENTIAL") {
            Result::Ok(OrientationType::Tangential)
        } else {
            Result::Err(ModelError::InvalidEnumValue)
        }
    }
}

/// One node of the order graph.
#[derive(Debug, Clone)]
pub struct Node {
    /// Unique node identification within the plant.
    pub node_id: String,
    /// Ordering key, unique across all nodes and edges of one order.
    pub sequence_id: u64,
    /// Verbose node description.
    pub node_description: Option<String>,
    /// True when the node belongs to the base, false for the horizon.
    pub released: bool,
    /// Position of the node on the map.
    pub node_position: Option<NodePosition>,
    /// Actions to execute on the node, in execution order.
    pub actions: Vec<Action>,
}

/// The mathematical model of a [`Node`].
#[verifier::ext_equal]
pub struct NodeModel {
    pub node_id: Seq<char>,
    pub sequence_id: u64,
    pub node_description: Option<Seq<char>>,
    pub released: bool,
    pub node_position: Option<NodePositionModel>,
    pub actions: Seq<ActionModel>,
}

impl DeepView for Node {
    type V = NodeModel;

    open spec fn deep_view(&self) -> NodeModel {
        NodeModel {
            node_id: self.node_id@,
            sequence_id: self.sequence_id,
            node_description: self.node_description.deep_view(),
            released: self.released,
            node_position: self.node_position.deep_view(),
            actions: self.actions.deep_view(),
        }
    }
}

/// One edge of the order graph.
#[derive(Debug, Clone)]
pub struct Edge {
    /// Unique edge identification within the plant.
    pub edge_id: String,
    /// Ordering key, unique across all nodes and edges of one order.
    pub sequence_id: u64,
    /// Verbose edge description.
    pub edge_description: Option<String>,
    /// True when the edge belongs to the base, false for the horizon.
    pub released: bool,
    /// The node identifier where the edge starts.
    pub start_node_id: String,
    /// The node identifier where the edge ends.
    pub end_node_id: String,
    /// Permitted maximum speed on the edge.
    pub max_speed: Option<Bits32>,
    /// Permitted maximum height of vehicle and load on the edge.
    pub max_height: Option<Bits32>,
    /// Permitted minimum height of the load on the edge.
    pub min_height: Option<Bits32>,
    /// Orientation of the vehicle on the edge.
    pub orientation: Option<Bits32>,
    /// How the orientation is to be interpreted.
    pub orientation_type: Option<OrientationType>,
    /// Direction hint at junctions for line-guided vehicles.
    pub direction: Option<String>,
    /// True when rotation is allowed on the edge.
    pub rotation_allowed: Option<bool>,
    /// Maximum rotation speed on the edge.
    pub max_rotation_speed: Option<Bits32>,
    /// Length of the path from the start node to the end node.
    pub length: Option<Bits32>,
    /// The curve the vehicle is to follow along the edge.
    pub trajectory: Option<Trajectory>,
    /// Actions to execute on the edge, in execution order.
    pub actions: Vec<Action>,
}

/// The mathematical model of an [`Edge`].
#[verifier::ext_equal]
pub struct EdgeModel {
    pub edge_id: Seq<char>,
    pub sequence_id: u64,
    pub edge_description: Option<Seq<char>>,
    pub released: bool,
    pub start_node_id: Seq<char>,
    pub end_node_id: Seq<char>,
    pub max_speed: Option<Bits32>,
    pub max_height: Option<Bits32>,
    pub min_height: Option<Bits32>,
    pub orientation: Option<Bits32>,
    pub orientation_type: Option<OrientationType>,
    pub direction: Option<Seq<char>>,
    pub rotation_allowed: Option<bool>,
    pub max_rotation_speed: Option<Bits32>,
    pub length: Option<Bits32>,
    pub trajectory: Option<TrajectoryModel>,
    pub actions: Seq<ActionModel>,
}

impl DeepView for Edge {
    type V = EdgeModel;

    open spec fn deep_view(&self) -> EdgeModel {
        EdgeModel {
            edge_id: self.edge_id@,
            sequence_id: self.sequence_id,
            edge_description: self.edge_description.deep_view(),
            released: self.released,
            start_node_id: self.start_node_id@,
            end_node_id: self.end_node_id@,
            max_speed: self.max_speed,
            max_height: self.max_height,
            min_height: self.min_height,
            orientation: self.orientation,
            orientation_type: self.orientation_type,
            direction: self.direction.deep_view(),
            rotation_allowed: self.rotation_allowed,
            max_rotation_speed: self.max_rotation_speed,
            length: self.length,
            trajectory: self.trajectory.deep_view(),
            actions: self.actions.deep_view(),
        }
    }
}

/// An order from master control to the vehicle: the envelope, the order
/// identity, and the graph of nodes and edges.
#[derive(Debug, Clone)]
pub struct Order {
    /// Per-topic message counter of the envelope.
    pub header_id: HeaderId,
    /// Instant at which the message was created.
    pub timestamp: Timestamp,
    /// Protocol version of the message.
    pub version: String,
    /// Manufacturer of the vehicle.
    pub manufacturer: String,
    /// Serial number of the vehicle.
    pub serial_number: String,
    /// Unique order identification.
    pub order_id: String,
    /// Revision counter, unique per order identifier and growing with
    /// each accepted revision.
    pub order_update_id: u64,
    /// Zone set the vehicle has to use for navigation, when zones are
    /// used at all.
    pub zone_set_id: Option<String>,
    /// Base and horizon nodes of the order graph.
    pub nodes: Vec<Node>,
    /// Base and horizon edges of the order graph.
    pub edges: Vec<Edge>,
}

/// The mathematical model of an [`Order`].
#[verifier::ext_equal]
pub struct OrderModel {
    pub header_id: u64,
    pub timestamp: Timestamp,
    pub version: Seq<char>,
    pub manufacturer: Seq<char>,
    pub serial_number: Seq<char>,
    pub order_id: Seq<char>,
    pub order_update_id: u64,
    pub zone_set_id: Option<Seq<char>>,
    pub nodes: Seq<NodeModel>,
    pub edges: Seq<EdgeModel>,
}

impl DeepView for Order {
    type V = OrderModel;

    open spec fn deep_view(&self) -> OrderModel {
        OrderModel {
            header_id: self.header_id,
            timestamp: self.timestamp,
            version: self.version@,
            manufacturer: self.manufacturer@,
            serial_number: self.serial_number@,
            order_id: self.order_id@,
            order_update_id: self.order_update_id,
            zone_set_id: self.zone_set_id.deep_view(),
            nodes: self.nodes.deep_view(),
            edges: self.edges.deep_view(),
        }
    }
}


// ---------------------------------------------------------------------------
// The graph invariants.
// ---------------------------------------------------------------------------

/// The sequencing keys of the nodes grow strictly along the list.
pub open spec fn nodes_increasing(ns: Seq<NodeModel>) -> bool {
    forall|i: int, j: int|
        0 <= i < j < ns.len() ==> #[trigger] ns[i].sequence_id < #[trigger] ns[j].sequence_id
}

/// The sequencing keys of the edges grow strictly along the list.
pub open spec fn edges_increasing(es: Seq<EdgeModel>) -> bool {
    forall|i: int, j: int|
        0 <= i < j < es.len() ==> #[trigger] es[i].sequence_id < #[trigger] es[j].sequence_id
}

/// No node shares a sequencing key with an edge.
pub open spec fn no_shared_sequence_id(ns: Seq<NodeModel>, es: Seq<EdgeModel>) -> bool {
    forall|i: int, j: int|
        0 <= i < ns.len() && 0 <= j < es.len() ==> #[trigger] ns[i].sequence_id
            != #[trigger] es[j].sequence_id
}

/// The released nodes form a contiguous prefix of the node list.
pub open spec fn nodes_released_prefix(ns: Seq<NodeModel>) -> bool {
    forall|i: int, j: int|
        0 <= i < j < ns.len() && #[trigger] ns[j].released ==> #[trigger] ns[i].released
}

/// The released edges form a contiguous prefix of the edge list.
pub open spec fn edges_released_prefix(es: Seq<EdgeModel>) -> bool {
    forall|i: int, j: int|
        0 <= i < j < es.len() && #[trigger] es[j].released ==> #[trigger] es[i].released
}

/// Some node of the list carries the given identifier.
pub open spec fn has_node_id(ns: Seq<NodeModel>, id: Seq<char>) -> bool {
    exists|k: int| 0 <= k < ns.len() && #[trigger] ns[k].node_id == id
}

/// Every edge starts and ends on a node of the same order.
pub open spec fn edges_reference_nodes(ns: Seq<NodeModel>, es: Seq<EdgeModel>) -> bool {
    forall|j: int|
        0 <= j < es.len() ==> has_node_id(ns, #[trigger] es[j].start_node_id) && has_node_id(
            ns,
            es[j].end_node_id,
        )
}

/// All the structural invariants of one order graph: strictly growing
/// sequencing keys in each list, no key shared between the lists, the
/// base a contiguous prefix of each list, and every edge anchored on
/// nodes of the order.
pub open spec fn order_wf(o: OrderModel) -> bool {
    &&& nodes_increasing(o.nodes)
    &&& edges_increasing(o.edges)
    &&& no_shared_sequence_id(o.nodes, o.edges)
    &&& nodes_released_prefix(o.nodes)
    &&& edges_released_prefix(o.edges)
    &&& edges_reference_nodes(o.nodes, o.edges)
}

// ---------------------------------------------------------------------------
// Executable checks of the invariants.
// ---------------------------------------------------------------------------

/// Strict growth of adjacent keys carries to every pair.
pub(crate) proof fn lemma_chain_increasing(ids: Seq<u64>, i: int, j: int)
    requires
        forall|k: int| 1 <= k < ids.len() ==> #[trigger] ids[k - 1] < ids[k],
        0 <= i < j < ids.len(),
    ensures
        ids[i] < ids[j],
    decreases j - i,
{
    assert(ids[j - 1] < ids[j]);
    if i + 1 < j {
        lemma_chain_increasing(ids, i, j - 1);
    }
}

/// The sequencing keys of the nodes, in list order.
pub open spec fn node_seq_ids(ns: Seq<NodeModel>) -> Seq<u64> {
    ns.map(|k: int, n: NodeModel| n.sequence_id)
}

/// The sequencing keys of the edges, in list order.
pub open spec fn edge_seq_ids(es: Seq<EdgeModel>) -> Seq<u64> {
    es.map(|k: int, e: EdgeModel| e.sequence_id)
}

/// Checks that the node keys grow strictly along the list.
fn check_nodes_increasing(nodes: &Vec<Node>) -> (r: bool)
    ensures
        r == nodes_increasing(nodes.deep_view()),
{
    let ghost ns = nodes.deep_view();
    let n = nodes.len();
    proof {
        assert(ns.len() == nodes@.len());
    }
    let mut i: usize = 1;
    while i < n
        invariant
            1 <= i,
            i <= n || n == 0,
            n == nodes@.len(),
            ns == nodes.deep_view(),
            ns.len() == n,
            forall|k: int| 1 <= k < i ==> #[trigger] ns[k - 1].sequence_id < ns[k].sequence_id,
        decreases n - i,
    {
        if nodes[i - 1].sequence_id >= nodes[i].sequence_id {
            proof {
                assert(ns[i - 1].sequence_id >= ns[i as int].sequence_id);
            }
            return false;
        }
        i = i + 1;
    }
    proof {
        let ids = node_seq_ids(ns);
        assert forall|a: int, b: int| 0 <= a < b < ns.len() implies #[trigger] ns[a].sequence_id
            < #[trigger] ns[b].sequence_id by {
            assert(forall|k: int| 1 <= k < ids.len() ==> #[trigger] ids[k - 1] < ids[k]) by {
                assert(forall|k: int|
                    1 <= k < ids.len() ==> ids[k - 1] == ns[k - 1].sequence_id && #[trigger] ids[k]
                        == ns[k].sequence_id);
            };
            lemma_chain_increasing(ids, a, b);
            assert(ids[a] == ns[a].sequence_id && ids[b] == ns[b].sequence_id);
        };
    }
    true
}

/// Checks that the edge keys grow strictly along the list.
fn check_edges_increasing(edges: &Vec<Edge>) -> (r: bool)
    ensures
        r == edges_increasing(edges.deep_view()),
{
    let ghost es = edges.deep_view();
    let n = edges.len();
    proof {
        assert(es.len() == edges@.len());
    }
    let mut i: usize = 1;
    while i < n
        invariant
            1 <= i,
            i <= n || n == 0,
            n == edges@.len(),
            es == edges.deep_view(),
            es.len() == n,
            forall|k: int| 1 <= k < i ==> #[trigger] es[k - 1].sequence_id < es[k].sequence_id,
        decreases n - i,
    {
        if edges[i - 1].sequence_id >= edges[i].sequence_id {
            proof {
                assert(es[i - 1].sequence_id >= es[i as int].sequence_id);
            }
            return false;
        }
        i = i + 1;
    }
    proof {
        let ids = edge_seq_ids(es);
        assert forall|a: int, b: int| 0 <= a < b < es.len() implies #[trigger] es[a].sequence_id
            < #[trigger] es[b].sequence_id by {
            assert(forall|k: int| 1 <= k < ids.len() ==> #[trigger] ids[k - 1] < ids[k]) by {
                assert(forall|k: int|
                    1 <= k < ids.len() ==> ids[k - 1] == es[k - 1].sequence_id && #[trigger] ids[k]
                        == es[k].sequence_id);
            };
            lemma_chain_increasing(ids, a, b);
            assert(ids[a] == es[a].sequence_id && ids[b] == es[b].sequence_id);
        };
    }
    true
}

/// Checks that no node shares a sequencing key with an edge.
fn check_no_shared_sequence_id(nodes: &Vec<Node>, edges: &Vec<Edge>) -> (r: bool)
    ensures
        r == no_shared_sequence_id(nodes.deep_view(), edges.deep_view()),
{
    let ghost ns = nodes.deep_view();
    let ghost es = edges.deep_view();
    let mut i: usize = 0;
    while i < nodes.len()
        invariant
            i <= nodes@.len(),
            ns == nodes.deep_view(),
            es == edges.deep_view(),
            ns.len() == nodes@.len(),
            es.len() == edges@.len(),
            forall|a: int, b: int|
                0 <= a < i && 0 <= b < es.len() ==> #[trigger] ns[a].sequence_id
                    != #[trigger] es[b].sequence_id,
        decreases nodes@.len() - i,
    {
        let mut j: usize = 0;
        while j < edges.len()
            invariant
                i < nodes@.len(),
                j <= edges@.len(),
                ns == nodes.deep_view(),
                es == edges.deep_view(),
                ns.len() == nodes@.len(),
                es.len() == edges@.len(),
                forall|b: int|
                    0 <= b < j ==> ns[i as int].sequence_id != #[trigger] es[b].sequence_id,
            decreases edges@.len() - j,
        {
            if nodes[i].sequence_id == edges[j].sequence_id {
                proof {
                    assert(ns[i as int].sequence_id == es[j as int].sequence_id);
                }
                return false;
            }
            j = j + 1;
        }
        i = i + 1;
    }
    true
}

/// Checks that the released nodes form a contiguous prefix.
fn check_nodes_released_prefix(nodes: &Vec<Node>) -> (r: bool)
    ensures
        r == nodes_released_prefix(nodes.deep_view()),
{
    let ghost ns = nodes.deep_view();
    let mut seen_horizon = false;
    let mut i: usize = 0;
    while i < nodes.len()
        invariant
            i <= nodes@.len(),
            ns == nodes.deep_view(),
            ns.len() == nodes@.len(),
            seen_horizon == exists|k: int| 0 <= k < i && !(#[trigger] ns[k].released),
            forall|k: int, l: int|
                0 <= k < l < i && #[trigger] ns[l].released ==> #[trigger] ns[k].released,
        decreases nodes@.len() - i,
    {
        if nodes[i].released {
            if seen_horizon {
                proof {
                    let k = choose|k: int| 0 <= k < i && !(#[trigger] ns[k].released);
                    assert(ns[i as int].released && !ns[k].released);
                }
                return false;
            }
        } else {
            proof {
                assert(!ns[i as int].released);
            }
            seen_horizon = true;
        }
        i = i + 1;
    }
    true
}

/// Checks that the released edges form a contiguous prefix.
fn check_edges_released_prefix(edges: &Vec<Edge>) -> (r: bool)
    ensures
        r == edges_released_prefix(edges.deep_view()),
{
    let ghost es = edges.deep_view();
    let mut seen_horizon = false;
    let mut i: usize = 0;
    while i < edges.len()
        invariant
            i <= edges@.len(),
            es == edges.deep_view(),
            es.len() == edges@.len(),
            seen_horizon == exists|k: int| 0 <= k < i && !(#[trigger] es[k].released),
            forall|k: int, l: int|
                0 <= k < l < i && #[trigger] es[l].released ==> #[trigger] es[k].released,
        decreases edges@.len() - i,
    {
        if edges[i].released {
            if seen_horizon {
                proof {
                    let k = choose|k: int| 0 <= k < i && !(#[trigger] es[k].released);
                    assert(es[i as int].released && !es[k].released);
                }
                return false;
            }
        } else {
            proof {
                assert(!es[i as int].released);
            }
            seen_horizon = true;
        }
        i = i + 1;
    }
    true
}

/// Looks the given identifier up among the nodes.
fn find_node_id(nodes: &Vec<Node>, id: &String) -> (r: bool)
    ensures
        r == has_node_id(nodes.deep_view(), id@),
{
    let ghost ns = nodes.deep_view();
    let mut i: usize = 0;
    while i < nodes.len()
        invariant
            i <= nodes@.len(),
            ns == nodes.deep_view(),
            ns.len() == nodes@.len(),
            forall|k: int| 0 <= k < i ==> #[trigger] ns[k].node_id != id@,
        decreases nodes@.len() - i,
    {
        if string_eq(&nodes[i].node_id, id) {
            proof {
                assert(ns[i as int].node_id == id@);
            }
            return true;
        }
        i = i + 1;
    }
    false
}

/// Checks that every edge starts and ends on a node of the order.
fn check_edges_reference_nodes(nodes: &Vec<Node>, edges: &Vec<Edge>) -> (r: bool)
    ensures
        r == edges_reference_nodes(nodes.deep_view(), edges.deep_view()),
{
    let ghost ns = nodes.deep_view();
    let ghost es = edges.deep_view();
    let mut j: usize = 0;
    while j < edges.len()
        invariant
            j <= edges@.len(),
            ns == nodes.deep_view(),
            es == edges.deep_view(),
            es.len() == edges@.len(),
            forall|b: int|
                0 <= b < j ==> has_node_id(ns, #[trigger] es[b].start_node_id) && has_node_id(
                    ns,
                    es[b].end_node_id,
                ),
        decreases edges@.len() - j,
    {
        if !find_node_id(nodes, &edges[j].start_node_id) {
            proof {
                assert(!has_node_id(ns, es[j as int].start_node_id));
            }
            return false;
        }
        if !find_node_id(nodes, &edges[j].end_node_id) {
            proof {
                assert(!has_node_id(ns, es[j as int].end_node_id));
            }
            return false;
        }
        j = j + 1;
    }
    true
}

/// Validates one order graph against the structural invariants, as
/// [`order_wf`] states; every breach is a graph inconsistency.
pub fn validate_order(order: &Order) -> (r: Result<(), ModelError>)
    ensures
        (r is Ok) <==> order_wf(order.deep_view()),
        r matches Result::Err(e) ==> e == ModelError::GraphInconsistency,
{
    if !check_nodes_increasing(&order.nodes) {
        return Result::Err(ModelError::GraphInconsistency);
    }
    if !check_edges_increasing(&order.edges) {
        return Result::Err(ModelError::GraphInconsistency);
    }
    if !check_no_shared_sequence_id(&order.nodes, &order.edges) {
        return Result::Err(ModelError::GraphInconsistency);
    }
    if !check_nodes_released_prefix(&order.nodes) {
        return Result::Err(ModelError::GraphInconsistency);
    }
    if !check_edges_released_prefix(&order.edges) {
        return Result::Err(ModelError::GraphInconsistency);
    }
    if !check_edges_reference_nodes(&order.nodes, &order.edges) {
        return Result::Err(ModelError::GraphInconsistency);
    }
    Result::Ok(())
}


// ---------------------------------------------------------------------------
// Content equality of orders.
// ---------------------------------------------------------------------------

/// True exactly when the two nodes hold the same content.
pub fn node_eq(a: &Node, b: &Node) -> (r: bool)
    ensures
        r == (a.deep_view() == b.deep_view()),
{
    if a.sequence_id != b.sequence_id || a.released != b.released {
        return false;
    }
    if !string_eq(&a.node_id, &b.node_id) {
        return false;
    }
    if !opt_string_eq(&a.node_description, &b.node_description) {
        return false;
    }
    let pos_ok = match (&a.node_position, &b.node_position) {
        (Option::None, Option::None) => true,
        (Option::Some(x), Option::Some(y)) => node_position_eq(x, y),
        _ => false,
    };
    if !pos_ok {
        proof {
            assert(a.deep_view().node_position != b.deep_view().node_position);
        }
        return false;
    }
    let r = actions_eq(&a.actions, &b.actions);
    proof {
        if r {
            assert(a.deep_view() =~= b.deep_view());
        }
    }
    r
}

/// True exactly when the two edges hold the same content.
pub fn edge_eq(a: &Edge, b: &Edge) -> (r: bool)
    ensures
        r == (a.deep_view() == b.deep_view()),
{
    if a.sequence_id != b.sequence_id || a.released != b.released {
        return false;
    }
    if !(string_eq(&a.edge_id, &b.edge_id) && string_eq(&a.start_node_id, &b.start_node_id)
        && string_eq(&a.end_node_id, &b.end_node_id)) {
        return false;
    }
    if !(opt_string_eq(&a.edge_description, &b.edge_description) && opt_string_eq(
        &a.direction,
        &b.direction,
    )) {
        return false;
    }
    if !(a.max_speed == b.max_speed && a.max_height == b.max_height && a.min_height == b.min_height
        && a.orientation == b.orientation && a.orientation_type == b.orientation_type
        && a.rotation_allowed == b.rotation_allowed && a.max_rotation_speed == b.max_rotation_speed
        && a.length == b.length) {
        return false;
    }
    if !opt_trajectory_eq(&a.trajectory, &b.trajectory) {
        return false;
    }
    let r = actions_eq(&a.actions, &b.actions);
    proof {
        if r {
            assert(a.deep_view() =~= b.deep_view());
        }
    }
    r
}

/// True exactly when the two orders hold the same content, envelope
/// included.
pub fn order_eq(a: &Order, b: &Order) -> (r: bool)
    ensures
        r == (a.deep_view() == b.deep_view()),
{
    if a.header_id != b.header_id || a.timestamp != b.timestamp || a.order_update_id
        != b.order_update_id {
        return false;
    }
    if !(string_eq(&a.version, &b.version) && string_eq(&a.manufacturer, &b.manufacturer)
        && string_eq(&a.serial_number, &b.serial_number) && string_eq(&a.order_id, &b.order_id)
        && opt_string_eq(&a.zone_set_id, &b.zone_set_id)) {
        return false;
    }
    if a.nodes.len() != b.nodes.len() {
        proof {
            assert(a.deep_view().nodes.len() != b.deep_view().nodes.len());
        }
        return false;
    }
    if a.edges.len() != b.edges.len() {
        proof {
            assert(a.deep_view().edges.len() != b.deep_view().edges.len());
        }
        return false;
    }
    let mut i: usize = 0;
    while i < a.nodes.len()
        invariant
            i <= a.nodes@.len() == b.nodes@.len(),
            forall|j: int|
                0 <= j < i ==> #[trigger] a.nodes@[j].deep_view() == b.nodes@[j].deep_view(),
        decreases a.nodes@.len() - i,
    {
        if !node_eq(&a.nodes[i], &b.nodes[i]) {
            proof {
                let vi = i as int;
                assert(a.deep_view().nodes[vi] != b.deep_view().nodes[vi]);
            }
            return false;
        }
        i = i + 1;
    }
    let mut i: usize = 0;
    while i < a.edges.len()
        invariant
            i <= a.edges@.len() == b.edges@.len(),
            a.nodes@.len() == b.nodes@.len(),
            forall|j: int|
                0 <= j < a.nodes@.len() ==> #[trigger] a.nodes@[j].deep_view()
                    == b.nodes@[j].deep_view(),
            forall|j: int|
                0 <= j < i ==> #[trigger] a.edges@[j].deep_view() == b.edges@[j].deep_view(),
        decreases a.edges@.len() - i,
    {
        if !edge_eq(&a.edges[i], &b.edges[i]) {
            proof {
                let vi = i as int;
                assert(a.deep_view().edges[vi] != b.deep_view().edges[vi]);
            }
            return false;
        }
        i = i + 1;
    }
    proof {
        assert(a.deep_view().nodes =~= b.deep_view().nodes);
        assert(a.deep_view().edges =~= b.deep_view().edges);
        assert(a.deep_view() =~= b.deep_view());
    }
    true
}

// ---------------------------------------------------------------------------
// Order updates.
// ---------------------------------------------------------------------------

/// How a candidate revision relates to the order it updates.
#[derive(Clone, Copy, Debug, PartialEq, Eq, Structural)]
pub enum UpdateAcceptance {
    /// A well-formed later revision that keeps the whole base.
    Accepted,
    /// The very revision that is already in force; applying it again
    /// changes nothing.
    AlreadyApplied,
}

/// Every released node and edge of the earlier revision stands, with
/// identical content and still released, in the later one: the base is
/// never un-released and never removed, only the horizon may change.
pub open spec fn base_preserved(prev: OrderModel, next: OrderModel) -> bool {
    &&& forall|i: int|
        0 <= i < prev.nodes.len() && (#[trigger] prev.nodes[i]).released ==> exists|j: int|
            0 <= j < next.nodes.len() && #[trigger] next.nodes[j] == prev.nodes[i]
    &&& forall|i: int|
        0 <= i < prev.edges.len() && (#[trigger] prev.edges[i]).released ==> exists|j: int|
            0 <= j < next.edges.len() && #[trigger] next.edges[j] == prev.edges[i]
}

/// Looks for a node of identical content in the list.
fn find_equal_node(nodes: &Vec<Node>, target: &Node) -> (r: bool)
    ensures
        r == exists|j: int|
            0 <= j < nodes.deep_view().len() && #[trigger] nodes.deep_view()[j]
                == target.deep_view(),
{
    let ghost ns = nodes.deep_view();
    let mut j: usize = 0;
    while j < nodes.len()
        invariant
            j <= nodes@.len(),
            ns == nodes.deep_view(),
            ns.len() == nodes@.len(),
            forall|k: int| 0 <= k < j ==> #[trigger] ns[k] != target.deep_view(),
        decreases nodes@.len() - j,
    {
        if node_eq(&nodes[j], target) {
            proof {
                assert(ns[j as int] == target.deep_view());
            }
            return true;
        }
        j = j + 1;
    }
    false
}

/// Looks for an edge of identical content in the list.
fn find_equal_edge(edges: &Vec<Edge>, target: &Edge) -> (r: bool)
    ensures
        r == exists|j: int|
            0 <= j < edges.deep_view().len() && #[trigger] edges.deep_view()[j]
                == target.deep_view(),
{
    let ghost es = edges.deep_view();
    let mut j: usize = 0;
    while j < edges.len()
        invariant
            j <= edges@.len(),
            es == edges.deep_view(),
            es.len() == edges@.len(),
            forall|k: int| 0 <= k < j ==> #[trigger] es[k] != target.deep_view(),
        decreases edges@.len() - j,
    {
        if edge_eq(&edges[j], target) {
            proof {
                assert(es[j as int] == target.deep_view());
            }
            return true;
        }
        j = j + 1;
    }
    false
}

/// Checks that the later revision keeps the whole released base of the
/// earlier one.
fn check_base_preserved(prev: &Order, next: &Order) -> (r: bool)
    ensures
        r == base_preserved(prev.deep_view(), next.deep_view()),
{
    let ghost pns = prev.nodes.deep_view();
    let mut i: usize = 0;
    while i < prev.nodes.len()
        invariant
            i <= prev.nodes@.len(),
            pns == prev.nodes.deep_view(),
            pns.len() == prev.nodes@.len(),
            forall|k: int|
                0 <= k < i && (#[trigger] pns[k]).released ==> exists|j: int|
                    0 <= j < next.nodes.deep_view().len() && #[trigger] next.nodes.deep_view()[j]
                        == pns[k],
        decreases prev.nodes@.len() - i,
    {
        if prev.nodes[i].released {
            if !find_equal_node(&next.nodes, &prev.nodes[i]) {
                proof {
                    assert(pns[i as int].released);
                }
                return false;
            }
        }
        i = i + 1;
    }
    let ghost pes = prev.edges.deep_view();
    let mut i: usize = 0;
    while i < prev.edges.len()
        invariant
            i <= prev.edges@.len(),
            pes == prev.edges.deep_view(),
            pes.len() == prev.edges@.len(),
            forall|k: int|
                0 <= k < prev.nodes.deep_view().len() && (
                #[trigger] prev.nodes.deep_view()[k]).released ==> exists|j: int|
                    0 <= j < next.nodes.deep_view().len() && #[trigger] next.nodes.deep_view()[j]
                        == prev.nodes.deep_view()[k],
            forall|k: int|
                0 <= k < i && (#[trigger] pes[k]).released ==> exists|j: int|
                    0 <= j < next.edges.deep_view().len() && #[trigger] next.edges.deep_view()[j]
                        == pes[k],
        decreases prev.edges@.len() - i,
    {
        if prev.edges[i].released {
            if !find_equal_edge(&next.edges, &prev.edges[i]) {
                proof {
                    assert(pes[i as int].released);
                }
                return false;
            }
        }
        i = i + 1;
    }
    proof {
        let p = prev.deep_view();
        let q = next.deep_view();
        assert forall|a: int| 0 <= a < p.nodes.len() && (#[trigger] p.nodes[a]).released
            implies exists|j: int| 0 <= j < q.nodes.len() && #[trigger] q.nodes[j]
            == p.nodes[a] by {
            assert((prev.nodes.deep_view()[a]).released);
            let j = choose|j: int|
                0 <= j < next.nodes.deep_view().len() && #[trigger] next.nodes.deep_view()[j]
                    == prev.nodes.deep_view()[a];
            assert(0 <= j < q.nodes.len() && q.nodes[j] == p.nodes[a]);
        };
        assert forall|a: int| 0 <= a < p.edges.len() && (#[trigger] p.edges[a]).released
            implies exists|j: int| 0 <= j < q.edges.len() && #[trigger] q.edges[j]
            == p.edges[a] by {
            assert((pes[a]).released);
            let j = choose|j: int|
                0 <= j < next.edges.deep_view().len() && #[trigger] next.edges.deep_view()[j]
                    == pes[a];
            assert(0 <= j < q.edges.len() && q.edges[j] == p.edges[a]);
        };
    }
    true
}

/// Judges a candidate revision of an order against the revision in
/// force, both carrying the same order identifier.
///
/// The same revision counter with identical content is the idempotent
/// re-delivery of the revision already applied; the same or a smaller
/// counter with different content, a malformed graph, or a base not
/// kept intact is a graph inconsistency.
pub fn validate_order_update(prev: &Order, next: &Order) -> (r: Result<
    UpdateAcceptance,
    ModelError,
>)
    requires
        prev.deep_view().order_id == next.deep_view().order_id,
    ensures
        (r == Result::<UpdateAcceptance, ModelError>::Ok(UpdateAcceptance::AlreadyApplied)) <==> (
        prev.deep_view() == next.deep_view()),
        (r == Result::<UpdateAcceptance, ModelError>::Ok(UpdateAcceptance::Accepted)) <==> (
        next.deep_view().order_update_id > prev.deep_view().order_update_id && order_wf(
            next.deep_view(),
        ) && base_preserved(prev.deep_view(), next.deep_view())),
        r matches Result::Err(e) ==> e == ModelError::GraphInconsistency,
{
    if next.order_update_id == prev.order_update_id {
        if order_eq(prev, next) {
            Result::Ok(UpdateAcceptance::AlreadyApplied)
        } else {
            Result::Err(ModelError::GraphInconsistency)
        }
    } else if next.order_update_id < prev.order_update_id {
        Result::Err(ModelError::GraphInconsistency)
    } else {
        match validate_order(next) {
            Result::Err(e) => Result::Err(ModelError::GraphInconsistency),
            Result::Ok(()) => {
                if check_base_preserved(prev, next) {
                    Result::Ok(UpdateAcceptance::Accepted)
                } else {
                    Result::Err(ModelError::GraphInconsistency)
                }
            },
        }
    }
}

/// A revision that flips a previously released node to unreleased
/// cannot keep the base: the flipped node occupies the sequencing slot,
/// so no released twin of the original can stand beside it in a
/// well-formed graph.
pub proof fn lemma_flipped_release_rejected(prev: OrderModel, next: OrderModel, i: int, k: int)
    requires
        order_wf(next),
        0 <= i < prev.nodes.len(),
        prev.nodes[i].released,
        0 <= k < next.nodes.len(),
        next.nodes[k].sequence_id == prev.nodes[i].sequence_id,
        !next.nodes[k].released,
    ensures
        !base_preserved(prev, next),
{
    if base_preserved(prev, next) {
        let j = choose|j: int| 0 <= j < next.nodes.len() && #[trigger] next.nodes[j]
            == prev.nodes[i];
        assert(next.nodes[j].released);
        assert(j != k);
        assert(next.nodes[j].sequence_id == next.nodes[k].sequence_id);
        if j < k {
            assert(next.nodes[j].sequence_id < next.nodes[k].sequence_id);
        } else {
            assert(next.nodes[k].sequence_id < next.nodes[j].sequence_id);
        }
    }
}


/// An edge whose start node is absent from the order's node set breaks
/// the graph invariants: no such order is well-formed.
pub proof fn lemma_unknown_start_node_breaks_wf(o: OrderModel, j: int)
    requires
        0 <= j < o.edges.len(),
        !has_node_id(o.nodes, o.edges[j].start_node_id),
    ensures
        !order_wf(o),
{
}

/// Two nodes sharing one sequencing key break the graph invariants.
pub proof fn lemma_duplicate_node_sequence_id_breaks_wf(o: OrderModel, i: int, j: int)
    requires
        0 <= i < j < o.nodes.len(),
        o.nodes[i].sequence_id == o.nodes[j].sequence_id,
    ensures
        !order_wf(o),
{
}

/// Two edges sharing one sequencing key break the graph invariants.
pub proof fn lemma_duplicate_edge_sequence_id_breaks_wf(o: OrderModel, i: int, j: int)
    requires
        0 <= i < j < o.edges.len(),
        o.edges[i].sequence_id == o.edges[j].sequence_id,
    ensures
        !order_wf(o),
{
}

/// A node and an edge sharing one sequencing key break the graph
/// invariants.
pub proof fn lemma_shared_sequence_id_breaks_wf(o: OrderModel, i: int, j: int)
    requires
        0 <= i < o.nodes.len(),
        0 <= j < o.edges.len(),
        o.nodes[i].sequence_id == o.edges[j].sequence_id,
    ensures
        !order_wf(o),
{
}

} // verus!
