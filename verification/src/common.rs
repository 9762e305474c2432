//! Shared pieces of every message kind: the envelope header fields, the
//! timestamp, and the geometry objects (positions, trajectories,
//! velocities, bounding boxes).
//!
//! Wire scalars of 32-bit binary width that the model never computes
//! with are carried as raw bit patterns, so that every message
//! round-trips without loss while all reasoning stays on plain values.

use vstd::prelude::*;

verus! {

/// Per-topic, per-device message counter: incremented by one for every
/// message a sender emits on a topic.
pub type HeaderId = u64;

/// Raw bit pattern of a 32-bit wide binary wire scalar.  The model
/// stores and compares the bits and does no arithmetic on them.
#[derive(Clone, Copy, Debug, PartialEq, Eq, Structural)]
pub struct Bits32(pub u32);

impl View for Bits32 {
    type V = Bits32;

    open spec fn view(&self) -> Bits32 {
        *self
    }
}

impl DeepView for Bits32 {
    type V = Bits32;

    open spec fn deep_view(&self) -> Bits32 {
        *self
    }
}

/// A UTC instant: whole seconds since the Unix epoch and a nanosecond
/// remainder.
#[derive(Clone, Copy, Debug, PartialEq, Eq, Structural)]
pub struct Timestamp {
    /// Whole seconds since 1970-01-01T00:00:00Z; negative before it.
    pub seconds: i64,
    /// Nanoseconds within the second.
    pub nanos: u32,
}

impl Timestamp {
    /// A well-formed instant keeps its nanosecond part below one
    /// second.
    pub open spec fn wf(&self) -> bool {
        self.nanos < 1000000000
    }

    /// Builds an instant; a nanosecond part of one second or more is
    /// refused.
    pub fn new(seconds: i64, nanos: u32) -> (r: Option<Timestamp>)
        ensures
            (r is Some) <==> nanos < 1000000000,
            r matches Option::Some(t) ==> t.seconds == seconds && t.nanos == nanos && t.wf(),
    {
        if nanos < 1000000000 {
            Option::Some(Timestamp { seconds, nanos })
        } else {
            Option::None
        }
    }
}

/// True exactly when the two strings hold the same characters.
pub fn string_eq(a: &String, b: &String) -> (r: bool)
    ensures
        r == (a@ == b@),
{
    *a == *b
}

/// True exactly when the two string slices hold the same characters.
pub fn str_eq(a: &str, b: &str) -> (r: bool)
    ensures
        r == (a@ == b@),
{
    let x = a.to_owned();
    let y = b.to_owned();
    x == y
}

/// True exactly when the two optional strings hold the same content.
pub fn opt_string_eq(a: &Option<String>, b: &Option<String>) -> (r: bool)
    ensures
        r == (a.deep_view() == b.deep_view()),
{
    match (a, b) {
        (Option::None, Option::None) => true,
        (Option::Some(x), Option::Some(y)) => string_eq(x, y),
        _ => false,
    }
}

/// Current position of the vehicle on a map.
#[derive(Debug, Clone)]
pub struct AgvPosition {
    /// X position in world coordinates.
    pub x: Bits32,
    /// Y position in world coordinates.
    pub y: Bits32,
    /// Orientation of the vehicle.
    pub theta: Bits32,
    /// Map in which the position is referenced.
    pub map_id: String,
    /// Additional information on the map.
    pub map_description: Option<String>,
    /// True once the position has been initialized.
    pub position_initialized: bool,
    /// Quality of the localization.
    pub localization_score: Option<Bits32>,
    /// Deviation range of the position in meters.
    pub deviation_range: Option<Bits32>,
}

/// The mathematical model of an [`AgvPosition`].
#[verifier::ext_equal]
pub struct AgvPositionModel {
    pub x: Bits32,
    pub y: Bits32,
    pub theta: Bits32,
    pub map_id: Seq<char>,
    pub map_description: Option<Seq<char>>,
    pub position_initialized: bool,
    pub localization_score: Option<Bits32>,
    pub deviation_range: Option<Bits32>,
}

impl DeepView for AgvPosition {
    type V = AgvPositionModel;

    open spec fn deep_view(&self) -> AgvPositionModel {
        AgvPositionModel {
            x: self.x,
            y: self.y,
            theta: self.theta,
            map_id: self.map_id@,
            map_description: self.map_description.deep_view(),
            position_initialized: self.position_initialized,
            localization_score: self.localization_score,
            deviation_range: self.deviation_range,
        }
    }
}

/// Position of a load on the vehicle, in vehicle coordinates.
#[derive(Clone, Copy, Debug, PartialEq, Eq, Structural)]
pub struct BoundingBoxReference {
    /// X coordinate of the point of reference.
    pub x: Bits32,
    /// Y coordinate of the point of reference.
    pub y: Bits32,
    /// Z coordinate of the point of reference.
    pub z: Bits32,
    /// Orientation of the bounding box.
    pub theta: Option<Bits32>,
}

/// One control point of a trajectory curve.
#[derive(Clone, Copy, Debug, PartialEq, Eq, Structural)]
pub struct ControlPoint {
    /// X coordinate in world coordinates.
    pub x: Bits32,
    /// Y coordinate in world coordinates.
    pub y: Bits32,
    /// Weight with which the point pulls on the curve.
    pub weight: Option<Bits32>,
    /// Orientation of the vehicle at this point of the curve.
    pub orientation: Option<Bits32>,
}

impl View for ControlPoint {
    type V = ControlPoint;

    open spec fn view(&self) -> ControlPoint {
        *self
    }
}

impl DeepView for ControlPoint {
    type V = ControlPoint;

    open spec fn deep_view(&self) -> ControlPoint {
        *self
    }
}

/// Dimensions of a load's bounding box in meters.
#[derive(Clone, Copy, Debug, PartialEq, Eq, Structural)]
pub struct LoadDimensions {
    /// Absolute length of the bounding box.
    pub length: Bits32,
    /// Absolute width of the bounding box.
    pub width: Bits32,
    /// Absolute height of the bounding box, when known.
    pub height: Option<Bits32>,
}

/// Position of a node on a map, in world coordinates.
#[derive(Debug, Clone)]
pub struct NodePosition {
    /// X coordinate in world coordinates.
    pub x: Bits32,
    /// Y coordinate in world coordinates.
    pub y: Bits32,
    /// Orientation the vehicle has to assume on the node.
    pub theta: Option<Bits32>,
    /// Allowed positional deviation radius for the node to count as
    /// traversed.
    pub allowed_deviation_xy: Option<Bits32>,
    /// Allowed angular deviation.
    pub allowed_deviation_theta: Option<Bits32>,
    /// Map in which the position is referenced.
    pub map_id: String,
    /// Verbose description of the map.
    pub map_description: Option<String>,
}

/// The mathematical model of a [`NodePosition`].
#[verifier::ext_equal]
pub struct NodePositionModel {
    pub x: Bits32,
    pub y: Bits32,
    pub theta: Option<Bits32>,
    pub allowed_deviation_xy: Option<Bits32>,
    pub allowed_deviation_theta: Option<Bits32>,
    pub map_id: Seq<char>,
    pub map_description: Option<Seq<char>>,
}

impl DeepView for NodePosition {
    type V = NodePositionModel;

    open spec fn deep_view(&self) -> NodePositionModel {
        NodePositionModel {
            x: self.x,
            y: self.y,
            theta: self.theta,
            allowed_deviation_xy: self.allowed_deviation_xy,
            allowed_deviation_theta: self.allowed_deviation_theta,
            map_id: self.map_id@,
            map_description: self.map_description.deep_view(),
        }
    }
}

/// True exactly when the two node positions hold the same content.
pub fn node_position_eq(a: &NodePosition, b: &NodePosition) -> (r: bool)
    ensures
        r == (a.deep_view() == b.deep_view()),
{
    let r = a.x == b.x && a.y == b.y && a.theta == b.theta && a.allowed_deviation_xy
        == b.allowed_deviation_xy && a.allowed_deviation_theta == b.allowed_deviation_theta
        && string_eq(&a.map_id, &b.map_id) && opt_string_eq(&a.map_description, &b.map_description);
    proof {
        if r {
            assert(a.deep_view() =~= b.deep_view());
        }
    }
    r
}

/// The curve a vehicle is to follow along an edge, as a NURBS.
#[derive(Debug, Clone)]
pub struct Trajectory {
    /// Number of control points that influence any given point of the
    /// curve.
    pub degree: i64,
    /// Knot vector of the curve; its length is the number of control
    /// points plus the degree plus one.
    pub knot_vector: Vec<Bits32>,
    /// Control points of the curve, including the start and end point.
    pub control_points: Vec<ControlPoint>,
}

/// The mathematical model of a [`Trajectory`].
#[verifier::ext_equal]
pub struct TrajectoryModel {
    pub degree: int,
    pub knot_vector: Seq<Bits32>,
    pub control_points: Seq<ControlPoint>,
}

impl DeepView for Trajectory {
    type V = TrajectoryModel;

    open spec fn deep_view(&self) -> TrajectoryModel {
        TrajectoryModel {
            degree: self.degree as int,
            knot_vector: self.knot_vector.deep_view(),
            control_points: self.control_points.deep_view(),
        }
    }
}

/// True exactly when the two trajectories hold the same content.
pub fn trajectory_eq(a: &Trajectory, b: &Trajectory) -> (r: bool)
    ensures
        r == (a.deep_view() == b.deep_view()),
{
    if a.degree != b.degree {
        return false;
    }
    if a.knot_vector.len() != b.knot_vector.len() {
        proof {
            assert(a.deep_view().knot_vector.len() != b.deep_view().knot_vector.len());
        }
        return false;
    }
    if a.control_points.len() != b.control_points.len() {
        proof {
            assert(a.deep_view().control_points.len() != b.deep_view().control_points.len());
        }
        return false;
    }
    let mut i: usize = 0;
    while i < a.knot_vector.len()
        invariant
            i <= a.knot_vector@.len() == b.knot_vector@.len(),
            forall|j: int| 0 <= j < i ==> a.knot_vector@[j] == b.knot_vector@[j],
        decreases a.knot_vector@.len() - i,
    {
        if a.knot_vector[i] != b.knot_vector[i] {
            proof {
                assert(a.deep_view().knot_vector[i as int] != b.deep_view().knot_vector[i as int]);
            }
            return false;
        }
        i = i + 1;
    }
    let mut i: usize = 0;
    while i < a.control_points.len()
        invariant
            i <= a.control_points@.len() == b.control_points@.len(),
            a.knot_vector@.len() == b.knot_vector@.len(),
            forall|j: int| 0 <= j < a.knot_vector@.len() ==> a.knot_vector@[j] == b.knot_vector@[j],
            forall|j: int| 0 <= j < i ==> a.control_points@[j] == b.control_points@[j],
        decreases a.control_points@.len() - i,
    {
        if a.control_points[i] != b.control_points[i] {
            proof {
                let vi = i as int;
                assert(a.deep_view().control_points[vi] != b.deep_view().control_points[vi]);
            }
            return false;
        }
        i = i + 1;
    }
    proof {
        assert(a.deep_view().knot_vector =~= b.deep_view().knot_vector);
        assert(a.deep_view().control_points =~= b.deep_view().control_points);
        assert(a.deep_view() =~= b.deep_view());
    }
    true
}

/// True exactly when the two optional trajectories hold the same
/// content.
pub fn opt_trajectory_eq(a: &Option<Trajectory>, b: &Option<Trajectory>) -> (r: bool)
    ensures
        r == (a.deep_view() == b.deep_view()),
{
    match (a, b) {
        (Option::None, Option::None) => true,
        (Option::Some(x), Option::Some(y)) => trajectory_eq(x, y),
        _ => false,
    }
}

/// The vehicle's velocity in vehicle coordinates.
#[derive(Clone, Copy, Debug, PartialEq, Eq, Structural)]
pub struct Velocity {
    /// Velocity in the vehicle's X direction.
    pub vx: Option<Bits32>,
    /// Velocity in the vehicle's Y direction.
    pub vy: Option<Bits32>,
    /// Turning speed around the vehicle's Z axis.
    pub omega: Option<Bits32>,
}

} // verus!
