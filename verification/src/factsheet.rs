//! The factsheet: a static, self-contained description of one vehicle
//! type series, used for planning, dimensioning and simulation.  It has
//! no cross-field invariants; the model carries it as plain data.

use vstd::prelude::*;

use crate::common::Bits32;
use crate::common::BoundingBoxReference;
use crate::common::HeaderId;
use crate::common::LoadDimensions;
use crate::common::Timestamp;
use crate::common::str_eq;
use crate::value::ModelError;

verus! {

/// Simplified description of the vehicle's kinematics.
#[derive(Clone, Copy, Debug, PartialEq, Eq, Structural)]
pub enum AgvKinematic {
    /// Differential drive.
    Diff,
    /// Omnidirectional drive.
    Omni,
    /// Three-wheel drive.
    ThreeWheel,
}

/// Wire token of a kinematics class.
pub open spec fn agv_kinematic_token(k: AgvKinematic) -> Seq<char> {
    match k {
        AgvKinematic::Diff => "DIFF"@,
        AgvKinematic::Omni => "OMNI"@,
        AgvKinematic::ThreeWheel => "THREEWHEEL"@,
    }
}

impl AgvKinematic {
    /// The token this kinematics class carries on the wire.
    pub fn token(&self) -> (r: &'static str)
        ensures
            r@ == agv_kinematic_token(*self),
    {
        match self {
            AgvKinematic::Diff => "DIFF",
            AgvKinematic::Omni => "OMNI",
            AgvKinematic::ThreeWheel => "THREEWHEEL",
        }
    }

    /// Reads a wire token; a token outside the closed enumeration is an
    /// invalid enumeration value.
    pub fn from_token(s: &str) -> (r: Result<AgvKinematic, ModelError>)
        ensures
            r == (if s@ == "DIFF"@ {
                Result::<AgvKinematic, ModelError>::Ok(AgvKinematic::Diff)
            } else if s@ == "OMNI"@ {
                Result::<AgvKinematic, ModelError>::Ok(AgvKinematic::Omni)
            } else if s@ == "THREEWHEEL"@ {
                Result::<AgvKinematic, ModelError>::Ok(AgvKinematic::ThreeWheel)
            } else {
                Result::<AgvKinematic, ModelError>::Err(ModelError::InvalidEnumValue)
            }),
    {
        if str_eq(s, "DIFF") {
            Result::Ok(AgvKinematic::Diff)
        } else if str_eq(s, "OMNI") {
            Result::Ok(AgvKinematic::Omni)
        } else if str_eq(s, "THREEWHEEL") {
            Result::Ok(AgvKinematic::ThreeWheel)
        } else {
            Result::Err(ModelError::InvalidEnumValue)
        }
    }
}

/// Simplified class of the vehicle.
#[derive(Clone, Copy, Debug, PartialEq, Eq, Structural)]
pub enum AgvClass {
    Forklift,
    Conveyor,
    Tugger,
    Carrier,
}

/// Wire token of a vehicle class.
pub open spec fn agv_class_token(c: AgvClass) -> Seq<char> {
    match c {
        AgvClass::Forklift => "FORKLIFT"@,
        AgvClass::Conveyor => "CONVEYOR"@,
        AgvClass::Tugger => "TUGGER"@,
        AgvClass::Carrier => "CARRIER"@,
    }
}

impl AgvClass {
    /// The token this class carries on the wire.
    pub fn token(&self) -> (r: &'static str)
        ensures
            r@ == agv_class_token(*self),
    {
        match self {
            AgvClass::Forklift => "FORKLIFT",
            AgvClass::Conveyor => "CONVEYOR",
            AgvClass::Tugger => "TUGGER",
            AgvClass::Carrier => "CARRIER",
        }
    }

    /// Reads a wire token; a token outside the closed enumeration is an
    /// invalid enumeration value.
    pub fn from_token(s: &str) -> (r: Result<AgvClass, ModelError>)
        ensures
            r == (if s@ == "FORKLIFT"@ {
                Result::<AgvClass, ModelError>::Ok(AgvClass::Forklift)
            } else if s@ == "CONVEYOR"@ {
                Result::<AgvClass, ModelError>::Ok(AgvClass::Conveyor)
            } else if s@ == "TUGGER"@ {
                Result::<AgvClass, ModelError>::Ok(AgvClass::Tugger)
            } else if s@ == "CARRIER"@ {
                Result::<AgvClass, ModelError>::Ok(AgvClass::Carrier)
            } else {
                Result::<AgvClass, ModelError>::Err(ModelError::InvalidEnumValue)
            }),
    {
        if str_eq(s, "FORKLIFT") {
            Result::Ok(AgvClass::Forklift)
        } else if str_eq(s, "CONVEYOR") {
            Result::Ok(AgvClass::Conveyor)
        } else if str_eq(s, "TUGGER") {
            Result::Ok(AgvClass::Tugger)
        } else if str_eq(s, "CARRIER") {
            Result::Ok(AgvClass::Carrier)
        } else {
            Result::Err(ModelError::InvalidEnumValue)
        }
    }
}

/// Simplified description of the localization technique.
#[derive(Clone, Copy, Debug, PartialEq, Eq, Structural)]
pub enum LocalizationType {
    Natural,
    Reflector,
    Rfid,
    Dmc,
    Spot,
    Grid,
}

/// Simplified description of the path planning technique.
#[derive(Clone, Copy, Debug, PartialEq, Eq, Structural)]
pub enum NavigationType {
    /// The vehicle follows a physical line.
    PhysicalLindeGuided,
    /// The vehicle follows a virtual line.
    VirtualLineGuided,
    /// The vehicle plans its path autonomously.
    Autonomous,
}

/// General class and capabilities of the vehicle type series.
#[derive(Debug, Clone)]
pub struct TypeSpecification {
    /// Series name as specified by the manufacturer.
    pub series_name: String,
    /// Human-readable description of the series.
    pub series_description: Option<String>,
    /// Simplified kinematics class.
    pub agv_kinematic: AgvKinematic,
    /// Simplified vehicle class.
    pub agv_class: AgvClass,
    /// Maximum loadable mass.
    pub max_load_mass: Bits32,
    /// Localization techniques the series supports.
    pub localization_types: Vec<LocalizationType>,
    /// Path planning techniques the series supports, by priority.
    pub navigation_types: Vec<NavigationType>,
}

/// Basic physical properties of the vehicle.
#[derive(Clone, Copy, Debug, PartialEq, Eq, Structural)]
pub struct PhysicalParameters {
    /// Minimal controlled continuous speed.
    pub speed_min: Bits32,
    /// Maximum speed.
    pub speed_max: Bits32,
    /// Maximum acceleration with maximum load.
    pub acceleration_max: Bits32,
    /// Maximum deceleration with maximum load.
    pub deceleration_max: Bits32,
    /// Minimum height.
    pub height_min: Option<Bits32>,
    /// Maximum height.
    pub height_max: Bits32,
    /// Width of the vehicle.
    pub width: Bits32,
    /// Length of the vehicle.
    pub length: Bits32,
}

/// Maximum lengths of strings the vehicle can process.
#[derive(Clone, Copy, Debug, PartialEq, Eq, Structural)]
pub struct MaxStringLens {
    /// Maximum message length.
    pub msg_len: Option<u64>,
    /// Maximum length of the serial-number part of a topic.
    pub topic_serial_len: Option<u64>,
    /// Maximum length of the other topic parts.
    pub topic_elem_len: Option<u64>,
    /// Maximum length of identifier strings.
    pub id_len: Option<u64>,
    /// True when identifiers must be numerical.
    pub id_numerical_only: Option<bool>,
    /// Maximum length of enumeration and key strings.
    pub enum_len: Option<u64>,
    /// Maximum length of load identifiers.
    pub load_id_len: Option<u64>,
}

/// Maximum lengths of arrays the vehicle can process.
#[derive(Clone, Copy, Debug, PartialEq, Eq, Structural)]
pub struct MaxArrayLens {
    /// Maximum number of nodes per order.
    pub order_nodes: u32,
    /// Maximum number of edges per order.
    pub order_edges: u32,
    /// Maximum number of actions per node.
    pub node_actions: u32,
    /// Maximum number of actions per edge.
    pub edge_actions: u32,
    /// Maximum number of parameters per action.
    pub actions_actions_parameters: u32,
    /// Maximum number of instant actions per message.
    pub instant_actions: u32,
    /// Maximum number of knots per trajectory.
    pub trajectory_knot_vector: u32,
    /// Maximum number of control points per trajectory.
    pub trajectory_control_points: u32,
    /// Maximum number of remaining-node records per state report.
    pub state_node_states: u32,
    /// Maximum number of remaining-edge records per state report.
    pub state_edge_states: u32,
    /// Maximum number of load records per state report.
    pub state_loads: u32,
    /// Maximum number of action records per state report.
    pub state_action_states: u32,
    /// Maximum number of errors per state report.
    pub state_errors: u32,
    /// Maximum number of information entries per state report.
    pub state_information: u32,
    /// Maximum number of references per error.
    pub error_error_references: u32,
    /// Maximum number of references per information entry.
    pub information_info_references: u32,
}

/// Timing limits of the vehicle's protocol handling.
#[derive(Clone, Copy, Debug, PartialEq, Eq, Structural)]
pub struct Timing {
    /// Minimum interval between order messages to the vehicle.
    pub min_order_interval: Bits32,
    /// Minimum interval between state reports.
    pub min_state_interval: Bits32,
    /// Default interval between state reports.
    pub default_state_interval: Option<Bits32>,
    /// Default interval between visualization messages.
    pub visualization_interval: Option<Bits32>,
}

/// Protocol limitations of the vehicle; an absent or zero limit means
/// no explicit limit.
#[derive(Clone, Copy, Debug, PartialEq, Eq, Structural)]
pub struct ProtocolLimits {
    /// Maximum lengths of strings.
    pub max_string_lens: MaxStringLens,
    /// Maximum lengths of arrays.
    pub max_array_lens: MaxArrayLens,
    /// Timing limits.
    pub timing: Timing,
}

/// How far the vehicle supports an optional protocol parameter.
#[derive(Clone, Copy, Debug, PartialEq, Eq, Structural)]
pub enum Support {
    /// The optional parameter is supported as specified.
    Supported,
    /// The optional parameter is required for proper operation.
    Required,
}

/// Wire token of a support class.
pub open spec fn support_token(s: Support) -> Seq<char> {
    match s {
        Support::Supported => "SUPPORTED"@,
        Support::Required => "REQUIRED"@,
    }
}

impl Support {
    /// The token this support class carries on the wire.
    pub fn token(&self) -> (r: &'static str)
        ensures
            r@ == support_token(*self),
    {
        match self {
            Support::Supported => "SUPPORTED",
            Support::Required => "REQUIRED",
        }
    }

    /// Reads a wire token; a token outside the closed enumeration is an
    /// invalid enumeration value.
    pub fn from_token(s: &str) -> (r: Result<Support, ModelError>)
        ensures
            r == (if s@ == "SUPPORTED"@ {
                Result::<Support, ModelError>::Ok(Support::Supported)
            } else if s@ == "REQUIRED"@ {
                Result::<Support, ModelError>::Ok(Support::Required)
            } else {
                Result::<Support, ModelError>::Err(ModelError::InvalidEnumValue)
            }),
    {
        if str_eq(s, "SUPPORTED") {
            Result::Ok(Support::Supported)
        } else if str_eq(s, "REQUIRED") {
            Result::Ok(Support::Required)
        } else {
            Result::Err(ModelError::InvalidEnumValue)
        }
    }
}

/// One optional protocol parameter the vehicle supports or requires.
#[derive(Debug, Clone)]
pub struct OptionalParameter {
    /// Full name of the optional parameter.
    pub parameter: String,
    /// How far the parameter is supported.
    pub support: Support,
    /// Description of the parameter.
    pub description: Option<String>,
}

/// Where an action type may be used.
#[derive(Clone, Copy, Debug, PartialEq, Eq, Structural)]
pub enum ActionScope {
    /// Usable as an instant action.
    Instant,
    /// Usable on nodes.
    Node,
    /// Usable on edges.
    Edge,
}

/// Data type of an action parameter value, as the factsheet declares
/// it.
#[derive(Clone, Copy, Debug, PartialEq, Eq, Structural)]
pub enum ValueDataType {
    Bool,
    Number,
    Integer,
    Float,
    String,
    Object,
    Array,
}

/// One declared parameter of an action the vehicle supports.
#[derive(Debug, Clone)]
pub struct ActionParameter {
    /// Key of the parameter.
    pub key: String,
    /// Declared data type of the value.
    pub value_data_type: ValueDataType,
    /// Description of the parameter.
    pub description: Option<String>,
    /// True when the parameter is optional.
    pub is_optional: Option<bool>,
}

/// One action type the vehicle supports, standard or
/// manufacturer-specific.
#[derive(Debug, Clone)]
pub struct AgvAction {
    /// The action type the entry describes.
    pub action_type: String,
    /// Description of the action.
    pub action_description: Option<String>,
    /// Scopes in which the action may be used.
    pub action_scopes: Vec<ActionScope>,
    /// Declared parameters; an empty list means none.
    pub action_parameters: Vec<ActionParameter>,
    /// Description of the result reported on completion.
    pub result_description: Option<String>,
}

/// The protocol features the vehicle supports.
#[derive(Debug, Clone)]
pub struct ProtocolFeatures {
    /// Supported or required optional parameters; an optional parameter
    /// not listed is assumed unsupported.
    pub optional_parameters: Vec<OptionalParameter>,
    /// All actions the vehicle supports.
    pub agv_actions: Vec<AgvAction>,
}

/// Type of one wheel of the vehicle.
#[derive(Clone, Copy, Debug, PartialEq, Eq, Structural)]
pub enum WheelType {
    Drive,
    Caster,
    Fixed,
    Mecanum,
}

/// Position of a wheel in the vehicle coordinate system.
#[derive(Clone, Copy, Debug, PartialEq, Eq, Structural)]
pub struct Position {
    /// X position in the vehicle coordinate system.
    pub x: Bits32,
    /// Y position in the vehicle coordinate system.
    pub y: Bits32,
    /// Orientation of the wheel; necessary for fixed wheels.
    pub theta: Option<Bits32>,
}

/// Arrangement and geometry of one wheel.
#[derive(Debug, Clone)]
pub struct WheelDefinition {
    /// Type of the wheel.
    pub wheel_type: WheelType,
    /// True when the wheel is actively driven.
    pub is_active_driven: bool,
    /// True when the wheel is actively steered.
    pub is_active_steered: bool,
    /// Position of the wheel.
    pub position: Position,
    /// Nominal diameter of the wheel.
    pub diameter: Bits32,
    /// Nominal width of the wheel.
    pub width: Bits32,
    /// Displacement of the wheel's center to the rotation point, for
    /// caster wheels; zero when absent.
    pub center_displacement: Option<Bits32>,
    /// Constraints the manufacturer defines.
    pub constraints: Option<String>,
}

/// One point of an envelope polygon.
#[derive(Clone, Copy, Debug, PartialEq, Eq, Structural)]
pub struct PolygonPoint {
    /// X position of the point.
    pub x: Bits32,
    /// Y position of the point.
    pub y: Bits32,
}

/// One two-dimensional envelope curve of the vehicle.
#[derive(Debug, Clone)]
pub struct Envelopes2d {
    /// Name of the envelope curve set.
    pub set: String,
    /// The envelope as a closed, non-self-intersecting polygon.
    pub polygon_points: Vec<PolygonPoint>,
    /// Description of the envelope curve set.
    pub description: Option<String>,
}

/// Opaque three-dimensional envelope curve data.
#[derive(Clone, Copy, Debug, PartialEq, Eq, Structural)]
pub struct Data;

/// One three-dimensional envelope curve of the vehicle.
#[derive(Debug, Clone)]
pub struct Envelopes3d {
    /// Name of the envelope curve set.
    pub set: String,
    /// Format of the data.
    pub format: String,
    /// The envelope data, in the named format.
    pub data: Option<Data>,
    /// Where the envelope data can be downloaded.
    pub url: Option<String>,
    /// Description of the envelope curve set.
    pub description: Option<Bits32>,
}

/// Detailed definition of the vehicle's geometry.
#[derive(Debug, Clone)]
pub struct AgvGeometry {
    /// Wheels of the vehicle, with arrangement and geometry.
    pub wheel_definitions: Vec<WheelDefinition>,
    /// Two-dimensional envelope curves.
    pub envelopes2d: Vec<Envelopes2d>,
    /// Three-dimensional envelope curves.
    pub envelopes3d: Vec<Envelopes3d>,
}

/// One load set the vehicle can handle.
#[derive(Debug, Clone)]
pub struct LoadSet {
    /// Unique name of the load set.
    pub set_name: String,
    /// Type of the load.
    pub load_type: String,
    /// Load positions the set is valid for; empty means all.
    pub load_positions: Vec<String>,
    /// Bounding box reference of the load.
    pub bounding_box_reference: Option<BoundingBoxReference>,
    /// Dimensions of the load.
    pub load_dimensions: Option<LoadDimensions>,
    /// Maximum weight of the load type.
    pub max_weigth: Option<Bits32>,
    /// Minimum handling height for this load type and weight.
    pub min_loadhandling_height: Option<Bits32>,
    /// Maximum handling height for this load type and weight.
    pub max_loadhandling_height: Option<Bits32>,
    /// Minimum handling depth for this load type and weight.
    pub min_loadhandling_depth: Option<Bits32>,
    /// Maximum handling depth for this load type and weight.
    pub max_loadhandling_depth: Option<Bits32>,
    /// Minimum handling tilt for this load type and weight.
    pub min_loadhandling_tilt: Option<Bits32>,
    /// Maximum handling tilt for this load type and weight.
    pub max_loadhandling_tilt: Option<Bits32>,
    /// Speed limit while carrying this load.
    pub agv_speed_limit: Option<Bits32>,
    /// Acceleration limit while carrying this load.
    pub agv_acceleration_limit: Option<Bits32>,
    /// Deceleration limit while carrying this load.
    pub agv_deceleration_limit: Option<Bits32>,
    /// Approximate time for picking the load up.
    pub pick_time: Option<Bits32>,
    /// Approximate time for dropping the load.
    pub drop_time: Option<Bits32>,
    /// Description of the load handling set.
    pub description: Option<Bits32>,
}

/// Abstract specification of the vehicle's load capabilities.
#[derive(Debug, Clone)]
pub struct LoadSpecification {
    /// Valid load positions or load handling devices; empty when the
    /// vehicle has none.
    pub load_positions: Vec<String>,
    /// Load sets the vehicle can handle.
    pub load_sets: Vec<LoadSet>,
}

/// Basic information about one vehicle type series.
#[derive(Debug, Clone)]
pub struct Factsheet {
    /// Per-topic message counter of the envelope.
    pub header_id: HeaderId,
    /// Instant at which the message was created.
    pub timestamp: Timestamp,
    /// Protocol version of the message.
    pub version: String,
    /// Manufacturer of the vehicle.
    pub manufacturer: String,
    /// Serial number of the vehicle.
    pub serial_number: String,
    /// Class and capabilities of the series.
    pub type_specification: Option<TypeSpecification>,
    /// Basic physical properties.
    pub physical_parameters: Option<PhysicalParameters>,
    /// Protocol limitations.
    pub protocol_limits: Option<ProtocolLimits>,
    /// Supported protocol features.
    pub protocol_features: Option<ProtocolFeatures>,
    /// Detailed geometry.
    pub agv_geometry: Option<AgvGeometry>,
    /// Load capabilities.
    pub load_specification: Option<LoadSpecification>,
    /// Detailed localization specification.
    pub localization_parameters: Option<u64>,
}

} // verus!
