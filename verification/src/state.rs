//! The state/report model: the vehicle's mirrored view of an order in
//! progress, the cumulative status of every action, and the battery,
//! error and safety conditions.
//!
//! Each emission is a full snapshot, never a delta.  The action log is
//! append-only for the lifetime of an order identifier: entries are
//! added as actions become relevant and retained, terminal or not,
//! until a new order identifier begins.

use vstd::prelude::*;

use crate::common::AgvPosition;
use crate::common::Bits32;
use crate::common::BoundingBoxReference;
use crate::common::HeaderId;
use crate::common::LoadDimensions;
use crate::common::NodePosition;
use crate::common::Timestamp;
use crate::common::Trajectory;
use crate::common::Velocity;
use crate::common::str_eq;
use crate::value::ModelError;

verus! {

/// Lifecycle state of one action's execution, as reported by the
/// executing side.
#[derive(Clone, Copy, Debug, PartialEq, Eq, Structural)]
pub enum ActionStatus {
    /// The action was received but its trigger node or edge is not yet
    /// reached.
    Waiting,
    /// The action was triggered; preparatory measures are under way.
    Initializing,
    /// The action is paused, by a pause action or an external trigger.
    Paused,
    /// The action is running.
    Running,
    /// The action finished; a result is reported when available.
    Finished,
    /// The action could not be finished.
    Failed,
}

/// Wire token of an action status.
pub open spec fn action_status_token(s: ActionStatus) -> Seq<char> {
    match s {
        ActionStatus::Waiting => "WAITING"@,
        ActionStatus::Initializing => "INITIALIZING"@,
        ActionStatus::Paused => "PAUSED"@,
        ActionStatus::Running => "RUNNING"@,
        ActionStatus::Finished => "FINISHED"@,
        ActionStatus::Failed => "FAILED"@,
    }
}

/// A status no action leaves again: finished or failed.
pub open spec fn status_terminal(s: ActionStatus) -> bool {
    s == ActionStatus::Finished || s == ActionStatus::Failed
}

/// The lifecycle machine of one action: waiting, then initializing,
/// then running with pauses, then one terminal status.  A snapshot may
/// repeat the previous status, a stage may be skipped on the way
/// forward, any non-terminal status may fail or finish, and a terminal
/// status never changes again.
pub open spec fn status_may_follow(prev: ActionStatus, next: ActionStatus) -> bool {
    ||| next == prev
    ||| (!status_terminal(prev) && status_terminal(next))
    ||| (prev == ActionStatus::Waiting && (next == ActionStatus::Initializing || next
        == ActionStatus::Running))
    ||| (prev == ActionStatus::Initializing && next == ActionStatus::Running)
    ||| (prev == ActionStatus::Running && next == ActionStatus::Paused)
    ||| (prev == ActionStatus::Paused && next == ActionStatus::Running)
}

/// A terminal status is final: whatever a later snapshot reports for
/// the same action within the same order must be that status again.
pub proof fn lemma_terminal_status_is_final(prev: ActionStatus, next: ActionStatus)
    requires
        status_terminal(prev),
        status_may_follow(prev, next),
    ensures
        next == prev,
{
}

impl ActionStatus {
    /// True for the two terminal statuses.
    pub fn is_terminal(&self) -> (r: bool)
        ensures
            r == status_terminal(*self),
    {
        match self {
            ActionStatus::Finished => true,
            ActionStatus::Failed => true,
            _ => false,
        }
    }

    /// True when a report of `next` may follow a report of `self` for
    /// the same action within the same order.
    pub fn may_be_followed_by(&self, next: &ActionStatus) -> (r: bool)
        ensures
            r == status_may_follow(*self, *next),
    {
        if *self == *next {
            return true;
        }
        if !self.is_terminal() && next.is_terminal() {
            return true;
        }
        match (self, next) {
            (ActionStatus::Waiting, ActionStatus::Initializing) => true,
            (ActionStatus::Waiting, ActionStatus::Running) => true,
            (ActionStatus::Initializing, ActionStatus::Running) => true,
            (ActionStatus::Running, ActionStatus::Paused) => true,
            (ActionStatus::Paused, ActionStatus::Running) => true,
            _ => false,
        }
    }

    /// The token this status carries on the wire.
    pub fn token(&self) -> (r: &'static str)
        ensures
            r@ == action_status_token(*self),
    {
        match self {
            ActionStatus::Waiting => "WAITING",
            ActionStatus::Initializing => "INITIALIZING",
            ActionStatus::Paused => "PAUSED",
            ActionStatus::Running => "RUNNING",
            ActionStatus::Finished => "FINISHED",
            ActionStatus::Failed => "FAILED",
        }
    }

    /// Reads a wire token; a token outside the closed enumeration is an
    /// invalid enumeration value.
    pub fn from_token(s: &str) -> (r: Result<ActionStatus, ModelError>)
        ensures
            r == (if s@ == "WAITING"@ {
                Result::<ActionStatus, ModelError>::Ok(ActionStatus::Waiting)
            } else if s@ == "INITIALIZING"@ {
                Result::<ActionStatus, ModelError>::Ok(ActionStatus::Initializing)
            } else if s@ == "PAUSED"@ {
                Result::<ActionStatus, ModelError>::Ok(ActionStatus::Paused)
            } else if s@ == "RUNNING"@ {
                Result::<ActionStatus, ModelError>::Ok(ActionStatus::Running)
            } else if s@ == "FINISHED"@ {
                Result::<ActionStatus, ModelError>::Ok(ActionStatus::Finished)
            } else if s@ == "FAILED"@ {
                Result::<ActionStatus, ModelError>::Ok(ActionStatus::Failed)
            } else {
                Result::<ActionStatus, ModelError>::Err(ModelError::InvalidEnumValue)
            }),
    {
        if str_eq(s, "WAITING") {
            Result::Ok(ActionStatus::Waiting)
        } else if str_eq(s, "INITIALIZING") {
            Result::Ok(ActionStatus::Initializing)
        } else if str_eq(s, "PAUSED") {
            Result::Ok(ActionStatus::Paused)
        } else if str_eq(s, "RUNNING") {
            Result::Ok(ActionStatus::Running)
        } else if str_eq(s, "FINISHED") {
            Result::Ok(ActionStatus::Finished)
        } else if str_eq(s, "FAILED") {
            Result::Ok(ActionStatus::Failed)
        } else {
            Result::Err(ModelError::InvalidEnumValue)
        }
    }
}

impl View for ActionStatus {
    type V = ActionStatus;

    open spec fn view(&self) -> ActionStatus {
        *self
    }
}

impl DeepView for ActionStatus {
    type V = ActionStatus;

    open spec fn deep_view(&self) -> ActionStatus {
        *self
    }
}

/// Cumulative record of one action's execution.
#[derive(Debug, Clone)]
pub struct ActionState {
    /// Identifier of the action the record is about.
    pub action_id: String,
    /// Name of the operation, for information only.
    pub action_type: Option<String>,
    /// Additional information on the action.
    pub action_description: Option<String>,
    /// Where the action stands in its lifecycle.
    pub action_status: ActionStatus,
    /// Description of the result, reported with a terminal status when
    /// available.
    pub result_description: Option<String>,
}

/// The mathematical model of an [`ActionState`].
#[verifier::ext_equal]
pub struct ActionStateModel {
    pub action_id: Seq<char>,
    pub action_type: Option<Seq<char>>,
    pub action_description: Option<Seq<char>>,
    pub action_status: ActionStatus,
    pub result_description: Option<Seq<char>>,
}

impl DeepView for ActionState {
    type V = ActionStateModel;

    open spec fn deep_view(&self) -> ActionStateModel {
        ActionStateModel {
            action_id: self.action_id@,
            action_type: self.action_type.deep_view(),
            action_description: self.action_description.deep_view(),
            action_status: self.action_status,
            result_description: self.result_description.deep_view(),
        }
    }
}

/// Remaining node of the order still to drive over.
#[derive(Debug, Clone)]
pub struct NodeState {
    /// Unique node identification.
    pub node_id: String,
    /// Sequencing key of the node within its order.
    pub sequence_id: u64,
    /// Verbose node description.
    pub node_description: Option<String>,
    /// Position of the node.
    pub node_position: Option<NodePosition>,
    /// True when the node belongs to the base.
    pub released: bool,
}

/// The mathematical model of a [`NodeState`].
#[verifier::ext_equal]
pub struct NodeStateModel {
    pub node_id: Seq<char>,
    pub sequence_id: u64,
    pub node_description: Option<Seq<char>>,
    pub node_position: Option<crate::common::NodePositionModel>,
    pub released: bool,
}

impl DeepView for NodeState {
    type V = NodeStateModel;

    open spec fn deep_view(&self) -> NodeStateModel {
        NodeStateModel {
            node_id: self.node_id@,
            sequence_id: self.sequence_id,
            node_description: self.node_description.deep_view(),
            node_position: self.node_position.deep_view(),
            released: self.released,
        }
    }
}

/// Remaining edge of the order still to drive over.
#[derive(Debug, Clone)]
pub struct EdgeState {
    /// Unique edge identification.
    pub edge_id: String,
    /// Sequencing key of the edge within its order.
    pub sequence_id: u64,
    /// Verbose edge description.
    pub edge_description: Option<String>,
    /// True when the edge belongs to the base.
    pub released: bool,
    /// The curve the vehicle follows along the edge.
    pub trajectory: Option<Trajectory>,
}

/// The mathematical model of an [`EdgeState`].
#[verifier::ext_equal]
pub struct EdgeStateModel {
    pub edge_id: Seq<char>,
    pub sequence_id: u64,
    pub edge_description: Option<Seq<char>>,
    pub released: bool,
    pub trajectory: Option<crate::common::TrajectoryModel>,
}

impl DeepView for EdgeState {
    type V = EdgeStateModel;

    open spec fn deep_view(&self) -> EdgeStateModel {
        EdgeStateModel {
            edge_id: self.edge_id@,
            sequence_id: self.sequence_id,
            edge_description: self.edge_description.deep_view(),
            released: self.released,
            trajectory: self.trajectory.deep_view(),
        }
    }
}

/// A load the vehicle currently carries.
#[derive(Debug, Clone)]
pub struct Load {
    /// Identification of the load, when the vehicle identified it.
    pub load_id: Option<String>,
    /// Type of the load.
    pub load_type: Option<String>,
    /// Which load handling unit carries the load.
    pub load_position: Option<String>,
    /// Position of the load on the vehicle.
    pub bounding_box_reference: Option<BoundingBoxReference>,
    /// Dimensions of the load's bounding box.
    pub load_dimensions: Option<LoadDimensions>,
    /// Weight of the load.
    pub weight: Option<Bits32>,
}

/// All battery-related information.
#[derive(Clone, Copy, Debug, PartialEq, Eq, Structural)]
pub struct BatteryState {
    /// State of charge of the battery.
    pub battery_charge: Bits32,
    /// Battery voltage.
    pub battery_voltage: Option<Bits32>,
    /// State of health in percent, within 0 to 100.
    pub battery_health: Option<u32>,
    /// True while charging is in progress.
    pub charging: bool,
    /// Estimated reach with the current charge.
    pub reach: Option<Bits32>,
}

/// Current operating mode of the vehicle.
#[derive(Clone, Copy, Debug, PartialEq, Eq, Structural)]
pub enum OperatingMode {
    /// Master control steers the vehicle.
    Automatic,
    /// Master control steers, movement needs operator confirmation.
    Semiautomatic,
    /// The operator steers the vehicle directly.
    Manual,
    /// The vehicle is under maintenance.
    Service,
    /// The vehicle is being taught its routes.
    Teachin,
}

/// Wire token of an operating mode.
pub open spec fn operating_mode_token(m: OperatingMode) -> Seq<char> {
    match m {
        OperatingMode::Automatic => "AUTOMATIC"@,
        OperatingMode::Semiautomatic => "SEMIAUTOMATIC"@,
        OperatingMode::Manual => "MANUAL"@,
        OperatingMode::Service => "SERVICE"@,
        OperatingMode::Teachin => "TEACHIN"@,
    }
}

impl OperatingMode {
    /// The token this mode carries on the wire.
    pub fn token(&self) -> (r: &'static str)
        ensures
            r@ == operating_mode_token(*self),
    {
        match self {
            OperatingMode::Automatic => "AUTOMATIC",
            OperatingMode::Semiautomatic => "SEMIAUTOMATIC",
            OperatingMode::Manual => "MANUAL",
            OperatingMode::Service => "SERVICE",
            OperatingMode::Teachin => "TEACHIN",
        }
    }

    /// Reads a wire token; a token outside the closed enumeration is an
    /// invalid enumeration value.
    pub fn from_token(s: &str) -> (r: Result<OperatingMode, ModelError>)
        ensures
            r == (if s@ == "AUTOMATIC"@ {
                Result::<OperatingMode, ModelError>::Ok(OperatingMode::Automatic)
            } else if s@ == "SEMIAUTOMATIC"@ {
                Result::<OperatingMode, ModelError>::Ok(OperatingMode::Semiautomatic)
            } else if s@ == "MANUAL"@ {
                Result::<OperatingMode, ModelError>::Ok(OperatingMode::Manual)
            } else if s@ == "SERVICE"@ {
                Result::<OperatingMode, ModelError>::Ok(OperatingMode::Service)
            } else if s@ == "TEACHIN"@ {
                Result::<OperatingMode, ModelError>::Ok(OperatingMode::Teachin)
            } else {
                Result::<OperatingMode, ModelError>::Err(ModelError::InvalidEnumValue)
            }),
    {
        if str_eq(s, "AUTOMATIC") {
            Result::Ok(OperatingMode::Automatic)
        } else if str_eq(s, "SEMIAUTOMATIC") {
            Result::Ok(OperatingMode::Semiautomatic)
        } else if str_eq(s, "MANUAL") {
            Result::Ok(OperatingMode::Manual)
        } else if str_eq(s, "SERVICE") {
            Result::Ok(OperatingMode::Service)
        } else if str_eq(s, "TEACHIN") {
            Result::Ok(OperatingMode::Teachin)
        } else {
            Result::Err(ModelError::InvalidEnumValue)
        }
    }
}

/// Weight of an error condition.
#[derive(Clone, Copy, Debug, PartialEq, Eq, Structural)]
pub enum ErrorLevel {
    /// The vehicle is ready to start, degraded but operating.
    Warning,
    /// The vehicle is not operational; user intervention is required.
    Fatal,
}

/// Wire token of an error level.
pub open spec fn error_level_token(l: ErrorLevel) -> Seq<char> {
    match l {
        ErrorLevel::Warning => "WARNING"@,
        ErrorLevel::Fatal => "FATAL"@,
    }
}

impl ErrorLevel {
    /// The token this level carries on the wire.
    pub fn token(&self) -> (r: &'static str)
        ensures
            r@ == error_level_token(*self),
    {
        match self {
            ErrorLevel::Warning => "WARNING",
            ErrorLevel::Fatal => "FATAL",
        }
    }

    /// Reads a wire token; a token outside the closed enumeration is an
    /// invalid enumeration value.
    pub fn from_token(s: &str) -> (r: Result<ErrorLevel, ModelError>)
        ensures
            r == (if s@ == "WARNING"@ {
                Result::<ErrorLevel, ModelError>::Ok(ErrorLevel::Warning)
            } else if s@ == "FATAL"@ {
                Result::<ErrorLevel, ModelError>::Ok(ErrorLevel::Fatal)
            } else {
                Result::<ErrorLevel, ModelError>::Err(ModelError::InvalidEnumValue)
            }),
    {
        if str_eq(s, "WARNING") {
            Result::Ok(ErrorLevel::Warning)
        } else if str_eq(s, "FATAL") {
            Result::Ok(ErrorLevel::Fatal)
        } else {
            Result::Err(ModelError::InvalidEnumValue)
        }
    }
}

/// One reference that helps locate the source of an error, as a
/// key/value pair.
#[derive(Debug, Clone)]
pub struct ErrorReference {
    /// Kind of the reference, for example an order or action
    /// identifier.
    pub reference_key: String,
    /// The value the key refers to.
    pub reference_value: String,
}

/// One active error of the vehicle.
#[derive(Debug, Clone)]
pub struct Error {
    /// Type or name of the error.
    pub error_type: String,
    /// References that identify the source of the error.
    pub error_references: Vec<ErrorReference>,
    /// Verbose description of the error.
    pub error_description: Option<String>,
    /// Weight of the error.
    pub error_level: ErrorLevel,
}

/// Level of an information entry.
#[derive(Clone, Copy, Debug, PartialEq, Eq, Structural)]
pub enum InfoLevel {
    /// Used for visualization.
    Info,
    /// Used for debugging.
    Debug,
}

/// Wire token of an information level.
pub open spec fn info_level_token(l: InfoLevel) -> Seq<char> {
    match l {
        InfoLevel::Info => "INFO"@,
        InfoLevel::Debug => "DEBUG"@,
    }
}

impl InfoLevel {
    /// The token this level carries on the wire.
    pub fn token(&self) -> (r: &'static str)
        ensures
            r@ == info_level_token(*self),
    {
        match self {
            InfoLevel::Info => "INFO",
            InfoLevel::Debug => "DEBUG",
        }
    }

    /// Reads a wire token; a token outside the closed enumeration is an
    /// invalid enumeration value.
    pub fn from_token(s: &str) -> (r: Result<InfoLevel, ModelError>)
        ensures
            r == (if s@ == "INFO"@ {
                Result::<InfoLevel, ModelError>::Ok(InfoLevel::Info)
            } else if s@ == "DEBUG"@ {
                Result::<InfoLevel, ModelError>::Ok(InfoLevel::Debug)
            } else {
                Result::<InfoLevel, ModelError>::Err(ModelError::InvalidEnumValue)
            }),
    {
        if str_eq(s, "INFO") {
            Result::Ok(InfoLevel::Info)
        } else if str_eq(s, "DEBUG") {
            Result::Ok(InfoLevel::Debug)
        } else {
            Result::Err(ModelError::InvalidEnumValue)
        }
    }
}

/// One reference attached to an information entry, as a key/value pair.
#[derive(Debug, Clone)]
pub struct InfoReference {
    /// Kind of the reference.
    pub reference_key: String,
    /// The value the key refers to.
    pub reference_value: String,
}

/// One information entry, for visualization or debugging only.
#[derive(Debug, Clone)]
pub struct Information {
    /// Type or name of the information.
    pub info_type: String,
    /// References attached to the information.
    pub info_references: Vec<InfoReference>,
    /// Verbose description.
    pub info_description: Option<String>,
    /// Level of the information.
    pub info_level: InfoLevel,
}

/// How an emergency stop, if any, has to be acknowledged.
#[derive(Clone, Copy, Debug, PartialEq, Eq, Structural)]
pub enum EStop {
    /// An auto-acknowledgeable emergency stop is active.
    Autoack,
    /// The emergency stop must be acknowledged at the vehicle.
    Manual,
    /// The facility emergency stop must be acknowledged remotely.
    Remote,
    /// No emergency stop is active.
    Inactive,
}

/// Wire token of an emergency-stop acknowledge type.
pub open spec fn e_stop_token(e: EStop) -> Seq<char> {
    match e {
        EStop::Autoack => "AUTOACK"@,
        EStop::Manual => "MANUAL"@,
        EStop::Remote => "REMOTE"@,
        EStop::Inactive => "NONE"@,
    }
}

impl EStop {
    /// The token this acknowledge type carries on the wire.
    pub fn token(&self) -> (r: &'static str)
        ensures
            r@ == e_stop_token(*self),
    {
        match self {
            EStop::Autoack => "AUTOACK",
            EStop::Manual => "MANUAL",
            EStop::Remote => "REMOTE",
            EStop::Inactive => "NONE",
        }
    }

    /// Reads a wire token; a token outside the closed enumeration is an
    /// invalid enumeration value.
    pub fn from_token(s: &str) -> (r: Result<EStop, ModelError>)
        ensures
            r == (if s@ == "AUTOACK"@ {
                Result::<EStop, ModelError>::Ok(EStop::Autoack)
            } else if s@ == "MANUAL"@ {
                Result::<EStop, ModelError>::Ok(EStop::Manual)
            } else if s@ == "REMOTE"@ {
                Result::<EStop, ModelError>::Ok(EStop::Remote)
            } else if s@ == "NONE"@ {
                Result::<EStop, ModelError>::Ok(EStop::Inactive)
            } else {
                Result::<EStop, ModelError>::Err(ModelError::InvalidEnumValue)
            }),
    {
        if str_eq(s, "AUTOACK") {
            Result::Ok(EStop::Autoack)
        } else if str_eq(s, "MANUAL") {
            Result::Ok(EStop::Manual)
        } else if str_eq(s, "REMOTE") {
            Result::Ok(EStop::Remote)
        } else if str_eq(s, "NONE") {
            Result::Ok(EStop::Inactive)
        } else {
            Result::Err(ModelError::InvalidEnumValue)
        }
    }
}

/// The safety condition of the vehicle.
#[derive(Clone, Copy, Debug, PartialEq, Eq, Structural)]
pub struct SafetyState {
    /// Acknowledge type of the emergency stop.
    pub e_stop: EStop,
    /// True while a protective field is violated.
    pub field_violation: bool,
}

/// The full state report of the vehicle: the envelope, the mirrored
/// remaining graph, the cumulative action log, and the battery, error
/// and safety conditions.
#[derive(Debug, Clone)]
pub struct State {
    /// Per-topic message counter of the envelope.
    pub header_id: HeaderId,
    /// Instant at which the message was created.
    pub timestamp: Timestamp,
    /// Protocol version of the message.
    pub version: String,
    /// Manufacturer of the vehicle.
    pub manufacturer: String,
    /// Serial number of the vehicle.
    pub serial_number: String,
    /// Order the report is about; empty when no order was received yet.
    pub order_id: String,
    /// Revision of the order the vehicle has accepted; zero when none.
    pub order_update_id: u64,
    /// Zone set the vehicle currently uses for planning.
    pub zone_set_id: Option<String>,
    /// Last reached node; empty when no node was reached yet.
    pub last_node_id: String,
    /// Sequencing key of the last reached node; zero when none.
    pub last_node_sequence_id: u64,
    /// True while the vehicle drives or rotates.
    pub driving: bool,
    /// True while the vehicle is paused.
    pub paused: Option<bool>,
    /// True when the vehicle nears the end of the base and asks for a
    /// new one.
    pub new_base_request: Option<bool>,
    /// Distance driven past the last node, for line-guided vehicles.
    pub distance_since_last_node: Option<Bits32>,
    /// Current operating mode.
    pub operating_mode: OperatingMode,
    /// Nodes the vehicle still has to drive over.
    pub node_states: Vec<NodeState>,
    /// Edges the vehicle still has to drive over.
    pub edge_states: Vec<EdgeState>,
    /// Current position, when the vehicle can localize itself.
    pub agv_position: Option<AgvPosition>,
    /// Current velocity in vehicle coordinates.
    pub velocity: Option<Velocity>,
    /// Loads the vehicle currently carries, when known.
    pub loads: Vec<Load>,
    /// Cumulative status of every action of the current order and of
    /// the instant actions, kept until a new order begins.
    pub action_states: Vec<ActionState>,
    /// Battery condition.
    pub battery_state: BatteryState,
    /// Active errors of the vehicle.
    pub errors: Vec<Error>,
    /// Information entries, for visualization or debugging only.
    pub information: Vec<Information>,
    /// Safety condition.
    pub safety_state: SafetyState,
}

} // verus!
