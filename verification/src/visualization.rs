//! The visualization message: a passive echo of position and velocity
//! that may be published at a higher rate than the state report.  All
//! payload fields are optional to keep the message cheap.

use vstd::prelude::*;

use crate::common::AgvPosition;
use crate::common::HeaderId;
use crate::common::Timestamp;
use crate::common::Velocity;

verus! {

/// Position and velocity of the vehicle, for visualization only.
#[derive(Debug, Clone)]
pub struct Visualization {
    /// Per-topic message counter of the envelope.
    pub header_id: HeaderId,
    /// Instant at which the message was created.
    pub timestamp: Timestamp,
    /// Protocol version of the message.
    pub version: String,
    /// Manufacturer of the vehicle.
    pub manufacturer: String,
    /// Serial number of the vehicle.
    pub serial_number: String,
    /// Current position of the vehicle, when it can localize itself.
    pub agv_position: Option<AgvPosition>,
    /// Current velocity in vehicle coordinates.
    pub velocity: Option<Velocity>,
}

} // verus!
