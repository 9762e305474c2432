//! The instant-action message: actions that bypass the order graph and
//! are executed as soon as they arrive.  Each one is reflected later by
//! an action-state record with the same identifier.

use vstd::prelude::*;

use crate::action::Action;
use crate::common::HeaderId;
use crate::common::Timestamp;

verus! {

/// Actions the vehicle is to execute immediately on arrival.
#[derive(Debug, Clone)]
pub struct InstantActions {
    /// Per-topic message counter of the envelope.
    pub header_id: HeaderId,
    /// Instant at which the message was created.
    pub timestamp: Timestamp,
    /// Protocol version of the message.
    pub version: String,
    /// Manufacturer of the vehicle.
    pub manufacturer: String,
    /// Serial number of the vehicle.
    pub serial_number: String,
    /// Actions to perform immediately, outside the order graph.
    pub instant_actions: Vec<Action>,
}

} // verus!
