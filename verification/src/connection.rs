//! The connection lifecycle message: reported by the vehicle when it
//! comes online or goes offline in an orderly fashion, and delivered by
//! the broker as a last-will message when the connection breaks.

use vstd::prelude::*;

use crate::common::HeaderId;
use crate::common::Timestamp;
use crate::common::str_eq;
use crate::value::ModelError;

verus! {

/// The state of the connection between the vehicle and the broker.
#[derive(Clone, Copy, Debug, PartialEq, Eq, Structural)]
pub enum ConnectionState {
    /// The connection is active.
    Online,
    /// The connection ended in a coordinated way.
    Offline,
    /// The connection ended unexpectedly.
    ConnectionBroken,
}

/// Wire token of a connection state.
pub open spec fn connection_state_token(c: ConnectionState) -> Seq<char> {
    match c {
        ConnectionState::Online => "ONLINE"@,
        ConnectionState::Offline => "OFFLINE"@,
        ConnectionState::ConnectionBroken => "CONNECTIONBROKEN"@,
    }
}

impl ConnectionState {
    /// The token this state carries on the wire.
    pub fn token(&self) -> (r: &'static str)
        ensures
            r@ == connection_state_token(*self),
    {
        match self {
            ConnectionState::Online => "ONLINE",
            ConnectionState::Offline => "OFFLINE",
            ConnectionState::ConnectionBroken => "CONNECTIONBROKEN",
        }
    }

    /// Reads a wire token; a token outside the closed enumeration is an
    /// invalid enumeration value.
    pub fn from_token(s: &str) -> (r: Result<ConnectionState, ModelError>)
        ensures
            r == (if s@ == "ONLINE"@ {
                Result::<ConnectionState, ModelError>::Ok(ConnectionState::Online)
            } else if s@ == "OFFLINE"@ {
                Result::<ConnectionState, ModelError>::Ok(ConnectionState::Offline)
            } else if s@ == "CONNECTIONBROKEN"@ {
                Result::<ConnectionState, ModelError>::Ok(ConnectionState::ConnectionBroken)
            } else {
                Result::<ConnectionState, ModelError>::Err(ModelError::InvalidEnumValue)
            }),
    {
        if str_eq(s, "ONLINE") {
            Result::Ok(ConnectionState::Online)
        } else if str_eq(s, "OFFLINE") {
            Result::Ok(ConnectionState::Offline)
        } else if str_eq(s, "CONNECTIONBROKEN") {
            Result::Ok(ConnectionState::ConnectionBroken)
        } else {
            Result::Err(ModelError::InvalidEnumValue)
        }
    }
}

/// The connection lifecycle message.
#[derive(Debug, Clone)]
pub struct Connection {
    /// Per-topic message counter of the envelope.
    pub header_id: HeaderId,
    /// Instant at which the message was created.
    pub timestamp: Timestamp,
    /// Protocol version of the message.
    pub version: String,
    /// Manufacturer of the vehicle.
    pub manufacturer: String,
    /// Serial number of the vehicle.
    pub serial_number: String,
    /// State of the connection.
    pub connection_state: ConnectionState,
}

} // verus!
