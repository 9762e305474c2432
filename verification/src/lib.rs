//! Data model for communication between a master control system and
//! automated guided vehicles (AGVs): orders, state reports, instant
//! actions, connection lifecycle and capability descriptions, together
//! with the structural rules that keep an order graph and its mirrored
//! progress reports internally consistent.
//!
//! The heart of the crate is the tolerant scalar codec for action
//! parameter values, the order graph validation rules, and the
//! progress-tracking rules for state reports.

pub mod action;
pub mod order;
pub mod progress;
pub mod state;
pub mod visualization;
pub mod common;
pub mod connection;
pub mod factsheet;
pub mod instant_actions;
pub mod value;
