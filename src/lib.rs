//! A bridge between a smart meter's serial telegrams and a message bus.
//!
//! The library holds the decisions of the bridge: how the configuration is
//! resolved, how a decoded telegram becomes outbound messages, how one
//! pipeline run reacts to what the serial source and the bus report, and how
//! the supervisor recovers from a failed run.

pub mod bus;
pub mod config;
pub mod model;
pub mod runner;
pub mod supervisor;
