//! Decision core of a user-space GPU frequency governor.
//!
//! The crate holds the parts of the governor that compute: the frequency
//! table and its lookups, the load sensing chain with its parsers, the
//! sequencing of control-file writes for both driver generations, and the
//! hysteresis rule that moves the operating point. Reading and writing the
//! kernel files is left to the caller, which feeds bytes in and carries the
//! requested writes out.

pub mod datasource;
pub mod model;
pub mod utils;
