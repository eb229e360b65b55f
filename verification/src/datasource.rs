//! Load sensing and frequency reporting from kernel files.

pub mod load_monitor;
pub mod node;
