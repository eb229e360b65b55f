//! Helpers shared by the sensing and actuation code.

pub mod log_level_manager;
pub mod text;
