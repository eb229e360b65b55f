//! Frequency table, operating point, actuation and the governor's rule.

pub mod actuation;
pub mod frequency_manager;
pub mod frequency_strategy;
pub mod gpu;
