//! Reconstructs print documents from a fiscal printer driver's diagnostic log
//! and computes aggregate timing statistics over them.

pub mod assemble;
pub mod classify;
pub mod models;
pub mod stats;
pub mod time;
