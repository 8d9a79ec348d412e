//! A touchpad gesture engine: a tracker that turns raw gesture events into a
//! stable current gesture, and a matcher that decides which configured
//! triggers fire on each update.
//!
//! All continuous quantities are fixed-point integers: displacements are in
//! thousandths of a device unit, angles in thousandths of a degree and scale
//! ratios in thousandths (`SCALE_ONE` is a ratio of one).

pub mod common;
pub mod gesture;
pub mod trigger;
pub mod matcher;
pub mod config;
pub mod action;
pub mod laws;
pub mod debug;
