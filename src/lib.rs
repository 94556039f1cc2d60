//! A minimal single-core runtime: an interrupt-safe tick counter guarded by a
//! critical-section discipline, and a round-robin cooperative scheduler over a
//! fixed-capacity task registry.

pub mod critical;
pub mod hal;
pub mod schedule;
pub mod ticks;
