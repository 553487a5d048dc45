//! Telemetry-and-analysis core of a local machine-health agent: trust
//! scoring, snapshot shaping, analysis of resource pressure and the
//! append-only event history.

pub mod text;
pub mod trust;
pub mod process;
pub mod order;
pub mod store;
pub mod startup;
pub mod services;
pub mod state;
pub mod analyzer;
pub mod json;
