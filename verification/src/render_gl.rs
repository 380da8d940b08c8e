//! Error types of the rendering layer that drives the simulator.

pub mod loader;
pub mod uniform;
pub mod viewport;
