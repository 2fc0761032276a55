//! Orchestration core of a small 2D scene: three bodies kept in a `specs`
//! world, keyboard steering of the player body, the per-tick movement step
//! and the order of the frame pipeline.
//!
//! Every quantity is a whole number. A front end that draws and that drives
//! a physics engine converts at its own edge.

pub mod components;
pub mod entities;
pub mod scheduler;
pub mod state;
pub mod store;
pub mod systems;
