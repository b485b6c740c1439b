//! A deterministic 2D physics core: fixed-timestep integration, axis-aligned
//! collision detection and penetration resolution over a sparse entity store.
//!
//! Every quantity is a saturating fixed-point number ([`fixed::Fixed`]), so a
//! run gives the same result on every machine. One step of the simulation
//! ([`simulation::step`]) predicts where every body would be, finds the
//! contacts among the predicted states, resolves them in order and only then
//! stores the result in the [`world::World`]. The [`engine::Engine`] feeds
//! elapsed time into whole steps and takes the commands of scripts between
//! them.
//!
//! Each executable function carries a contract over the views of the types
//! it touches; the public proof functions state what follows from those
//! contracts for every input.

pub mod area;
pub mod bindings;
pub mod body;
pub mod camera;
pub mod collision;
pub mod commands;
pub mod engine;
pub mod pacing;
pub mod fixed;
pub mod shape;
pub mod simulation;
pub mod spawn;
pub mod text;
pub mod transform;
pub mod vector;
pub mod world;
