//! Core simulation of a 2D arcade shooter: entity motion with fixed-step
//! integration, axis-aligned collision resolution, wave-based enemy spawning,
//! weapon fire patterns, power-up dispatch, the menu/play/pause state machine,
//! and the save-record text format.
//!
//! All world geometry is fixed-point: positions in coordinate units of
//! 1/3000 pixel, velocities in milli-units. One simulation tick advances a
//! mover by `velocity * STEP_FACTOR` units, which is exactly
//! `velocity * (1/60) s * 500 px/s`.

pub mod background;
pub mod collision;
pub mod components;
pub mod enemy;
pub mod explosion;
pub mod movement;
pub mod player;
pub mod powerups;
pub mod rng;
pub mod save;
pub mod schedule;
pub mod state;
pub mod ui;
pub mod weapons;
pub mod world;
