//! Core of a 2D battle simulation: armies of autonomous units walk across a
//! destructible raster terrain, exchange melee and ranged attacks, and fire
//! ballistic projectiles that crater the terrain on impact.
//!
//! All world quantities (positions, velocities, durations, health) are held
//! in signed fixed-point units: one world unit is `fixed::FX_ONE` ticks.

#![verifier::loop_isolation(false)]

use vstd::prelude::*;

pub mod ai;
pub mod fixed;
pub mod frame;
pub mod geom;
pub mod physics;
pub mod store;
pub mod terrain;
pub mod unit;

verus! {

pub use crate::fixed::FX_ONE;

} // verus!
