//! Per-frame simulation core of a small arcade shoot-'em-up.
//!
//! All motion uses fixed-point integers: positions are held in micro-pixels
//! and game time in micro-units (one unit of game time is `UNIT`), so every
//! update is exact and proved free of overflow.
use vstd::prelude::*;

pub mod entity;
pub mod projectile;
pub mod player;
pub mod game;
pub mod enemy;
pub mod explosion;
pub mod cloud;
pub mod game_over;
mod random;
pub mod removal;

verus! {

/// Width of the window, in pixels.
pub const WINDOW_WIDTH: u32 = 256;

/// Height of the window, in pixels.
pub const WINDOW_HEIGHT: u32 = 256;

/// Whether the window opens full screen.
pub const FULLSCREEN: bool = false;

} // verus!
