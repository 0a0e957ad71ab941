//! Short-lived blasts where enemies were destroyed.
use vstd::prelude::*;

use crate::entity::{pixel_of, to_pixel, Entity, MAX_PIXEL, MAX_STEP, UNIT, WORLD};

verus! {

/// How long an explosion lasts, in micro-units of game time.
pub const EXPLOSION_TIME: i64 = 5 * UNIT;

#[derive(Clone, Copy, Debug, PartialEq, Eq)]
pub struct Explosion {
    pub time_remaining: i64,
    pub position_x: i64,
    pub position_y: i64,
}

impl Explosion {
    /// Its fields lie in the ranges that keep it free of overflow.
    pub open spec fn wf(&self) -> bool {
        -WORLD <= self.time_remaining <= WORLD
    }

    /// An explosion at pixel `(position_x, position_y)` with its whole lifetime
    /// ahead.
    pub fn new(position_x: i64, position_y: i64) -> (r: Explosion)
        requires
            -MAX_PIXEL <= position_x <= MAX_PIXEL,
            -MAX_PIXEL <= position_y <= MAX_PIXEL,
        ensures
            r == (Explosion {
                time_remaining: EXPLOSION_TIME,
                position_x: (position_x * UNIT) as i64,
                position_y: (position_y * UNIT) as i64,
            }),
    {
        Explosion {
            time_remaining: EXPLOSION_TIME,
            position_x: position_x * UNIT,
            position_y: position_y * UNIT,
        }
    }

    pub fn alive(&self) -> (r: bool)
        ensures
            r == (self.time_remaining > 0),
    {
        self.time_remaining > 0
    }

    /// Counts the lifetime down by `dt` units of game time.
    pub fn on_update(&mut self, dt: i64)
        requires
            old(self).wf(),
            0 <= dt <= MAX_STEP,
        ensures
            *final(self) == (Explosion {
                time_remaining: (old(self).time_remaining - dt) as i64,
                ..*old(self)
            }),
    {
        self.time_remaining = self.time_remaining - dt;
    }
}

impl Entity for Explosion {
    open spec fn spec_x(&self) -> int {
        to_pixel(self.position_x as int)
    }

    open spec fn spec_y(&self) -> int {
        to_pixel(self.position_y as int)
    }

    open spec fn spec_radius(&self) -> int {
        0
    }

    fn x(&self) -> (r: i64) {
        pixel_of(self.position_x)
    }

    fn y(&self) -> (r: i64) {
        pixel_of(self.position_y)
    }

    fn collider_radius(&self) -> (r: i64) {
        0
    }
}

} // verus!
