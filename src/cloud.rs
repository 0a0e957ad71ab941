//! Decorative clouds that scroll past and wrap around the arena.
use vstd::prelude::*;

use crate::entity::{in_world, pixel_of, to_pixel, Entity, MAX_SPEED, MAX_STEP, UNIT};
use crate::game::WALK_AREA_MAX_Y;

verus! {

/// Largest horizontal offset of a pillow from its cloud's centre, in pixels.
pub const MAX_OFFSET_X: i64 = 30;

/// Largest vertical offset of a pillow from its cloud's centre, in pixels.
pub const MAX_OFFSET_Y: i64 = 10;

/// Radius of a pillow, in pixels.
pub const PILLOW_SIZE: u32 = 10;

/// How far, as a fixed-point distance, a cloud reaches beyond its centre
/// vertically.
pub const CLOUD_REACH: i64 = (MAX_OFFSET_Y + PILLOW_SIZE as i64) * UNIT;

/// One puff of a cloud, at a pixel offset from the cloud's centre.
#[derive(Clone, Copy, Debug, PartialEq, Eq)]
pub struct CloudPillow {
    pub position_x: i64,
    pub position_y: i64,
}

impl CloudPillow {
    /// A puff at pixel offset `(position_x, position_y)`.
    pub fn new(position_x: i64, position_y: i64) -> (r: CloudPillow)
        requires
            -MAX_OFFSET_X <= position_x <= MAX_OFFSET_X,
            -MAX_OFFSET_Y <= position_y <= MAX_OFFSET_Y,
        ensures
            r == (CloudPillow { position_x, position_y }),
    {
        CloudPillow { position_x, position_y }
    }
}

#[derive(Clone, Debug)]
pub struct Cloud {
    pub position_x: i64,
    pub position_y: i64,
    pub speed: i64,
    pub cloud_pillows: Vec<CloudPillow>,
}

/// The height of a cloud after `dt` units of game time: it scrolls up the
/// screen (toward smaller heights) and, once wholly past the top, wraps to
/// just below the bottom.
pub open spec fn cloud_y_after(y: int, speed: int, dt: int) -> int {
    let moved = y - speed * dt;
    if moved + CLOUD_REACH < 0 {
        WALK_AREA_MAX_Y + CLOUD_REACH
    } else {
        moved
    }
}

impl Cloud {
    /// Its fields lie in the ranges that keep its motion free of overflow.
    pub open spec fn wf(&self) -> bool {
        &&& 0 <= self.speed <= MAX_SPEED
        &&& in_world(self.position_x as int)
        &&& in_world(self.position_y as int)
    }

    /// A cloud centred at pixel `(position_x, position_y)`, within the arena
    /// or just above or below it, scrolling at `speed` pixels per unit of game
    /// time.
    pub fn new(position_x: i64, position_y: i64, speed: i64, cloud_pillows: Vec<CloudPillow>) -> (r: Cloud)
        requires
            -128 <= position_x <= 128,
            -(MAX_OFFSET_Y + PILLOW_SIZE as i64) <= position_y <= 256 + MAX_OFFSET_Y + PILLOW_SIZE as i64,
            2 <= speed <= 5,
        ensures
            r.wf(),
            r.position_x == position_x * UNIT,
            r.position_y == position_y * UNIT,
            r.speed == speed,
            r.cloud_pillows@ == cloud_pillows@,
    {
        Cloud { position_x: position_x * UNIT, position_y: position_y * UNIT, speed, cloud_pillows }
    }

    /// Scrolls the cloud by `dt` units of game time, wrapping at the top.
    pub fn on_update(&mut self, dt: i64)
        requires
            old(self).wf(),
            0 <= dt <= MAX_STEP,
        ensures
            final(self).position_y == cloud_y_after(
                old(self).position_y as int,
                old(self).speed as int,
                dt as int,
            ),
            final(self).position_x == old(self).position_x,
            final(self).speed == old(self).speed,
            final(self).cloud_pillows@ == old(self).cloud_pillows@,
    {
        assert(0 <= self.speed * dt <= MAX_SPEED * MAX_STEP) by (nonlinear_arith)
            requires
                0 <= self.speed <= MAX_SPEED,
                0 <= dt <= MAX_STEP,
        ;
        let moved = self.position_y - self.speed * dt;
        if moved + CLOUD_REACH < 0 {
            self.position_y = WALK_AREA_MAX_Y + CLOUD_REACH;
        } else {
            self.position_y = moved;
        }
    }
}

impl Entity for Cloud {
    open spec fn spec_x(&self) -> int {
        to_pixel(self.position_x as int)
    }

    open spec fn spec_y(&self) -> int {
        to_pixel(self.position_y as int)
    }

    open spec fn spec_radius(&self) -> int {
        0
    }

    fn x(&self) -> (r: i64) {
        pixel_of(self.position_x)
    }

    fn y(&self) -> (r: i64) {
        pixel_of(self.position_y)
    }

    fn collider_radius(&self) -> (r: i64) {
        0
    }
}

} // verus!
