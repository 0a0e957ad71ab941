//! Shots: pure ballistic motion along a fixed direction.
use vstd::prelude::*;

use crate::entity::{
    div_toward_zero, in_world, pixel_of, to_pixel, trunc_div, Entity, DIRECTION_ONE, MAX_PIXEL,
    MAX_SPEED, MAX_STEP, MAX_COORD, UNIT,
};

verus! {

/// Colour tag of enemy shots.
pub const SHOT_RED: u8 = 0;

/// Colour tag of the player's shots.
pub const SHOT_YELLOW: u8 = 1;

/// A shot travelling in a straight line. Its direction is a vector whose
/// components are in thousandths; its position is fixed-point.
#[derive(Clone, Copy, Debug, PartialEq, Eq)]
pub struct Projectile {
    pub speed: i64,
    pub dir_x: i64,
    pub dir_y: i64,
    pub position_x: i64,
    pub position_y: i64,
    pub color: u8,
}

impl Projectile {
    /// Its fields lie in the ranges that keep its motion free of overflow.
    pub open spec fn wf(&self) -> bool {
        &&& 0 <= self.speed <= MAX_SPEED
        &&& -DIRECTION_ONE <= self.dir_x <= DIRECTION_ONE
        &&& -DIRECTION_ONE <= self.dir_y <= DIRECTION_ONE
        &&& in_world(self.position_x as int)
        &&& in_world(self.position_y as int)
    }

    /// Distance moved along one axis in `dt` units of game time.
    pub open spec fn travel(&self, dir: int, dt: int) -> int {
        trunc_div(dir * self.speed * dt, DIRECTION_ONE as int)
    }

    /// The shot after `dt` units of game time.
    pub open spec fn moved(&self, dt: int) -> Projectile {
        Projectile {
            position_x: (self.position_x + self.travel(self.dir_x as int, dt)) as i64,
            position_y: (self.position_y + self.travel(self.dir_y as int, dt)) as i64,
            ..*self
        }
    }

    /// A shot at pixel `(position_x, position_y)` moving along `(dir_x,
    /// dir_y)` (thousandths) at `speed` pixels per unit of game time.
    pub fn new(speed: i64, dir_x: i64, dir_y: i64, position_x: i64, position_y: i64, color: u8) -> (r: Projectile)
        requires
            0 <= speed <= MAX_SPEED,
            -DIRECTION_ONE <= dir_x <= DIRECTION_ONE,
            -DIRECTION_ONE <= dir_y <= DIRECTION_ONE,
            -MAX_PIXEL <= position_x <= MAX_PIXEL,
            -MAX_PIXEL <= position_y <= MAX_PIXEL,
        ensures
            r.wf(),
            r == (Projectile {
                speed,
                dir_x,
                dir_y,
                position_x: (position_x * UNIT) as i64,
                position_y: (position_y * UNIT) as i64,
                color,
            }),
    {
        Projectile {
            speed,
            dir_x,
            dir_y,
            position_x: position_x * UNIT,
            position_y: position_y * UNIT,
            color,
        }
    }

    fn step(&self, dir: i64, dt: i64) -> (r: i64)
        requires
            self.wf(),
            -DIRECTION_ONE <= dir <= DIRECTION_ONE,
            0 <= dt <= MAX_STEP,
        ensures
            r == self.travel(dir as int, dt as int),
            -MAX_SPEED * MAX_STEP <= r <= MAX_SPEED * MAX_STEP,
    {
        assert(-100_000 <= dir * self.speed <= 100_000) by (nonlinear_arith)
            requires
                -1000 <= dir <= 1000,
                0 <= self.speed <= 100,
        ;
        assert(-1_000_000_000_000_000 <= dir * self.speed * dt <= 1_000_000_000_000_000) by (nonlinear_arith)
            requires
                -1000 <= dir <= 1000,
                0 <= self.speed <= 100,
                0 <= dt <= 10_000_000_000,
        ;
        div_toward_zero(dir * self.speed * dt, DIRECTION_ONE)
    }

    /// Advances the shot by `dt` units of game time.
    pub fn on_update(&mut self, dt: i64)
        requires
            old(self).wf(),
            0 <= dt <= MAX_STEP,
        ensures
            *final(self) == old(self).moved(dt as int),
    {
        let sx = self.step(self.dir_x, dt);
        let sy = self.step(self.dir_y, dt);
        self.position_x = self.position_x + sx;
        self.position_y = self.position_y + sy;
    }
}

impl Entity for Projectile {
    open spec fn spec_x(&self) -> int {
        to_pixel(self.position_x as int)
    }

    open spec fn spec_y(&self) -> int {
        to_pixel(self.position_y as int)
    }

    open spec fn spec_radius(&self) -> int {
        2
    }

    fn x(&self) -> (r: i64) {
        pixel_of(self.position_x)
    }

    fn y(&self) -> (r: i64) {
        pixel_of(self.position_y)
    }

    fn collider_radius(&self) -> (r: i64) {
        2
    }
}

} // verus!
