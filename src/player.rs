//! The player's ship.
use vstd::prelude::*;

use crate::entity::{in_world, pixel_of, to_pixel, Entity, MAX_SPEED, MAX_STEP, UNIT, WORLD};
use crate::game::{WALK_AREA_MAX_X, WALK_AREA_MAX_Y};

verus! {

/// Game time between two volleys of the player, in micro-units.
pub const PLAYER_SHOOT_INTERVAL: i64 = UNIT;

/// Health of a new player.
pub const PLAYER_HEALTH: u8 = 3;

/// Height at which a new player starts, as a fixed-point position.
pub const PLAYER_START_Y: i64 = 25 * UNIT;

/// Speed of the player, in pixels per unit of game time.
pub const PLAYER_SPEED: i64 = 10;

/// The four movement keys as they stand this frame.
#[derive(Clone, Copy, Debug, PartialEq, Eq)]
pub struct Controls {
    pub up: bool,
    pub down: bool,
    pub left: bool,
    pub right: bool,
}

/// `v` held within `lo..=hi`.
pub open spec fn clamp(v: int, lo: int, hi: int) -> int {
    if v > hi {
        hi
    } else if v < lo {
        lo
    } else {
        v
    }
}

/// One axis of motion: the positive key wins over the negative one.
pub open spec fn axis_after(pos: int, positive: bool, negative: bool, d: int) -> int {
    if positive {
        pos + d
    } else if negative {
        pos - d
    } else {
        pos
    }
}

#[derive(Clone, Copy, Debug, PartialEq, Eq)]
pub struct Player {
    pub health: u8,
    pub speed: i64,
    pub position_x: i64,
    pub position_y: i64,
    pub shoot_timer: i64,
}

impl Player {
    /// Its fields lie in the ranges that keep its motion free of overflow.
    pub open spec fn wf(&self) -> bool {
        &&& 0 <= self.speed <= MAX_SPEED
        &&& in_world(self.position_x as int)
        &&& in_world(self.position_y as int)
        &&& -WORLD <= self.shoot_timer <= WORLD
    }

    /// The player after `dt` units of game time with the keys `keys` held.
    pub open spec fn moved(&self, keys: Controls, dt: int) -> Player {
        let d = self.speed * dt;
        Player {
            shoot_timer: (self.shoot_timer - dt) as i64,
            position_x: clamp(
                axis_after(self.position_x as int, keys.right, keys.left, d),
                -WALK_AREA_MAX_X,
                WALK_AREA_MAX_X as int,
            ) as i64,
            position_y: clamp(
                axis_after(self.position_y as int, keys.up, keys.down, d),
                0,
                WALK_AREA_MAX_Y as int,
            ) as i64,
            ..*self
        }
    }

    /// A player at full health, near the bottom of the arena, ready to fire
    /// after one interval.
    pub open spec fn new_spec() -> Player {
        Player {
            health: PLAYER_HEALTH,
            speed: PLAYER_SPEED,
            position_x: 0,
            position_y: PLAYER_START_Y,
            shoot_timer: PLAYER_SHOOT_INTERVAL,
        }
    }

    /// A player at full health, near the bottom of the arena, ready to fire
    /// after one interval.
    pub fn new() -> (r: Player)
        ensures
            r.wf(),
            r == Player::new_spec(),
    {
        Player {
            health: PLAYER_HEALTH,
            speed: PLAYER_SPEED,
            position_x: 0,
            position_y: PLAYER_START_Y,
            shoot_timer: PLAYER_SHOOT_INTERVAL,
        }
    }

    /// Takes one point of health, never going below zero.
    pub fn damage(&mut self)
        ensures
            *final(self) == (Player {
                health: if old(self).health >= 1 { (old(self).health - 1) as u8 } else { 0 },
                ..*old(self)
            }),
    {
        if self.health >= 1 {
            self.health = self.health - 1;
        }
    }

    pub fn health(&self) -> (r: u8)
        ensures
            r == self.health,
    {
        self.health
    }

    pub fn alive(&self) -> (r: bool)
        ensures
            r == (self.health > 0),
    {
        self.health > 0
    }

    pub fn can_shoot(&self) -> (r: bool)
        ensures
            r == (self.shoot_timer < 0),
    {
        self.shoot_timer < 0
    }

    pub fn reset_shoot_interval(&mut self)
        ensures
            *final(self) == (Player { shoot_timer: PLAYER_SHOOT_INTERVAL, ..*old(self) }),
    {
        self.shoot_timer = PLAYER_SHOOT_INTERVAL;
    }

    /// Counts the shot timer down and moves within the walk area: right wins
    /// over left and up over down.
    pub fn on_update(&mut self, keys: Controls, dt: i64)
        requires
            old(self).wf(),
            0 <= dt <= MAX_STEP,
        ensures
            *final(self) == old(self).moved(keys, dt as int),
    {
        self.shoot_timer = self.shoot_timer - dt;
        assert(0 <= self.speed * dt <= MAX_SPEED * MAX_STEP) by (nonlinear_arith)
            requires
                0 <= self.speed <= MAX_SPEED,
                0 <= dt <= MAX_STEP,
        ;
        let d = self.speed * dt;
        if keys.right {
            self.position_x = self.position_x + d;
        } else if keys.left {
            self.position_x = self.position_x - d;
        }
        if self.position_x > WALK_AREA_MAX_X {
            self.position_x = WALK_AREA_MAX_X;
        } else if self.position_x < -WALK_AREA_MAX_X {
            self.position_x = -WALK_AREA_MAX_X;
        }
        if keys.up {
            self.position_y = self.position_y + d;
        } else if keys.down {
            self.position_y = self.position_y - d;
        }
        if self.position_y < 0 {
            self.position_y = 0;
        } else if self.position_y > WALK_AREA_MAX_Y {
            self.position_y = WALK_AREA_MAX_Y;
        }
    }
}

impl Entity for Player {
    open spec fn spec_x(&self) -> int {
        to_pixel(self.position_x as int)
    }

    open spec fn spec_y(&self) -> int {
        to_pixel(self.position_y as int)
    }

    open spec fn spec_radius(&self) -> int {
        3
    }

    fn x(&self) -> (r: i64) {
        pixel_of(self.position_x)
    }

    fn y(&self) -> (r: i64) {
        pixel_of(self.position_y)
    }

    fn collider_radius(&self) -> (r: i64) {
        3
    }
}

impl Player {
    /// The player after `n` frames of `dt` units of game time each, with the
    /// same keys held throughout.
    pub open spec fn moved_frames(&self, keys: Controls, dt: int, n: nat) -> Player
        decreases n,
    {
        if n == 0 {
            *self
        } else {
            self.moved_frames(keys, dt, (n - 1) as nat).moved(keys, dt)
        }
    }
}

/// After `n` frames of `dt` units of game time, the player's shot timer reads
/// its first value less `n * dt`; the player may fire exactly when that is
/// below zero, and once the interval is reset not again until it runs out
/// anew.
pub proof fn lemma_player_timer(p: Player, keys: Controls, dt: int, n: nat)
    requires
        0 <= dt,
        i64::MIN <= p.shoot_timer - n * dt,
    ensures
        p.moved_frames(keys, dt, n).shoot_timer == p.shoot_timer - n * dt,
        (p.moved_frames(keys, dt, n).shoot_timer < 0) == (p.shoot_timer < n * dt),
        !((Player { shoot_timer: PLAYER_SHOOT_INTERVAL, ..p.moved_frames(keys, dt, n) }).shoot_timer < 0),
    decreases n,
{
    if n > 0 {
        assert((n - 1) * dt <= n * dt && n * dt == (n - 1) * dt + dt) by (nonlinear_arith)
            requires
                n >= 1,
                dt >= 0,
        ;
        lemma_player_timer(p, keys, dt, (n - 1) as nat);
        let q = p.moved_frames(keys, dt, (n - 1) as nat);
        assert(q.shoot_timer - dt == p.shoot_timer - n * dt);
        assert(p.moved_frames(keys, dt, n) == q.moved(keys, dt));
        assert(q.moved(keys, dt).shoot_timer == (q.shoot_timer - dt) as i64);
    } else {
        assert(n * dt == 0) by (nonlinear_arith)
            requires
                n == 0,
        ;
    }
}

} // verus!
