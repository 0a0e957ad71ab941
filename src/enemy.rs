//! Enemy ships: fly toward the player, drifting sideways, and fire on a timer.
use vstd::prelude::*;

use crate::entity::{
    count_down, div_toward_zero, in_world, pixel_of, timer_after, to_pixel, trunc_div, Entity,
    MAX_SPEED, MAX_STEP, UNIT,
};
use crate::game::WALK_AREA_MAX_X;
use crate::random::random_in_range;

verus! {

/// Game time between two shots of an enemy, in micro-units.
pub const ENEMY_SHOOT_INTERVAL: i64 = 10 * UNIT;

/// Health of a new enemy.
pub const ENEMY_HEALTH: u8 = 5;

/// Height at which enemies appear, above the visible area, as a fixed-point
/// position.
pub const ENEMY_SPAWN_Y: i64 = 306 * UNIT;

/// Sideways drift, fixed when the enemy appears.
#[derive(Clone, Copy, Debug, PartialEq, Eq)]
pub enum Behaviour {
    FlyL2R,
    FlyR2L,
}

#[derive(Clone, Copy, Debug, PartialEq, Eq)]
pub struct Enemy {
    pub health: u8,
    pub speed: i64,
    pub position_x: i64,
    pub position_y: i64,
    pub behaviour: Behaviour,
    pub shoot_timer: i64,
}

impl Enemy {
    /// Its fields lie in the ranges that keep its motion free of overflow.
    pub open spec fn wf(&self) -> bool {
        &&& 0 <= self.speed <= MAX_SPEED
        &&& in_world(self.position_x as int)
        &&& in_world(self.position_y as int)
    }

    /// A fresh enemy at fixed-point horizontal position `position_x`: one that
    /// appears left of centre drifts right, any other drifts left.
    pub open spec fn spawned(speed: i64, position_x: i64) -> Enemy {
        Enemy {
            health: ENEMY_HEALTH,
            speed,
            position_x,
            position_y: ENEMY_SPAWN_Y,
            behaviour: if position_x < 0 { Behaviour::FlyL2R } else { Behaviour::FlyR2L },
            shoot_timer: ENEMY_SHOOT_INTERVAL,
        }
    }

    /// The enemy after `dt` units of game time: down at its speed, sideways
    /// at half of it.
    pub open spec fn moved(&self, dt: int) -> Enemy {
        let drift = trunc_div(self.speed * dt, 2);
        Enemy {
            shoot_timer: timer_after(self.shoot_timer as int, dt) as i64,
            position_y: (self.position_y - self.speed * dt) as i64,
            position_x: (match self.behaviour {
                Behaviour::FlyL2R => self.position_x + drift,
                Behaviour::FlyR2L => self.position_x - drift,
            }) as i64,
            ..*self
        }
    }

    /// A fresh enemy at a random horizontal position within the arena.
    pub fn new(speed: i64) -> (r: Enemy)
        requires
            0 <= speed <= MAX_SPEED,
        ensures
            -WALK_AREA_MAX_X <= r.position_x < WALK_AREA_MAX_X,
            r == Enemy::spawned(speed, r.position_x),
            r.wf(),
    {
        let position_x = random_in_range(-WALK_AREA_MAX_X, WALK_AREA_MAX_X);
        Enemy::spawn_at(speed, position_x)
    }

    /// A fresh enemy at fixed-point horizontal position `position_x`.
    pub fn spawn_at(speed: i64, position_x: i64) -> (r: Enemy)
        requires
            0 <= speed <= MAX_SPEED,
            in_world(position_x as int),
        ensures
            r == Enemy::spawned(speed, position_x),
            r.wf(),
    {
        let behaviour = if position_x < 0 {
            Behaviour::FlyL2R
        } else {
            Behaviour::FlyR2L
        };
        Enemy {
            health: ENEMY_HEALTH,
            speed,
            position_x,
            position_y: ENEMY_SPAWN_Y,
            behaviour,
            shoot_timer: ENEMY_SHOOT_INTERVAL,
        }
    }

    /// Takes one point of health, never going below zero.
    pub fn damage(&mut self)
        ensures
            *final(self) == (Enemy {
                health: if old(self).health >= 1 { (old(self).health - 1) as u8 } else { 0 },
                ..*old(self)
            }),
    {
        if self.health >= 1 {
            self.health = self.health - 1;
        }
    }

    pub fn alive(&self) -> (r: bool)
        ensures
            r == (self.health > 0),
    {
        self.health > 0
    }

    pub fn can_shoot(&self) -> (r: bool)
        ensures
            r == (self.shoot_timer < 0),
    {
        self.shoot_timer < 0
    }

    pub fn reset_shoot_interval(&mut self)
        ensures
            *final(self) == (Enemy { shoot_timer: ENEMY_SHOOT_INTERVAL, ..*old(self) }),
    {
        self.shoot_timer = ENEMY_SHOOT_INTERVAL;
    }

    /// Counts the shot timer down and moves the enemy.
    pub fn on_update(&mut self, dt: i64)
        requires
            old(self).wf(),
            0 <= dt <= MAX_STEP,
        ensures
            *final(self) == old(self).moved(dt as int),
    {
        self.shoot_timer = count_down(self.shoot_timer, dt);
        assert(0 <= self.speed * dt <= MAX_SPEED * MAX_STEP) by (nonlinear_arith)
            requires
                0 <= self.speed <= MAX_SPEED,
                0 <= dt <= MAX_STEP,
        ;
        let d = self.speed * dt;
        self.position_y = self.position_y - d;
        let drift = div_toward_zero(d, 2);
        match self.behaviour {
            Behaviour::FlyL2R => {
                self.position_x = self.position_x + drift;
            },
            Behaviour::FlyR2L => {
                self.position_x = self.position_x - drift;
            },
        }
    }
}

impl Entity for Enemy {
    open spec fn spec_x(&self) -> int {
        to_pixel(self.position_x as int)
    }

    open spec fn spec_y(&self) -> int {
        to_pixel(self.position_y as int)
    }

    open spec fn spec_radius(&self) -> int {
        5
    }

    fn x(&self) -> (r: i64) {
        pixel_of(self.position_x)
    }

    fn y(&self) -> (r: i64) {
        pixel_of(self.position_y)
    }

    fn collider_radius(&self) -> (r: i64) {
        5
    }
}

impl Enemy {
    /// The enemy after `n` frames of `dt` units of game time each.
    pub open spec fn moved_frames(&self, dt: int, n: nat) -> Enemy
        decreases n,
    {
        if n == 0 {
            *self
        } else {
            self.moved_frames(dt, (n - 1) as nat).moved(dt)
        }
    }
}

/// After `n` frames of `dt` units of game time, an enemy's shot timer reads
/// its first value less `n * dt`; the enemy may fire exactly when that is
/// below zero, and once its interval is reset it may not fire again until
/// the timer runs out anew.
pub proof fn lemma_enemy_timer(e: Enemy, dt: int, n: nat)
    requires
        0 <= dt,
        e.shoot_timer - n * dt >= i64::MIN,
    ensures
        e.moved_frames(dt, n).shoot_timer == e.shoot_timer - n * dt,
        (e.moved_frames(dt, n).shoot_timer < 0) == (e.shoot_timer < n * dt),
        !((Enemy { shoot_timer: ENEMY_SHOOT_INTERVAL, ..e.moved_frames(dt, n) }).shoot_timer < 0),
    decreases n,
{
    if n > 0 {
        assert((n - 1) * dt <= n * dt && n * dt == (n - 1) * dt + dt) by (nonlinear_arith)
            requires
                n >= 1,
                dt >= 0,
        ;
        lemma_enemy_timer(e, dt, (n - 1) as nat);
        let q = e.moved_frames(dt, (n - 1) as nat);
        assert(q.shoot_timer - dt == e.shoot_timer - n * dt);
        assert(e.moved_frames(dt, n) == q.moved(dt));
        assert(timer_after(q.shoot_timer as int, dt) == q.shoot_timer - dt);
        assert(q.moved(dt).shoot_timer == (q.shoot_timer - dt) as i64);
    } else {
        assert(n * dt == 0) by (nonlinear_arith)
            requires
                n == 0,
        ;
    }
}

} // verus!
