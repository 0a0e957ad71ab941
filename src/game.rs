//! The simulation loop: spawning, motion, combat, scoring and removal.
use vstd::prelude::*;

use crate::cloud::{cloud_y_after, Cloud};
use crate::enemy::{Enemy, ENEMY_SHOOT_INTERVAL, ENEMY_SPAWN_Y};
use crate::entity::{
    aim, aim_direction, distance, distance_sq, entities_intersect, entity_distance_sq, in_world, intersects, lemma_pixel_range,
    to_pixel, Entity, MAX_STEP, UNIT, WORLD,
};
use crate::explosion::{Explosion, EXPLOSION_TIME};
use crate::game_over::SceneChange;
use crate::player::{Controls, Player, PLAYER_SHOOT_INTERVAL};
use crate::projectile::{Projectile, SHOT_RED, SHOT_YELLOW};
use crate::random::random_in_range;
use crate::removal::{
    index_set, kept, lemma_kept_agree, lemma_kept_all, lemma_kept_retained, remove_indices, retained,
};

verus! {

/// Half the width of the arena, as a fixed-point position.
pub const WALK_AREA_MAX_X: i64 = 128 * UNIT;

/// Height of the arena, as a fixed-point position.
pub const WALK_AREA_MAX_Y: i64 = 256 * UNIT;

/// Game time between two enemy spawns, in micro-units.
pub const SPAWN_INTERVAL: i64 = 10 * UNIT;

/// How much faster than the wall clock game time runs.
pub const GAME_SPEED: i64 = 10;

/// Longest frame the simulation accepts, in microseconds of wall time.
pub const MAX_ELAPSED: i64 = 1_000_000_000;

/// Speed of a spawned enemy, in pixels per unit of game time.
pub const ENEMY_SPEED: i64 = 5;

/// Speed of an enemy shot.
pub const ENEMY_SHOT_SPEED: i64 = 10;

/// Speed of a player shot.
pub const PLAYER_SHOT_SPEED: i64 = 30;

/// Score for destroying an enemy.
pub const KILL_BONUS: u64 = 100;

/// Lowest pixel height at which enemies and enemy shots are kept.
pub const LOWEST_Y: i64 = -20;

/// Pixel margin beyond the arena's sides within which enemies are kept.
pub const SIDE_MARGIN: i64 = 20;

/// Enemies fire only strictly between these two pixel heights.
pub const FIRING_BAND_LOW: i64 = 30;

pub const FIRING_BAND_HIGH: i64 = 250;

/// Squared pixel distance from the player beyond which enemy shots vanish.
pub const ENEMY_SHOT_RANGE_SQ: i128 = 300 * 300;

/// Squared pixel distance from the player beyond which player shots vanish.
pub const PLAYER_SHOT_RANGE_SQ: i128 = 400 * 400;

/// Bound on the fixed-point positions of enemies in the middle of a frame.
pub const NEAR: i64 = 1_100_000_000_000;

/// What the host hands the simulation each frame.
#[derive(Clone, Copy, Debug, PartialEq, Eq)]
pub struct FrameInput {
    /// The quit key is down.
    pub quit: bool,
    /// The movement keys.
    pub controls: Controls,
    /// Wall time since the last frame, in microseconds.
    pub elapsed_us: i64,
}

/// An enemy that is still within the arena: not below the lowest height and
/// not past either side by more than the margin.
pub open spec fn enemy_in_bounds(e: Enemy) -> bool {
    &&& e.spec_y() >= LOWEST_Y
    &&& e.spec_x() <= 128 + SIDE_MARGIN
    &&& e.spec_x() >= -128 - SIDE_MARGIN
}

/// An enemy as a game keeps it between frames.
pub open spec fn enemy_kept(e: Enemy) -> bool {
    &&& e.wf()
    &&& e.health > 0
    &&& -149 * UNIT < e.position_x < 149 * UNIT
    &&& -21 * UNIT < e.position_y <= ENEMY_SPAWN_Y
}

/// An enemy in the middle of a frame, moved once since it was kept.
pub open spec fn enemy_near(e: Enemy) -> bool {
    &&& e.wf()
    &&& -NEAR <= e.position_x <= NEAR
    &&& -NEAR <= e.position_y <= NEAR
}

/// The enemy fires this frame: its timer has run out and it flies within the
/// firing band.
pub open spec fn enemy_fires(e: Enemy) -> bool {
    &&& e.shoot_timer < 0
    &&& FIRING_BAND_LOW < e.spec_y() < FIRING_BAND_HIGH
}

/// The enemy after its shot, if it fired.
pub open spec fn after_firing(e: Enemy) -> Enemy {
    if enemy_fires(e) {
        Enemy { shoot_timer: ENEMY_SHOOT_INTERVAL, ..e }
    } else {
        e
    }
}

/// The shot an enemy fires at the player: from the enemy's pixel position,
/// aimed at the player's.
pub open spec fn shot_from(e: Enemy, pl: Player) -> Projectile {
    let d = aim_direction(pl.spec_x() - e.spec_x(), pl.spec_y() - e.spec_y());
    Projectile {
        speed: ENEMY_SHOT_SPEED,
        dir_x: d.0 as i64,
        dir_y: d.1 as i64,
        position_x: (e.spec_x() * UNIT) as i64,
        position_y: (e.spec_y() * UNIT) as i64,
        color: SHOT_RED,
    }
}

/// The shots that the enemies `es`, just moved, fire this frame, in order.
pub open spec fn fired_shots(es: Seq<Enemy>, pl: Player) -> Seq<Projectile>
    decreases es.len(),
{
    if es.len() == 0 {
        Seq::empty()
    } else {
        let rest = fired_shots(es.drop_last(), pl);
        if enemy_fires(es.last()) {
            rest.push(shot_from(es.last(), pl))
        } else {
            rest
        }
    }
}

/// The enemies moved by `dt` units of game time.
pub open spec fn moved_enemies(es: Seq<Enemy>, dt: int) -> Seq<Enemy> {
    es.map_values(|e: Enemy| e.moved(dt))
}

/// The shots moved by `dt` units of game time.
pub open spec fn moved_all(ps: Seq<Projectile>, dt: int) -> Seq<Projectile> {
    ps.map_values(|p: Projectile| p.moved(dt))
}

/// How many of the shots hit the player.
pub open spec fn count_hits(ps: Seq<Projectile>, pl: Player) -> int
    decreases ps.len(),
{
    if ps.len() == 0 {
        0
    } else {
        count_hits(ps.drop_last(), pl) + if entities_intersect(&ps.last(), &pl) {
            1int
        } else {
            0
        }
    }
}

proof fn lemma_count_hits_nonneg(ps: Seq<Projectile>, pl: Player)
    ensures
        0 <= count_hits(ps, pl) <= ps.len(),
    decreases ps.len(),
{
    if ps.len() > 0 {
        lemma_count_hits_nonneg(ps.drop_last(), pl);
    }
}

/// `b` is `a` after some enemies lost health, nothing else.
pub open spec fn only_damaged(a: Seq<Enemy>, b: Seq<Enemy>) -> bool {
    &&& a.len() == b.len()
    &&& forall|j: int|
        0 <= j < a.len() ==> #[trigger] b[j] == Enemy { health: b[j].health, ..a[j] } && b[j].health
            <= a[j].health
}

proof fn lemma_only_damaged_trans(a: Seq<Enemy>, b: Seq<Enemy>, c: Seq<Enemy>)
    requires
        only_damaged(a, b),
        only_damaged(b, c),
    ensures
        only_damaged(a, c),
{
    assert forall|j: int| 0 <= j < a.len() implies #[trigger] c[j] == Enemy { health: c[j].health, ..a[j] }
        && c[j].health <= a[j].health by {
        assert(b[j] == Enemy { health: b[j].health, ..a[j] });
        assert(c[j] == Enemy { health: c[j].health, ..b[j] });
    }
}


/// `h` reduced by `n`, but not below zero.
pub open spec fn health_after(h: int, n: int) -> int {
    if h > n {
        h - n
    } else {
        0
    }
}

/// `a + b`, held at the largest `u64`.
pub open spec fn score_plus(a: int, b: int) -> int {
    if a + b > u64::MAX {
        u64::MAX as int
    } else {
        a + b
    }
}

/// An enemy shot that stays: it missed the player, is not below the lowest
/// height and is within range of the player.
pub open spec fn enemy_shot_stays(p: Projectile, pl: Player) -> bool {
    &&& !entities_intersect(&p, &pl)
    &&& p.spec_y() >= LOWEST_Y
    &&& entity_distance_sq(&p, &pl) <= ENEMY_SHOT_RANGE_SQ
}

/// What one frame of play reports to the host.
#[derive(Clone, Copy, Debug, PartialEq, Eq)]
pub struct FrameReport {
    /// The scene change that the frame asks for.
    pub change: SceneChange,
    /// How many enemies the player destroyed this frame.
    pub kills: u64,
}

/// What one frame of play, not ended by quitting, does to the game `old`,
/// with an enemy appearing at `spawn_x` should the spawn timer run out:
/// `new` is the game afterwards and `r` the report.
///
/// Whole seconds of game time score a point each, with the remainder kept;
/// the spawn timer runs. If the enemy shots leave the player without health,
/// the game is over with the score so far: the player neither moves nor
/// fires, and no player shot flies. Otherwise the player moves and fires,
/// its shots strike the enemies (each kill scoring the bonus), and what
/// remains is exactly what stayed: enemies alive and in bounds, enemy shots
/// that missed and are in range, player shots in range that touched no
/// living enemy, explosions still burning, and every cloud moved on.
pub open spec fn frame_outcome(old: Game, new: Game, input: FrameInput, spawn_x: i64, r: FrameReport) -> bool {
    let dt = frame_time(input);
    let v = old.volley_result(input.controls, dt, spawn_x);
    &&& new.score_timer == (old.score_timer + dt) % UNIT as int
    &&& new.spawn_timer == if old.spawn_timer - dt < 0 {
        SPAWN_INTERVAL as int
    } else {
        old.spawn_timer - dt
    }
    &&& if old.health_after_shots(dt, spawn_x) == 0 {
        &&& r == (FrameReport { change: SceneChange::GameOver(new.score), kills: 0 })
        &&& new.score == old.score_after_time(dt)
        &&& new.player == (Player { health: 0, ..old.player })
        &&& new.player_projectiles@ == old.player_projectiles@
    } else {
        &&& r.change == SceneChange::Stay
        &&& new.wf()
        &&& new.score == score_plus(old.score_after_time(dt), KILL_BONUS * r.kills)
        &&& new.player.health == old.health_after_shots(dt, spawn_x)
        &&& new.player.position_x == old.player.moved(input.controls, dt).position_x
        &&& new.player.position_y == old.player.moved(input.controls, dt).position_y
        &&& new.player.shoot_timer == if old.player.shoot_timer - dt < 0 {
            PLAYER_SHOOT_INTERVAL as int
        } else {
            old.player.shoot_timer - dt
        }
        &&& new.enemies@ == retained(v.0, |e: Enemy| e.health > 0 && enemy_in_bounds(e))
        &&& r.kills == v.1.len()
        &&& new.explosions@ == retained(burnt(old.explosions@ + v.1, dt), |x: Explosion| x.time_remaining > 0)
        &&& new.player_projectiles@ == v.2
        &&& new.projectiles@ == retained(
            old.enemy_shots_moved(dt, spawn_x),
            |p: Projectile| enemy_shot_stays(p, old.player),
        )
        &&& new.clouds@.len() == old.clouds@.len()
        &&& forall|j: int|
            0 <= j < new.clouds@.len() ==> {
                &&& (#[trigger] new.clouds@[j]).position_y == cloud_y_after(
                    old.clouds@[j].position_y as int,
                    old.clouds@[j].speed as int,
                    dt,
                )
                &&& new.clouds@[j].position_x == old.clouds@[j].position_x
                &&& new.clouds@[j].speed == old.clouds@[j].speed
                &&& new.clouds@[j].cloud_pillows@ == old.clouds@[j].cloud_pillows@
            }
    }
}

/// A shot within `k` pixels of a player who stands in the arena lies within
/// the world, and so is kept whole.
proof fn lemma_close_shot(p: Projectile, pl: Player, k: int)
    requires
        0 <= k <= 400,
        entity_distance_sq(&p, &pl) <= k * k,
        -WALK_AREA_MAX_X <= pl.position_x <= WALK_AREA_MAX_X,
        0 <= pl.position_y <= WALK_AREA_MAX_Y,
        0 <= p.speed <= crate::entity::MAX_SPEED,
        -crate::entity::DIRECTION_ONE <= p.dir_x <= crate::entity::DIRECTION_ONE,
        -crate::entity::DIRECTION_ONE <= p.dir_y <= crate::entity::DIRECTION_ONE,
    ensures
        p.wf(),
{
    let dx = p.spec_x() - pl.spec_x();
    let dy = p.spec_y() - pl.spec_y();
    assert(dx * dx <= k * k && dy * dy <= k * k) by (nonlinear_arith)
        requires
            dx * dx + dy * dy <= k * k,
    ;
    assert(-k <= dx <= k) by (nonlinear_arith)
        requires
            dx * dx <= k * k,
            k >= 0,
    ;
    assert(-k <= dy <= k) by (nonlinear_arith)
        requires
            dy * dy <= k * k,
            k >= 0,
    ;
    lemma_pixel_range(pl.position_x as int);
    lemma_pixel_range(pl.position_y as int);
    lemma_pixel_range(p.position_x as int);
    lemma_pixel_range(p.position_y as int);
}

/// Game time that a frame advances, in micro-units.
pub open spec fn frame_time(input: FrameInput) -> int {
    input.elapsed_us * GAME_SPEED
}

/// Player shots fired from the player's pixel position, straight up.
pub open spec fn player_shot(pl: Player, offset: int) -> Projectile {
    Projectile {
        speed: PLAYER_SHOT_SPEED,
        dir_x: 0,
        dir_y: crate::entity::DIRECTION_ONE,
        position_x: ((pl.spec_x() + offset) * UNIT) as i64,
        position_y: (pl.spec_y() * UNIT) as i64,
        color: SHOT_YELLOW,
    }
}

/// An enemy that was kept, moved, perhaps fired, took some damage, is still
/// alive and in bounds, is kept again.
proof fn lemma_enemy_survives(e1: Enemy, e2: Enemy, e6: Enemy, dt: int)
    requires
        enemy_kept(e1),
        0 <= dt <= MAX_STEP,
        e2 == after_firing(e1.moved(dt)),
        enemy_near(e2),
        enemy_in_bounds(e2),
        e6 == (Enemy { health: e6.health, ..e2 }),
        e6.health > 0,
    ensures
        enemy_kept(e6),
        enemy_in_bounds(e6),
{
    assert(0 <= e1.speed * dt <= 100 * MAX_STEP) by (nonlinear_arith)
        requires
            0 <= e1.speed <= 100,
            0 <= dt <= MAX_STEP,
    ;
    lemma_pixel_range(e6.position_x as int);
    lemma_pixel_range(e6.position_y as int);
}

/// An explosion where an enemy was destroyed.
pub open spec fn explosion_at(e: Enemy) -> Explosion {
    Explosion {
        time_remaining: EXPLOSION_TIME,
        position_x: (e.spec_x() * UNIT) as i64,
        position_y: (e.spec_y() * UNIT) as i64,
    }
}

/// One player shot tested against the enemies from index `y` on, in spawn
/// order. Each living enemy it touches loses a point of health; the scan
/// stops at the first that dies. Gives the enemies after, whether the shot
/// touched any, and the index of the one it destroyed.
pub open spec fn strike_from(p: Projectile, es: Seq<Enemy>, y: int) -> (Seq<Enemy>, bool, Option<int>)
    decreases es.len() - y,
{
    if y < 0 || y >= es.len() {
        (es, false, None)
    } else if es[y].health > 0 && entities_intersect(&p, &es[y]) {
        let hurt = Enemy { health: (es[y].health - 1) as u8, ..es[y] };
        let after = es.update(y, hurt);
        if hurt.health == 0 {
            (after, true, Some(y))
        } else {
            let rest = strike_from(p, after, y + 1);
            (rest.0, true, rest.2)
        }
    } else {
        strike_from(p, es, y + 1)
    }
}

/// The player's shots `ps`, already moved, resolved in order against the
/// enemies `es`, with the player at pixel `(px, py)`: shots out of range do
/// nothing, the others strike. Gives the enemies after, the explosions of
/// the enemies destroyed, and the shots that stay (within range and touching
/// no living enemy), each in order.
pub open spec fn volley(ps: Seq<Projectile>, es: Seq<Enemy>, px: int, py: int) -> (
    Seq<Enemy>,
    Seq<Explosion>,
    Seq<Projectile>,
)
    decreases ps.len(),
{
    if ps.len() == 0 {
        (es, Seq::empty(), Seq::empty())
    } else {
        let prev = volley(ps.drop_last(), es, px, py);
        let p = ps.last();
        if distance_sq(p.spec_x(), p.spec_y(), px, py) > PLAYER_SHOT_RANGE_SQ {
            (prev.0, prev.1, prev.2)
        } else {
            let r = strike_from(p, prev.0, 0);
            let stays = if r.1 {
                prev.2
            } else {
                prev.2.push(p)
            };
            match r.2 {
                Some(y) => (r.0, prev.1.push(explosion_at(r.0[y])), stays),
                None => (r.0, prev.1, stays),
            }
        }
    }
}

/// The two shots the player fires when its timer has run out.
pub open spec fn fresh_player_shots(pl: Player) -> Seq<Projectile> {
    if pl.shoot_timer < 0 {
        seq![player_shot(pl, -10), player_shot(pl, 10)]
    } else {
        Seq::empty()
    }
}

/// Explosions counted down by `dt` units of game time.
pub open spec fn burnt(xs: Seq<Explosion>, dt: int) -> Seq<Explosion> {
    xs.map_values(|x: Explosion| Explosion { time_remaining: (x.time_remaining - dt) as i64, ..x })
}

/// The whole state of a game in progress.
#[derive(Clone, Debug)]
pub struct Game {
    pub score: u64,
    pub game_speed: i64,
    pub player: Player,
    pub spawn_timer: i64,
    pub score_timer: i64,
    pub enemies: Vec<Enemy>,
    pub projectiles: Vec<Projectile>,
    pub player_projectiles: Vec<Projectile>,
    pub explosions: Vec<Explosion>,
    pub clouds: Vec<Cloud>,
}

impl Game {
    /// The enemies once the spawn timer has been run: a new one joins at
    /// `spawn_x` when the timer runs out.
    pub open spec fn enemies_with_spawn(&self, dt: int, spawn_x: i64) -> Seq<Enemy> {
        if self.spawn_timer - dt < 0 {
            self.enemies@.push(Enemy::spawned(ENEMY_SPEED, spawn_x))
        } else {
            self.enemies@
        }
    }

    /// The enemy shots of this frame, moved: those already flying, then those
    /// fired this frame.
    pub open spec fn enemy_shots_moved(&self, dt: int, spawn_x: i64) -> Seq<Projectile> {
        moved_all(
            self.projectiles@ + fired_shots(
                moved_enemies(self.enemies_with_spawn(dt, spawn_x), dt),
                self.player,
            ),
            dt,
        )
    }

    /// The enemies once moved and, where they could, fired.
    pub open spec fn enemies_after_fire(&self, dt: int, spawn_x: i64) -> Seq<Enemy> {
        moved_enemies(self.enemies_with_spawn(dt, spawn_x), dt).map_values(|e: Enemy| after_firing(e))
    }

    /// The player's shots of this frame, moved: those already flying, then
    /// any the player fires this frame.
    pub open spec fn player_shots_moved(&self, keys: Controls, dt: int) -> Seq<Projectile> {
        moved_all(self.player_projectiles@ + fresh_player_shots(self.player.moved(keys, dt)), dt)
    }

    /// The enemies and new explosions once this frame's player shots have
    /// struck.
    pub open spec fn volley_result(&self, keys: Controls, dt: int, spawn_x: i64) -> (
        Seq<Enemy>,
        Seq<Explosion>,
        Seq<Projectile>,
    ) {
        let pl = self.player.moved(keys, dt);
        volley(self.player_shots_moved(keys, dt), self.enemies_after_fire(dt, spawn_x), pl.spec_x(), pl.spec_y())
    }

    /// The player's health once this frame's enemy shots have struck.
    pub open spec fn health_after_shots(&self, dt: int, spawn_x: i64) -> int {
        health_after(self.player.health as int, count_hits(self.enemy_shots_moved(dt, spawn_x), self.player))
    }

    /// The score once this frame's whole seconds of game time are counted.
    pub open spec fn score_after_time(&self, dt: int) -> int {
        score_plus(self.score as int, (self.score_timer + dt) / UNIT as int)
    }

    /// The game's invariant: everything lies where the frame can move it
    /// without overflow, and the timers are in their ranges.
    pub open spec fn wf(&self) -> bool {
        &&& self.game_speed == GAME_SPEED
        &&& self.player.wf()
        &&& -WALK_AREA_MAX_X <= self.player.position_x <= WALK_AREA_MAX_X
        &&& 0 <= self.player.position_y <= WALK_AREA_MAX_Y
        &&& 0 <= self.player.shoot_timer <= WORLD
        &&& 0 <= self.spawn_timer <= WORLD
        &&& 0 <= self.score_timer < UNIT
        &&& forall|i: int| 0 <= i < self.enemies@.len() ==> enemy_kept(#[trigger] self.enemies@[i])
        &&& forall|i: int| 0 <= i < self.projectiles@.len() ==> (#[trigger] self.projectiles@[i]).wf()
        &&& forall|i: int|
            0 <= i < self.player_projectiles@.len() ==> (#[trigger] self.player_projectiles@[i]).wf()
        &&& forall|i: int|
            0 <= i < self.explosions@.len() ==> 0 < (#[trigger] self.explosions@[i]).time_remaining
                <= EXPLOSION_TIME
        &&& forall|i: int| 0 <= i < self.clouds@.len() ==> (#[trigger] self.clouds@[i]).wf()
    }

    /// A fresh game: no score, a fresh player, empty arena, the first enemy
    /// two spawn intervals away.
    pub fn new() -> (r: Game)
        ensures
            r.wf(),
            r.score == 0,
            r.score_timer == 0,
            r.spawn_timer == 2 * SPAWN_INTERVAL,
            r.player == Player::new_spec(),
            r.enemies@.len() == 0,
            r.projectiles@.len() == 0,
            r.player_projectiles@.len() == 0,
            r.explosions@.len() == 0,
            r.clouds@.len() == 0,
    {
        Game {
            score: 0,
            game_speed: GAME_SPEED,
            player: Player::new(),
            spawn_timer: 2 * SPAWN_INTERVAL,
            score_timer: 0,
            enemies: Vec::new(),
            projectiles: Vec::new(),
            player_projectiles: Vec::new(),
            explosions: Vec::new(),
            clouds: Vec::new(),
        }
    }

    /// Adds a cloud to the sky.
    pub fn add_cloud(&mut self, cloud: Cloud)
        requires
            old(self).wf(),
            cloud.wf(),
        ensures
            final(self).wf(),
            final(self).clouds@ == old(self).clouds@.push(cloud),
            final(self).score == old(self).score,
            final(self).game_speed == old(self).game_speed,
            final(self).player == old(self).player,
            final(self).spawn_timer == old(self).spawn_timer,
            final(self).score_timer == old(self).score_timer,
            final(self).enemies@ == old(self).enemies@,
            final(self).projectiles@ == old(self).projectiles@,
            final(self).player_projectiles@ == old(self).player_projectiles@,
            final(self).explosions@ == old(self).explosions@,
    {
        self.clouds.push(cloud);
        assert forall|i: int| 0 <= i < self.clouds@.len() implies (#[trigger] self.clouds@[i]).wf() by {
            if i < old(self).clouds@.len() {
                assert(self.clouds@[i] == old(self).clouds@[i]);
            }
        }
    }

    /// Scrolls every cloud.
    fn update_clouds(&mut self, dt: i64)
        requires
            forall|i: int| 0 <= i < old(self).clouds@.len() ==> (#[trigger] old(self).clouds@[i]).wf(),
            0 <= dt <= MAX_STEP,
        ensures
            final(self).clouds@.len() == old(self).clouds@.len(),
            forall|i: int|
                0 <= i < final(self).clouds@.len() ==> {
                    &&& (#[trigger] final(self).clouds@[i]).wf()
                    &&& final(self).clouds@[i].position_y == cloud_y_after(
                        old(self).clouds@[i].position_y as int,
                        old(self).clouds@[i].speed as int,
                        dt as int,
                    )
                    &&& final(self).clouds@[i].position_x == old(self).clouds@[i].position_x
                    &&& final(self).clouds@[i].speed == old(self).clouds@[i].speed
                    &&& final(self).clouds@[i].cloud_pillows@ == old(self).clouds@[i].cloud_pillows@
                },
            final(self).score == old(self).score,
            final(self).game_speed == old(self).game_speed,
            final(self).player == old(self).player,
            final(self).spawn_timer == old(self).spawn_timer,
            final(self).score_timer == old(self).score_timer,
            final(self).enemies@ == old(self).enemies@,
            final(self).projectiles@ == old(self).projectiles@,
            final(self).player_projectiles@ == old(self).player_projectiles@,
            final(self).explosions@ == old(self).explosions@,
    {
        let n = self.clouds.len();
        let mut i: usize = 0;
        while i < n
            invariant
                0 <= dt <= MAX_STEP,
                i <= n,
                self.clouds@.len() == n,
                n == old(self).clouds@.len(),
                forall|j: int| i <= j < n ==> self.clouds@[j] == old(self).clouds@[j],
                forall|j: int| i <= j < n ==> (#[trigger] old(self).clouds@[j]).wf(),
                forall|j: int|
                    0 <= j < i ==> {
                        &&& (#[trigger] self.clouds@[j]).wf()
                        &&& self.clouds@[j].position_y == cloud_y_after(
                            old(self).clouds@[j].position_y as int,
                            old(self).clouds@[j].speed as int,
                            dt as int,
                        )
                        &&& self.clouds@[j].position_x == old(self).clouds@[j].position_x
                        &&& self.clouds@[j].speed == old(self).clouds@[j].speed
                        &&& self.clouds@[j].cloud_pillows@ == old(self).clouds@[j].cloud_pillows@
                    },
                self.score == old(self).score,
                self.game_speed == old(self).game_speed,
                self.player == old(self).player,
                self.spawn_timer == old(self).spawn_timer,
                self.score_timer == old(self).score_timer,
                self.enemies@ == old(self).enemies@,
                self.projectiles@ == old(self).projectiles@,
                self.player_projectiles@ == old(self).player_projectiles@,
                self.explosions@ == old(self).explosions@,
            decreases n - i,
        {
            self.clouds[i].on_update(dt);
            proof {
                let c = old(self).clouds@[i as int];
                assert(0 <= c.speed * dt <= 100 * MAX_STEP) by (nonlinear_arith)
                    requires
                        0 <= c.speed <= 100,
                        0 <= dt <= MAX_STEP,
                ;
            }
            i = i + 1;
        }
    }

    /// Moves every enemy, lets those that may fire shoot at the player, and
    /// returns the indices of the enemies that left the arena.
    fn update_enemies(&mut self, dt: i64) -> (to_remove: Vec<usize>)
        requires
            forall|i: int| 0 <= i < old(self).enemies@.len() ==> enemy_kept(#[trigger] old(self).enemies@[i]),
            forall|i: int| 0 <= i < old(self).projectiles@.len() ==> (#[trigger] old(self).projectiles@[i]).wf(),
            -WALK_AREA_MAX_X <= old(self).player.position_x <= WALK_AREA_MAX_X,
            0 <= old(self).player.position_y <= WALK_AREA_MAX_Y,
            0 <= dt <= MAX_STEP,
        ensures
            final(self).enemies@.len() == old(self).enemies@.len(),
            forall|i: int|
                0 <= i < final(self).enemies@.len() ==> {
                    &&& #[trigger] final(self).enemies@[i] == after_firing(old(self).enemies@[i].moved(dt as int))
                    &&& enemy_near(final(self).enemies@[i])
                    &&& (index_set(to_remove@).contains(i) <==> !enemy_in_bounds(final(self).enemies@[i]))
                },
            forall|k: int| 0 <= k < to_remove@.len() ==> to_remove@[k] < final(self).enemies@.len(),
            final(self).projectiles@ == old(self).projectiles@ + fired_shots(
                moved_enemies(old(self).enemies@, dt as int),
                old(self).player,
            ),
            forall|i: int| 0 <= i < final(self).projectiles@.len() ==> (#[trigger] final(self).projectiles@[i]).wf(),
            final(self).score == old(self).score,
            final(self).game_speed == old(self).game_speed,
            final(self).player == old(self).player,
            final(self).spawn_timer == old(self).spawn_timer,
            final(self).score_timer == old(self).score_timer,
            final(self).player_projectiles@ == old(self).player_projectiles@,
            final(self).explosions@ == old(self).explosions@,
            final(self).clouds@ == old(self).clouds@,
    {
        let mut to_remove: Vec<usize> = Vec::new();
        let n = self.enemies.len();
        let px = self.player.x();
        let py = self.player.y();
        proof {
            lemma_pixel_range(self.player.position_x as int);
            lemma_pixel_range(self.player.position_y as int);
        }
        let mut i: usize = 0;
        while i < n
            invariant
                0 <= dt <= MAX_STEP,
                i <= n,
                n == old(self).enemies@.len(),
                self.enemies@.len() == n,
                px == self.player.spec_x(),
                py == self.player.spec_y(),
                -256 <= px <= 256,
                -256 <= py <= 256,
                forall|j: int| i <= j < n ==> self.enemies@[j] == old(self).enemies@[j],
                forall|j: int| 0 <= j < n ==> enemy_kept(#[trigger] old(self).enemies@[j]),
                forall|j: int|
                    0 <= j < i ==> {
                        &&& #[trigger] self.enemies@[j] == after_firing(old(self).enemies@[j].moved(dt as int))
                        &&& enemy_near(self.enemies@[j])
                        &&& (index_set(to_remove@).contains(j) <==> !enemy_in_bounds(self.enemies@[j]))
                    },
                forall|k: int| 0 <= k < to_remove@.len() ==> to_remove@[k] < i,
                self.projectiles@ == old(self).projectiles@ + fired_shots(
                    moved_enemies(old(self).enemies@, dt as int).subrange(0, i as int),
                    old(self).player,
                ),
                forall|j: int| 0 <= j < self.projectiles@.len() ==> (#[trigger] self.projectiles@[j]).wf(),
                self.score == old(self).score,
                self.game_speed == old(self).game_speed,
                self.player == old(self).player,
                self.spawn_timer == old(self).spawn_timer,
                self.score_timer == old(self).score_timer,
                self.player_projectiles@ == old(self).player_projectiles@,
                self.explosions@ == old(self).explosions@,
                self.clouds@ == old(self).clouds@,
            decreases n - i,
        {
            let mut e = self.enemies[i];
            let ghost e0 = e;
            let ghost shots0 = self.projectiles@;
            let ghost mv = moved_enemies(old(self).enemies@, dt as int);
            assert(enemy_kept(e0));
            e.on_update(dt);
            proof {
                let pre = mv.subrange(0, i as int + 1);
                assert(pre.drop_last() == mv.subrange(0, i as int));
                assert(pre.last() == e);
            }
            proof {
                assert(0 <= e0.speed * dt <= 100 * MAX_STEP) by (nonlinear_arith)
                    requires
                        0 <= e0.speed <= 100,
                        0 <= dt <= MAX_STEP,
                ;
                assert(enemy_near(e));
                lemma_pixel_range(e.position_x as int);
                lemma_pixel_range(e.position_y as int);
            }
            let ex = e.x();
            let ey = e.y();
            if e.can_shoot() {
                if ey < FIRING_BAND_HIGH && ey > FIRING_BAND_LOW {
                    let dir = aim(px - ex, py - ey);
                    let shot = Projectile::new(ENEMY_SHOT_SPEED, dir.0, dir.1, ex, ey, SHOT_RED);
                    let ghost before = self.projectiles@;
                    self.projectiles.push(shot);
                    proof {
                        assert(shot == shot_from(e, old(self).player));
                        assert forall|j: int| 0 <= j < self.projectiles@.len() implies (
                            #[trigger] self.projectiles@[j]).wf() by {
                            if j < before.len() {
                                assert(self.projectiles@[j] == before[j]);
                            }
                        }
                    }
                    e.reset_shoot_interval();
                }
            }
            let ghost before_marks = to_remove@;
            if ey < LOWEST_Y || ex > 128 + SIDE_MARGIN || ex < -128 - SIDE_MARGIN {
                to_remove.push(i);
            }
            self.enemies.set(i, e);
            proof {
                assert(self.projectiles@ == old(self).projectiles@ + fired_shots(
                    mv.subrange(0, i as int + 1),
                    old(self).player,
                ));
                assert forall|j: int| 0 <= j <= i implies (index_set(to_remove@).contains(j)
                    <==> index_set(before_marks).contains(j) || (j == i && !enemy_in_bounds(e))) by {
                    if index_set(to_remove@).contains(j) {
                        let k = choose|k: int| 0 <= k < to_remove@.len() && to_remove@[k] as int == j;
                        if k < before_marks.len() {
                            assert(before_marks[k] == to_remove@[k]);
                        }
                    }
                    if index_set(before_marks).contains(j) {
                        let k = choose|k: int| 0 <= k < before_marks.len() && before_marks[k] as int == j;
                        assert(to_remove@[k] == before_marks[k]);
                    }
                    if j == i && !enemy_in_bounds(e) {
                        assert(to_remove@[to_remove@.len() - 1] == i);
                    }
                }
                assert(!index_set(before_marks).contains(i as int));
            }
            i = i + 1;
        }
        assert(moved_enemies(old(self).enemies@, dt as int).subrange(0, n as int) == moved_enemies(
            old(self).enemies@,
            dt as int,
        ));
        to_remove
    }

    /// Moves every enemy shot; each one that hits the player takes a point of
    /// health. Returns the indices of the shots that hit or went out of range.
    fn update_enemy_projectiles(&mut self, dt: i64) -> (to_remove: Vec<usize>)
        requires
            forall|i: int| 0 <= i < old(self).projectiles@.len() ==> (#[trigger] old(self).projectiles@[i]).wf(),
            0 <= dt <= MAX_STEP,
        ensures
            final(self).projectiles@ == moved_all(old(self).projectiles@, dt as int),
            final(self).player == (Player {
                health: health_after(
                    old(self).player.health as int,
                    count_hits(moved_all(old(self).projectiles@, dt as int), old(self).player),
                ) as u8,
                ..old(self).player
            }),
            forall|i: int|
                0 <= i < final(self).projectiles@.len() ==> (index_set(to_remove@).contains(i) <==> !enemy_shot_stays(
                    #[trigger] final(self).projectiles@[i],
                    old(self).player,
                )),
            forall|k: int| 0 <= k < to_remove@.len() ==> to_remove@[k] < final(self).projectiles@.len(),
            final(self).score == old(self).score,
            final(self).game_speed == old(self).game_speed,
            final(self).spawn_timer == old(self).spawn_timer,
            final(self).score_timer == old(self).score_timer,
            final(self).enemies@ == old(self).enemies@,
            final(self).player_projectiles@ == old(self).player_projectiles@,
            final(self).explosions@ == old(self).explosions@,
            final(self).clouds@ == old(self).clouds@,
    {
        let mut to_remove: Vec<usize> = Vec::new();
        let n = self.projectiles.len();
        let ghost pl0 = self.player;
        let ghost moved = moved_all(old(self).projectiles@, dt as int);
        let mut i: usize = 0;
        while i < n
            invariant
                0 <= dt <= MAX_STEP,
                i <= n,
                n == old(self).projectiles@.len(),
                moved == moved_all(old(self).projectiles@, dt as int),
                pl0 == old(self).player,
                self.projectiles@.len() == n,
                forall|j: int| i <= j < n ==> self.projectiles@[j] == old(self).projectiles@[j],
                forall|j: int| 0 <= j < n ==> (#[trigger] old(self).projectiles@[j]).wf(),
                forall|j: int| 0 <= j < i ==> self.projectiles@[j] == moved[j],
                self.player == (Player {
                    health: health_after(pl0.health as int, count_hits(moved.subrange(0, i as int), pl0)) as u8,
                    ..pl0
                }),
                forall|j: int|
                    0 <= j < i ==> (index_set(to_remove@).contains(j) <==> !enemy_shot_stays(
                        #[trigger] self.projectiles@[j],
                        pl0,
                    )),
                forall|k: int| 0 <= k < to_remove@.len() ==> to_remove@[k] < i,
                self.score == old(self).score,
                self.game_speed == old(self).game_speed,
                self.spawn_timer == old(self).spawn_timer,
                self.score_timer == old(self).score_timer,
                self.enemies@ == old(self).enemies@,
                self.player_projectiles@ == old(self).player_projectiles@,
                self.explosions@ == old(self).explosions@,
                self.clouds@ == old(self).clouds@,
            decreases n - i,
        {
            let mut p = self.projectiles[i];
            p.on_update(dt);
            self.projectiles.set(i, p);
            let ghost before_marks = to_remove@;
            let ghost h = self.player.health;
            let hit = intersects(&p, &self.player);
            if hit {
                self.player.damage();
                to_remove.push(i);
            }
            if p.y() < LOWEST_Y || distance(&p, &self.player) > ENEMY_SHOT_RANGE_SQ {
                to_remove.push(i);
            }
            proof {
                let pre = moved.subrange(0, i as int + 1);
                assert(pre.drop_last() == moved.subrange(0, i as int));
                lemma_count_hits_nonneg(moved.subrange(0, i as int), pl0);
                assert(hit == entities_intersect(&p, &pl0));
                assert(pre.last() == p);
                assert(count_hits(pre, pl0) == count_hits(moved.subrange(0, i as int), pl0) + if hit {
                    1int
                } else {
                    0
                });
                assert forall|j: int| 0 <= j <= i implies (index_set(to_remove@).contains(j)
                    <==> index_set(before_marks).contains(j) || (j == i && !enemy_shot_stays(p, pl0))) by {
                    if index_set(to_remove@).contains(j) {
                        let k = choose|k: int| 0 <= k < to_remove@.len() && to_remove@[k] as int == j;
                        if k < before_marks.len() {
                            assert(before_marks[k] == to_remove@[k]);
                        }
                    }
                    if index_set(before_marks).contains(j) {
                        let k = choose|k: int| 0 <= k < before_marks.len() && before_marks[k] as int == j;
                        assert(to_remove@[k] == before_marks[k]);
                    }
                    if j == i && !enemy_shot_stays(p, pl0) {
                        assert(to_remove@[to_remove@.len() - 1] == i);
                    }
                }
                assert(!index_set(before_marks).contains(i as int));
            }
            i = i + 1;
        }
        assert(moved.subrange(0, n as int) == moved);
        to_remove
    }

    /// Tests one player shot against the living enemies in spawn order. Each
    /// enemy it touches loses a point of health; on the first one that dies
    /// the kill bonus is scored, the enemy is marked for removal, an
    /// explosion appears where it was, and the scan stops. Returns whether
    /// the shot touched an enemy and whether it killed one.
    fn strike(&mut self, p: &Projectile, enemies_to_remove: &mut Vec<usize>) -> (r: (bool, bool))
        requires
            forall|j: int| 0 <= j < old(self).enemies@.len() ==> enemy_near(#[trigger] old(self).enemies@[j]),
            forall|k: int|
                0 <= k < old(enemies_to_remove)@.len() ==> old(enemies_to_remove)@[k] < old(self).enemies@.len(),
        ensures
            strike_from(*p, old(self).enemies@, 0).0 == final(self).enemies@,
            strike_from(*p, old(self).enemies@, 0).1 == r.0,
            (strike_from(*p, old(self).enemies@, 0).2 != Option::<int>::None) == r.1,
            r.1 ==> final(self).explosions@ == old(self).explosions@.push(
                explosion_at(final(self).enemies@[strike_from(*p, old(self).enemies@, 0).2.unwrap()]),
            ),
            only_damaged(old(self).enemies@, final(self).enemies@),
            r.1 ==> r.0,
            !r.0 ==> final(self).enemies@ == old(self).enemies@,
            final(self).score == score_plus(old(self).score as int, if r.1 { KILL_BONUS as int } else { 0 }),
            final(self).explosions@.len() == old(self).explosions@.len() + if r.1 { 1int } else { 0 },
            final(self).explosions@.subrange(0, old(self).explosions@.len() as int) == old(self).explosions@,
            forall|k: int|
                old(self).explosions@.len() <= k < final(self).explosions@.len() ==> (
                #[trigger] final(self).explosions@[k]).time_remaining == EXPLOSION_TIME,
            forall|k: int|
                0 <= k < final(enemies_to_remove)@.len() ==> final(enemies_to_remove)@[k] < old(self).enemies@.len(),
            forall|j: int|
                index_set(old(enemies_to_remove)@).contains(j) ==> index_set(final(enemies_to_remove)@).contains(j),
            forall|j: int|
                0 <= j < old(self).enemies@.len() && index_set(final(enemies_to_remove)@).contains(j)
                    ==> index_set(old(enemies_to_remove)@).contains(j) || final(self).enemies@[j].health == 0,
            forall|j: int|
                0 <= j < old(self).enemies@.len() && old(self).enemies@[j].health > 0
                    && #[trigger] final(self).enemies@[j].health == 0 ==> index_set(
                    final(enemies_to_remove)@,
                ).contains(j),
            final(self).game_speed == old(self).game_speed,
            final(self).player == old(self).player,
            final(self).spawn_timer == old(self).spawn_timer,
            final(self).score_timer == old(self).score_timer,
            final(self).projectiles@ == old(self).projectiles@,
            final(self).player_projectiles@ == old(self).player_projectiles@,
            final(self).clouds@ == old(self).clouds@,
    {
        let n = self.enemies.len();
        let mut hit = false;
        let mut y: usize = 0;
        let ghost e0 = self.enemies@;
        while y < n
            invariant
                y <= n,
                n == e0.len(),
                e0 == old(self).enemies@,
                forall|j: int| 0 <= j < n ==> enemy_near(#[trigger] e0[j]),
                only_damaged(e0, self.enemies@),
                forall|j: int| y <= j < n ==> self.enemies@[j] == e0[j],
                forall|j: int| 0 <= j < n ==> (e0[j].health > 0 ==> (#[trigger] self.enemies@[j]).health > 0),
                !hit ==> self.enemies@ == e0,
                strike_from(*p, e0, 0) == (
                    strike_from(*p, self.enemies@, y as int).0,
                    hit || strike_from(*p, self.enemies@, y as int).1,
                    strike_from(*p, self.enemies@, y as int).2,
                ),
                *enemies_to_remove == *old(enemies_to_remove),
                forall|k: int| 0 <= k < enemies_to_remove@.len() ==> enemies_to_remove@[k] < n,
                self.score == old(self).score,
                self.explosions@ == old(self).explosions@,
                self.game_speed == old(self).game_speed,
                self.player == old(self).player,
                self.spawn_timer == old(self).spawn_timer,
                self.score_timer == old(self).score_timer,
                self.projectiles@ == old(self).projectiles@,
                self.player_projectiles@ == old(self).player_projectiles@,
                self.clouds@ == old(self).clouds@,
            decreases n - y,
        {
            let mut e = self.enemies[y];
            if e.alive() && intersects(p, &e) {
                let ghost before = self.enemies@;
                e.damage();
                self.enemies.set(y, e);
                hit = true;
                if !e.alive() {
                    proof {
                        lemma_pixel_range(e.position_x as int);
                        lemma_pixel_range(e.position_y as int);
                        assert(enemy_near(e0[y as int]));
                    }
                    self.score = self.score.saturating_add(KILL_BONUS);
                    let ghost marks = enemies_to_remove@;
                    enemies_to_remove.push(y);
                    let ex = e.x();
                    let ey = e.y();
                    self.explosions.push(Explosion::new(ex, ey));
                    proof {
                        assert(self.explosions@.subrange(0, old(self).explosions@.len() as int) == old(self).explosions@);
                        assert forall|k: int| 0 <= k < enemies_to_remove@.len() implies enemies_to_remove@[k] < n by {
                            if k < marks.len() {
                                assert(enemies_to_remove@[k] == marks[k]);
                            }
                        }
                        assert forall|j: int| index_set(marks).contains(j) implies index_set(enemies_to_remove@).contains(j) by {
                            let k = choose|k: int| 0 <= k < marks.len() && marks[k] as int == j;
                            assert(enemies_to_remove@[k] == marks[k]);
                        }
                        assert forall|j: int|
                            0 <= j < n && index_set(enemies_to_remove@).contains(j) implies index_set(marks).contains(j)
                                || self.enemies@[j].health == 0 by {
                            let k = choose|k: int| 0 <= k < enemies_to_remove@.len() && enemies_to_remove@[k] as int == j;
                            if k < marks.len() {
                                assert(marks[k] == enemies_to_remove@[k]);
                            }
                        }
                        assert forall|j: int|
                            0 <= j < n && e0[j].health > 0 && #[trigger] self.enemies@[j].health == 0 implies index_set(
                                enemies_to_remove@,
                            ).contains(j) by {
                            assert(j == y);
                            assert(enemies_to_remove@[enemies_to_remove@.len() - 1] == y);
                        }
                    }
                    return (true, true);
                }
            }
            y = y + 1;
        }
        proof {
            assert(self.explosions@.subrange(0, old(self).explosions@.len() as int) == old(self).explosions@);
            assert forall|j: int|
                0 <= j < n && old(self).enemies@[j].health > 0 && #[trigger] self.enemies@[j].health == 0 implies index_set(
                    enemies_to_remove@,
                ).contains(j) by {
                assert(self.enemies@[j].health > 0);
            }
        }
        (hit, false)
    }

    /// Moves every player shot and resolves its hits on enemies. Returns the
    /// indices of the shots that hit or went out of range, and how many
    /// enemies were destroyed.
    fn update_player_projectiles(&mut self, dt: i64, enemies_to_remove: &mut Vec<usize>) -> (r: (Vec<usize>, u64))
        requires
            forall|i: int|
                0 <= i < old(self).player_projectiles@.len() ==> (#[trigger] old(self).player_projectiles@[i]).wf(),
            forall|j: int| 0 <= j < old(self).enemies@.len() ==> enemy_near(#[trigger] old(self).enemies@[j]),
            forall|k: int|
                0 <= k < old(enemies_to_remove)@.len() ==> old(enemies_to_remove)@[k] < old(self).enemies@.len(),
            0 <= dt <= MAX_STEP,
        ensures
            final(self).player_projectiles@ == moved_all(old(self).player_projectiles@, dt as int),
            volley(
                moved_all(old(self).player_projectiles@, dt as int),
                old(self).enemies@,
                old(self).player.spec_x(),
                old(self).player.spec_y(),
            ).0 == final(self).enemies@,
            final(self).explosions@ == old(self).explosions@ + volley(
                moved_all(old(self).player_projectiles@, dt as int),
                old(self).enemies@,
                old(self).player.spec_x(),
                old(self).player.spec_y(),
            ).1,
            r.1 == volley(
                moved_all(old(self).player_projectiles@, dt as int),
                old(self).enemies@,
                old(self).player.spec_x(),
                old(self).player.spec_y(),
            ).1.len(),
            kept(final(self).player_projectiles@, index_set(r.0@)) == volley(
                moved_all(old(self).player_projectiles@, dt as int),
                old(self).enemies@,
                old(self).player.spec_x(),
                old(self).player.spec_y(),
            ).2,
            forall|i: int|
                0 <= i < final(self).player_projectiles@.len() && !index_set(r.0@).contains(i)
                    ==> entity_distance_sq(&#[trigger] final(self).player_projectiles@[i], &old(self).player)
                    <= PLAYER_SHOT_RANGE_SQ,
            only_damaged(old(self).enemies@, final(self).enemies@),
            final(self).score == score_plus(old(self).score as int, KILL_BONUS * r.1),
            final(self).explosions@.len() == old(self).explosions@.len() + r.1,
            final(self).explosions@.subrange(0, old(self).explosions@.len() as int) == old(self).explosions@,
            forall|k: int|
                old(self).explosions@.len() <= k < final(self).explosions@.len() ==> (
                #[trigger] final(self).explosions@[k]).time_remaining == EXPLOSION_TIME,
            forall|k: int|
                0 <= k < final(enemies_to_remove)@.len() ==> final(enemies_to_remove)@[k] < old(self).enemies@.len(),
            forall|j: int|
                index_set(old(enemies_to_remove)@).contains(j) ==> index_set(final(enemies_to_remove)@).contains(j),
            forall|j: int|
                0 <= j < old(self).enemies@.len() && index_set(final(enemies_to_remove)@).contains(j)
                    ==> index_set(old(enemies_to_remove)@).contains(j) || final(self).enemies@[j].health == 0,
            forall|j: int|
                0 <= j < old(self).enemies@.len() && old(self).enemies@[j].health > 0
                    && #[trigger] final(self).enemies@[j].health == 0 ==> index_set(
                    final(enemies_to_remove)@,
                ).contains(j),
            final(self).game_speed == old(self).game_speed,
            final(self).player == old(self).player,
            final(self).spawn_timer == old(self).spawn_timer,
            final(self).score_timer == old(self).score_timer,
            final(self).projectiles@ == old(self).projectiles@,
            final(self).clouds@ == old(self).clouds@,
    {
        let mut to_remove: Vec<usize> = Vec::new();
        let mut kills: u64 = 0;
        let m = self.player_projectiles.len();
        let ghost e0 = self.enemies@;
        let ghost x0 = self.explosions@;
        let ghost marks0 = enemies_to_remove@;
        let ghost moved = moved_all(old(self).player_projectiles@, dt as int);
        proof {
            assert(self.explosions@.subrange(0, x0.len() as int) == x0);
            assert(only_damaged(e0, e0));
        }
        let mut i: usize = 0;
        while i < m
            invariant
                0 <= dt <= MAX_STEP,
                i <= m,
                m == old(self).player_projectiles@.len(),
                moved == moved_all(old(self).player_projectiles@, dt as int),
                self.player_projectiles@.len() == m,
                forall|j: int| i <= j < m ==> self.player_projectiles@[j] == old(self).player_projectiles@[j],
                forall|j: int| 0 <= j < m ==> (#[trigger] old(self).player_projectiles@[j]).wf(),
                forall|j: int| 0 <= j < i ==> self.player_projectiles@[j] == moved[j],
                forall|j: int|
                    0 <= j < i && !index_set(to_remove@).contains(j) ==> entity_distance_sq(
                        &#[trigger] self.player_projectiles@[j],
                        &old(self).player,
                    ) <= PLAYER_SHOT_RANGE_SQ,
                forall|k: int| 0 <= k < to_remove@.len() ==> to_remove@[k] < i,
                e0 == old(self).enemies@,
                x0 == old(self).explosions@,
                marks0 == old(enemies_to_remove)@,
                forall|j: int| 0 <= j < e0.len() ==> enemy_near(#[trigger] e0[j]),
                only_damaged(e0, self.enemies@),
                forall|j: int| 0 <= j < e0.len() ==> enemy_near(#[trigger] self.enemies@[j]),
                kills <= i,
                volley(moved.subrange(0, i as int), e0, old(self).player.spec_x(), old(self).player.spec_y()).0
                    == self.enemies@,
                self.explosions@ == x0 + volley(
                    moved.subrange(0, i as int),
                    e0,
                    old(self).player.spec_x(),
                    old(self).player.spec_y(),
                ).1,
                kills == volley(
                    moved.subrange(0, i as int),
                    e0,
                    old(self).player.spec_x(),
                    old(self).player.spec_y(),
                ).1.len(),
                kept(self.player_projectiles@.subrange(0, i as int), index_set(to_remove@)) == volley(
                    moved.subrange(0, i as int),
                    e0,
                    old(self).player.spec_x(),
                    old(self).player.spec_y(),
                ).2,
                self.score == score_plus(old(self).score as int, KILL_BONUS * kills),
                self.explosions@.len() == x0.len() + kills,
                self.explosions@.subrange(0, x0.len() as int) == x0,
                forall|k: int|
                    x0.len() <= k < self.explosions@.len() ==> (#[trigger] self.explosions@[k]).time_remaining
                        == EXPLOSION_TIME,
                forall|k: int| 0 <= k < enemies_to_remove@.len() ==> enemies_to_remove@[k] < e0.len(),
                forall|j: int| index_set(marks0).contains(j) ==> index_set(enemies_to_remove@).contains(j),
                forall|j: int|
                    0 <= j < e0.len() && index_set(enemies_to_remove@).contains(j) ==> index_set(marks0).contains(j)
                        || self.enemies@[j].health == 0,
                forall|j: int|
                    0 <= j < e0.len() && e0[j].health > 0 && #[trigger] self.enemies@[j].health == 0
                        ==> index_set(enemies_to_remove@).contains(j),
                self.game_speed == old(self).game_speed,
                self.player == old(self).player,
                self.spawn_timer == old(self).spawn_timer,
                self.score_timer == old(self).score_timer,
                self.projectiles@ == old(self).projectiles@,
                self.clouds@ == old(self).clouds@,
            decreases m - i,
        {
            let mut p = self.player_projectiles[i];
            p.on_update(dt);
            let ghost shots_before = self.player_projectiles@;
            self.player_projectiles.set(i, p);
            let ghost before_marks = to_remove@;
            let ghost vb = volley(moved.subrange(0, i as int), e0, old(self).player.spec_x(), old(self).player.spec_y());
            assert(self.player_projectiles@.subrange(0, i as int) == shots_before.subrange(0, i as int));
            proof {
                let pre = moved.subrange(0, i as int + 1);
                assert(pre.drop_last() == moved.subrange(0, i as int));
                assert(pre.last() == p);
            }
            if distance(&p, &self.player) > PLAYER_SHOT_RANGE_SQ {
                to_remove.push(i);
                assert(volley(moved.subrange(0, i as int + 1), e0, old(self).player.spec_x(), old(self).player.spec_y()).2 == vb.2);
            } else {
                let ghost eb = self.enemies@;
                let ghost xb = self.explosions@;
                let ghost mb = enemies_to_remove@;
                let ghost sb = self.score;
                let struck = self.strike(&p, enemies_to_remove);
                if struck.0 {
                    to_remove.push(i);
                }
                proof {
                    lemma_only_damaged_trans(e0, eb, self.enemies@);
                    assert forall|j: int| 0 <= j < e0.len() implies enemy_near(#[trigger] self.enemies@[j]) by {
                        assert(self.enemies@[j] == Enemy { health: self.enemies@[j].health, ..eb[j] });
                        assert(enemy_near(eb[j]));
                    }
                    assert forall|k: int| x0.len() <= k < self.explosions@.len() implies (
                        #[trigger] self.explosions@[k]).time_remaining == EXPLOSION_TIME by {
                        if k < xb.len() {
                            assert(self.explosions@[k] == self.explosions@.subrange(0, xb.len() as int)[k]);
                        }
                    }
                    assert(self.explosions@.subrange(0, x0.len() as int) == self.explosions@.subrange(
                        0,
                        xb.len() as int,
                    ).subrange(0, x0.len() as int));
                    assert forall|j: int|
                        0 <= j < e0.len() && e0[j].health > 0 && #[trigger] self.enemies@[j].health == 0
                            implies index_set(enemies_to_remove@).contains(j) by {
                        if eb[j].health == 0 {
                            assert(index_set(mb).contains(j));
                        }
                    }
                    if struck.1 {
                        assert(kills + 1 <= i + 1);
                    }
                    let v = volley(moved.subrange(0, i as int), e0, old(self).player.spec_x(), old(self).player.spec_y());
                    assert(v.0 == eb);
                    assert(xb == x0 + v.1);
                    if struck.1 {
                        assert(self.explosions@ == x0 + v.1.push(
                            explosion_at(self.enemies@[strike_from(p, eb, 0).2.unwrap()]),
                        ));
                    }
                }
                if struck.1 {
                    kills = kills + 1;
                }
                assert(volley(moved.subrange(0, i as int + 1), e0, old(self).player.spec_x(), old(self).player.spec_y()).2 == if to_remove@.len() > before_marks.len() {
                    vb.2
                } else {
                    vb.2.push(p)
                });
            }
            proof {
                let sp = self.player_projectiles@.subrange(0, i as int + 1);
                assert(sp.drop_last() == self.player_projectiles@.subrange(0, i as int));
                assert(sp.last() == p);
                assert(to_remove@.len() <= before_marks.len() + 1);
                assert(forall|k: int| 0 <= k < before_marks.len() ==> to_remove@[k] == before_marks[k]);
                assert(to_remove@.len() > before_marks.len() ==> to_remove@[before_marks.len() as int] == i);
                assert forall|j: int| 0 <= j < i implies (index_set(to_remove@).contains(j) <==> index_set(
                    before_marks,
                ).contains(j)) by {
                    if index_set(to_remove@).contains(j) {
                        let k = choose|k: int| 0 <= k < to_remove@.len() && to_remove@[k] as int == j;
                        assert(k < before_marks.len());
                    }
                    if index_set(before_marks).contains(j) {
                        let k = choose|k: int| 0 <= k < before_marks.len() && before_marks[k] as int == j;
                        assert(to_remove@[k] == before_marks[k]);
                    }
                }
                lemma_kept_agree(
                    self.player_projectiles@.subrange(0, i as int),
                    index_set(to_remove@),
                    index_set(before_marks),
                );
                if to_remove@.len() > before_marks.len() {
                    assert(index_set(to_remove@).contains(i as int));
                } else {
                    assert(to_remove@ == before_marks);
                    assert(!index_set(before_marks).contains(i as int));
                }
                assert forall|j: int|
                    0 <= j <= i && !index_set(to_remove@).contains(j) implies entity_distance_sq(
                        &#[trigger] self.player_projectiles@[j],
                        &old(self).player,
                    ) <= PLAYER_SHOT_RANGE_SQ by {
                    if j < i {
                        if index_set(before_marks).contains(j) {
                            let k = choose|k: int| 0 <= k < before_marks.len() && before_marks[k] as int == j;
                            assert(to_remove@[k] == before_marks[k]);
                        }
                    } else if entity_distance_sq(&p, &old(self).player) > PLAYER_SHOT_RANGE_SQ {
                        assert(to_remove@[to_remove@.len() - 1] == i);
                    }
                }
                assert forall|k: int| 0 <= k < to_remove@.len() implies to_remove@[k] < i + 1 by {
                    if k < before_marks.len() {
                        assert(to_remove@[k] == before_marks[k]);
                    }
                }
            }
            i = i + 1;
        }
        assert(moved.subrange(0, m as int) == moved);
        assert(self.player_projectiles@.subrange(0, m as int) == self.player_projectiles@);
        (to_remove, kills)
    }

    /// Counts every explosion down and returns the indices of those that
    /// burnt out.
    fn update_explosions(&mut self, dt: i64) -> (to_remove: Vec<usize>)
        requires
            forall|i: int|
                0 <= i < old(self).explosions@.len() ==> 0 < (#[trigger] old(self).explosions@[i]).time_remaining
                    <= EXPLOSION_TIME,
            0 <= dt <= MAX_STEP,
        ensures
            final(self).explosions@.len() == old(self).explosions@.len(),
            forall|i: int|
                0 <= i < final(self).explosions@.len() ==> #[trigger] final(self).explosions@[i] == (Explosion {
                    time_remaining: (old(self).explosions@[i].time_remaining - dt) as i64,
                    ..old(self).explosions@[i]
                }),
            forall|i: int|
                0 <= i < final(self).explosions@.len() ==> (index_set(to_remove@).contains(i) <==> !(
                #[trigger] final(self).explosions@[i].time_remaining > 0)),
            final(self).score == old(self).score,
            final(self).game_speed == old(self).game_speed,
            final(self).player == old(self).player,
            final(self).spawn_timer == old(self).spawn_timer,
            final(self).score_timer == old(self).score_timer,
            final(self).enemies@ == old(self).enemies@,
            final(self).projectiles@ == old(self).projectiles@,
            final(self).player_projectiles@ == old(self).player_projectiles@,
            final(self).clouds@ == old(self).clouds@,
    {
        let mut to_remove: Vec<usize> = Vec::new();
        let n = self.explosions.len();
        let mut i: usize = 0;
        while i < n
            invariant
                0 <= dt <= MAX_STEP,
                i <= n,
                n == old(self).explosions@.len(),
                self.explosions@.len() == n,
                forall|j: int| i <= j < n ==> self.explosions@[j] == old(self).explosions@[j],
                forall|j: int|
                    0 <= j < n ==> 0 < (#[trigger] old(self).explosions@[j]).time_remaining <= EXPLOSION_TIME,
                forall|j: int|
                    0 <= j < i ==> #[trigger] self.explosions@[j] == (Explosion {
                        time_remaining: (old(self).explosions@[j].time_remaining - dt) as i64,
                        ..old(self).explosions@[j]
                    }),
                forall|j: int|
                    0 <= j < i ==> (index_set(to_remove@).contains(j) <==> !(
                    #[trigger] self.explosions@[j].time_remaining > 0)),
                forall|k: int| 0 <= k < to_remove@.len() ==> to_remove@[k] < i,
                self.score == old(self).score,
                self.game_speed == old(self).game_speed,
                self.player == old(self).player,
                self.spawn_timer == old(self).spawn_timer,
                self.score_timer == old(self).score_timer,
                self.enemies@ == old(self).enemies@,
                self.projectiles@ == old(self).projectiles@,
                self.player_projectiles@ == old(self).player_projectiles@,
                self.clouds@ == old(self).clouds@,
            decreases n - i,
        {
            let mut x = self.explosions[i];
            x.on_update(dt);
            self.explosions.set(i, x);
            let ghost before_marks = to_remove@;
            if !x.alive() {
                to_remove.push(i);
            }
            proof {
                assert forall|j: int| 0 <= j <= i implies (index_set(to_remove@).contains(j) <==> !(
                #[trigger] self.explosions@[j].time_remaining > 0)) by {
                    if index_set(to_remove@).contains(j) {
                        let k = choose|k: int| 0 <= k < to_remove@.len() && to_remove@[k] as int == j;
                        if k < before_marks.len() {
                            assert(before_marks[k] == to_remove@[k]);
                        }
                    }
                    if index_set(before_marks).contains(j) {
                        let k = choose|k: int| 0 <= k < before_marks.len() && before_marks[k] as int == j;
                        assert(to_remove@[k] == before_marks[k]);
                    }
                    if j == i && x.time_remaining <= 0 {
                        assert(to_remove@[to_remove@.len() - 1] == i);
                    }
                }
                assert(!index_set(before_marks).contains(i as int));
            }
            i = i + 1;
        }
        to_remove
    }

    /// One frame of play, with the horizontal position at which an enemy
    /// appears should the spawn timer run out.
    ///
    /// In order: quit ends the frame at once; whole seconds of game time
    /// score a point each; the spawn timer runs; clouds, enemies and enemy
    /// shots move, enemies fire and shots strike the player; a dead player
    /// ends the game with the score so far; the player moves and fires; player
    /// shots strike enemies, each kill scoring the bonus; explosions burn;
    /// finally everything marked is removed, each element at most once.
    #[verifier::rlimit(100)]
    pub fn step(&mut self, input: &FrameInput, spawn_x: i64) -> (r: FrameReport)
        requires
            old(self).wf(),
            0 <= input.elapsed_us <= MAX_ELAPSED,
            -WALK_AREA_MAX_X <= spawn_x < WALK_AREA_MAX_X,
        ensures
            input.quit ==> r == (FrameReport { change: SceneChange::Quit, kills: 0 }) && *final(self) == *old(self),
            !input.quit ==> frame_outcome(*old(self), *final(self), *input, spawn_x, r),
    {
        if input.quit {
            return FrameReport { change: SceneChange::Quit, kills: 0 };
        }
        let dt = input.elapsed_us * self.game_speed;
        let ghost g0 = *self;

        let acc = self.score_timer + dt;
        let seconds = acc / UNIT;
        self.score = self.score.saturating_add(seconds as u64);
        self.score_timer = acc % UNIT;

        self.spawn_timer = self.spawn_timer - dt;
        if self.spawn_timer < 0 {
            self.spawn_timer = SPAWN_INTERVAL;
            self.enemies.push(Enemy::spawn_at(ENEMY_SPEED, spawn_x));
        }
        proof {
            assert(self.enemies@ == g0.enemies_with_spawn(dt as int, spawn_x));
            assert forall|j: int| 0 <= j < self.enemies@.len() implies enemy_kept(#[trigger] self.enemies@[j]) by {
                if j < g0.enemies@.len() {
                    assert(self.enemies@[j] == g0.enemies@[j]);
                }
            }
        }

        self.update_clouds(dt);
        let ghost g1 = *self;
        let mut enemies_to_remove = self.update_enemies(dt);
        let ghost g2 = *self;
        proof {
            assert(moved_enemies(g1.enemies@, dt as int) == moved_enemies(g0.enemies_with_spawn(dt as int, spawn_x), dt as int));
        }
        let projectiles_to_remove = self.update_enemy_projectiles(dt);
        proof {
            assert(g2.projectiles@ == g0.projectiles@ + fired_shots(
                moved_enemies(g0.enemies_with_spawn(dt as int, spawn_x), dt as int),
                g0.player,
            ));
        }

        proof {
            assert(dt as int == frame_time(*input));
            lemma_count_hits_nonneg(g0.enemy_shots_moved(dt as int, spawn_x), g0.player);
            assert(g2.player == g0.player);
            assert(moved_all(g2.projectiles@, dt as int) == g0.enemy_shots_moved(dt as int, spawn_x));
            assert(self.player.health as int == g0.health_after_shots(dt as int, spawn_x));
        }
        if !self.player.alive() {
            return FrameReport { change: SceneChange::GameOver(self.score), kills: 0 };
        }

        let ghost g3 = *self;
        self.player.on_update(input.controls, dt);
        if self.player.can_shoot() {
            let px = self.player.x();
            let py = self.player.y();
            proof {
                lemma_pixel_range(self.player.position_x as int);
                lemma_pixel_range(self.player.position_y as int);
            }
            self.player_projectiles.push(
                Projectile::new(PLAYER_SHOT_SPEED, 0, crate::entity::DIRECTION_ONE, px - 10, py, SHOT_YELLOW),
            );
            self.player_projectiles.push(
                Projectile::new(PLAYER_SHOT_SPEED, 0, crate::entity::DIRECTION_ONE, px + 10, py, SHOT_YELLOW),
            );
            self.player.reset_shoot_interval();
        }
        proof {
            assert forall|j: int| 0 <= j < self.player_projectiles@.len() implies (
                #[trigger] self.player_projectiles@[j]).wf() by {
                if j < g3.player_projectiles@.len() {
                    assert(self.player_projectiles@[j] == g3.player_projectiles@[j]);
                }
            }
            assert forall|j: int| 0 <= j < self.enemies@.len() implies enemy_near(#[trigger] self.enemies@[j]) by {
                assert(enemy_near(g2.enemies@[j]));
            }
        }
        let ghost g4 = *self;
        let ghost marks4 = enemies_to_remove@;
        let (player_projectiles_to_remove, kills) = self.update_player_projectiles(dt, &mut enemies_to_remove);
        let ghost g5 = *self;
        proof {
            assert forall|k: int| 0 <= k < g5.explosions@.len() implies 0 < (#[trigger] g5.explosions@[k]).time_remaining
                <= EXPLOSION_TIME by {
                if k < g4.explosions@.len() {
                    assert(g5.explosions@[k] == g5.explosions@.subrange(0, g4.explosions@.len() as int)[k]);
                    assert(g4.explosions@ == g0.explosions@);
                }
            }
        }
        let explosions_to_remove = self.update_explosions(dt);
        let ghost g6 = *self;

        let mut enemies: Vec<Enemy> = Vec::new();
        std::mem::swap(&mut self.enemies, &mut enemies);
        self.enemies = remove_indices(enemies, &enemies_to_remove);
        let mut projectiles: Vec<Projectile> = Vec::new();
        std::mem::swap(&mut self.projectiles, &mut projectiles);
        self.projectiles = remove_indices(projectiles, &projectiles_to_remove);
        let mut player_projectiles: Vec<Projectile> = Vec::new();
        std::mem::swap(&mut self.player_projectiles, &mut player_projectiles);
        self.player_projectiles = remove_indices(player_projectiles, &player_projectiles_to_remove);
        let mut explosions: Vec<Explosion> = Vec::new();
        std::mem::swap(&mut self.explosions, &mut explosions);
        self.explosions = remove_indices(explosions, &explosions_to_remove);

        proof {
            let pl0 = g0.player;
            let em = index_set(enemies_to_remove@);
            assert forall|j: int| 0 <= j < g6.enemies@.len() && !em.contains(j) implies #[trigger] enemy_kept(
                g6.enemies@[j],
            ) && enemy_in_bounds(g6.enemies@[j]) by {
                let e1 = g1.enemies@[j];
                let e2 = g2.enemies@[j];
                let e6 = g6.enemies@[j];
                assert(g4.enemies@ == g2.enemies@);
                assert(g5.enemies@ == g6.enemies@);
                assert(!index_set(marks4).contains(j));
                if e6.health == 0 {
                    assert(em.contains(j));
                }
                lemma_enemy_survives(e1, e2, e6, dt as int);
            }
            lemma_kept_all(g6.enemies@, em, |e: Enemy| enemy_kept(e) && enemy_in_bounds(e));

            let pm = index_set(projectiles_to_remove@);
            assert forall|j: int| 0 <= j < g6.projectiles@.len() && !pm.contains(j) implies #[trigger] enemy_shot_stays(
                g6.projectiles@[j],
                pl0,
            ) && g6.projectiles@[j].wf() by {
                let p = g6.projectiles@[j];
                assert(g2.projectiles@[j].wf());
                assert(p == g2.projectiles@[j].moved(dt as int));
                lemma_close_shot(p, pl0, 300);
            }
            lemma_kept_all(g6.projectiles@, pm, |p: Projectile| enemy_shot_stays(p, pl0) && p.wf());
            assert(g6.projectiles@ == g0.enemy_shots_moved(dt as int, spawn_x));
            lemma_kept_retained(g6.projectiles@, pm, |p: Projectile| enemy_shot_stays(p, pl0));

            let qm = index_set(player_projectiles_to_remove@);
            assert forall|j: int| 0 <= j < g6.player_projectiles@.len() && !qm.contains(j) implies (
            #[trigger] g6.player_projectiles@[j]).wf() by {
                let p = g6.player_projectiles@[j];
                assert(g4.player_projectiles@[j].wf());
                assert(p == g4.player_projectiles@[j].moved(dt as int));
                lemma_close_shot(p, g4.player, 400);
            }
            lemma_kept_all(g6.player_projectiles@, qm, |p: Projectile| p.wf());

            let xm = index_set(explosions_to_remove@);
            assert forall|j: int| 0 <= j < g6.explosions@.len() && !xm.contains(j) implies 0 < (
            #[trigger] g6.explosions@[j]).time_remaining <= EXPLOSION_TIME by {
                assert(0 < g5.explosions@[j].time_remaining <= EXPLOSION_TIME);
            }
            lemma_kept_all(g6.explosions@, xm, |x: Explosion| 0 < x.time_remaining <= EXPLOSION_TIME);

            let kept_enemies = kept(g6.enemies@, em);
            assert forall|j: int| 0 <= j < self.enemies@.len() implies enemy_kept(#[trigger] self.enemies@[j]) by {
                assert((|e: Enemy| enemy_kept(e) && enemy_in_bounds(e))(kept_enemies[j]));
            }
            assert forall|j: int| 0 <= j < self.enemies@.len() implies enemy_in_bounds(#[trigger] self.enemies@[j]) by {
                assert((|e: Enemy| enemy_kept(e) && enemy_in_bounds(e))(kept_enemies[j]));
            }
            let kept_shots = kept(g6.projectiles@, pm);
            assert forall|j: int| 0 <= j < self.projectiles@.len() implies (#[trigger] self.projectiles@[j]).wf()
                && enemy_shot_stays(self.projectiles@[j], pl0) by {
                assert((|p: Projectile| enemy_shot_stays(p, pl0) && p.wf())(kept_shots[j]));
            }
            let kept_player_shots = kept(g6.player_projectiles@, qm);
            assert forall|j: int| 0 <= j < self.player_projectiles@.len() implies (
            #[trigger] self.player_projectiles@[j]).wf() by {
                assert((|p: Projectile| p.wf())(kept_player_shots[j]));
            }
            let kept_explosions = kept(g6.explosions@, xm);
            assert forall|j: int| 0 <= j < self.explosions@.len() implies 0 < (
            #[trigger] self.explosions@[j]).time_remaining <= EXPLOSION_TIME by {
                assert((|x: Explosion| 0 < x.time_remaining <= EXPLOSION_TIME)(kept_explosions[j]));
            }
            assert(g4.enemies@ =~= g0.enemies_after_fire(dt as int, spawn_x));
            assert(g4.player_projectiles@ =~= g0.player_projectiles@ + fresh_player_shots(
                g0.player.moved(input.controls, dt as int),
            ));
            assert(g4.player.spec_x() == g0.player.moved(input.controls, dt as int).spec_x());
            assert(g4.player.spec_y() == g0.player.moved(input.controls, dt as int).spec_y());
            let v = g0.volley_result(input.controls, dt as int, spawn_x);
            assert(g5.enemies@ == v.0);
            assert forall|j: int| 0 <= j < g6.enemies@.len() implies (em.contains(j) <==> !(
            #[trigger] g6.enemies@[j].health > 0 && enemy_in_bounds(g6.enemies@[j]))) by {
                let e2 = g2.enemies@[j];
                let e6 = g6.enemies@[j];
                assert(e6 == Enemy { health: e6.health, ..e2 });
                assert(index_set(marks4).contains(j) <==> !enemy_in_bounds(e2));
                if em.contains(j) && !index_set(marks4).contains(j) {
                    assert(e6.health == 0);
                }
                if !em.contains(j) {
                    assert(enemy_kept(e6) && enemy_in_bounds(e6));
                }
            }
            lemma_kept_retained(g6.enemies@, em, |e: Enemy| e.health > 0 && enemy_in_bounds(e));
            assert(g5.explosions@ == g0.explosions@ + v.1);
            assert(g6.explosions@ =~= burnt(g5.explosions@, dt as int));
            lemma_kept_retained(g6.explosions@, xm, |x: Explosion| x.time_remaining > 0);
            assert(g5.player_projectiles@ == g6.player_projectiles@);
            assert(self.player_projectiles@ == v.2);
            assert(self.wf());
            assert(self.score == score_plus(g0.score_after_time(dt as int), KILL_BONUS * kills));
            assert(self.player.health == g0.health_after_shots(dt as int, spawn_x));
            assert(self.player.position_x == g0.player.moved(input.controls, dt as int).position_x);
            assert(self.clouds@.len() == g0.clouds@.len());
        }
        FrameReport { change: SceneChange::Stay, kills }
    }

    /// One frame of play; should an enemy appear, its horizontal position is
    /// drawn at random within the arena.
    pub fn on_update(&mut self, input: &FrameInput) -> (r: FrameReport)
        requires
            old(self).wf(),
            0 <= input.elapsed_us <= MAX_ELAPSED,
        ensures
            input.quit ==> r == (FrameReport { change: SceneChange::Quit, kills: 0 }) && *final(self) == *old(self),
            !input.quit ==> exists|sx: i64|
                -WALK_AREA_MAX_X <= sx < WALK_AREA_MAX_X && frame_outcome(*old(self), *final(self), *input, sx, r),
            r.change == SceneChange::Stay ==> final(self).wf(),
            final(self).score >= old(self).score,
    {
        if input.quit {
            return FrameReport { change: SceneChange::Quit, kills: 0 };
        }
        let spawn_x = random_in_range(-WALK_AREA_MAX_X, WALK_AREA_MAX_X);
        let r = self.step(input, spawn_x);
        proof {
            lemma_score_never_decreases(
                old(self).score as int,
                old(self).score_timer as int,
                frame_time(*input),
                r.kills as int,
            );
            assert(-WALK_AREA_MAX_X <= spawn_x < WALK_AREA_MAX_X && frame_outcome(
                *old(self),
                *self,
                *input,
                spawn_x,
                r,
            ));
        }
        r
    }
}

/// `a + b` held at the largest `u64` is at least `a`, and is `a + b` when
/// that fits.
pub proof fn lemma_score_plus(a: int, b: int)
    requires
        0 <= a <= u64::MAX,
        0 <= b,
    ensures
        score_plus(a, b) >= a,
        a + b <= u64::MAX ==> score_plus(a, b) == a + b,
{
}

/// Score never decreases over a frame: it grows by one for each whole second
/// of game time counted and by the kill bonus for each enemy destroyed, up to
/// the largest `u64`.
pub proof fn lemma_score_never_decreases(score: int, score_timer: int, dt: int, kills: int)
    requires
        0 <= score <= u64::MAX,
        0 <= score_timer < UNIT,
        0 <= dt,
        0 <= kills,
    ensures
        score_plus(score_plus(score, (score_timer + dt) / UNIT as int), KILL_BONUS * kills) >= score,
        score + (score_timer + dt) / UNIT as int + KILL_BONUS * kills <= u64::MAX ==> score_plus(
            score_plus(score, (score_timer + dt) / UNIT as int),
            KILL_BONUS * kills,
        ) == score + (score_timer + dt) / UNIT as int + KILL_BONUS * kills,
{
    let s = (score_timer + dt) / UNIT as int;
    assert(s >= 0) by {
        vstd::arithmetic::div_mod::lemma_div_pos_is_pos(score_timer + dt, UNIT as int);
    }
    lemma_score_plus(score, s);
    lemma_score_plus(score_plus(score, s), KILL_BONUS * kills);
}

/// Seconds are counted from game time accumulated across frames: two frames
/// of `a` and then `b` count as many whole seconds, and leave the same
/// remainder, as one frame of `a + b`.
pub proof fn lemma_seconds_accumulate(t: int, a: int, b: int)
    requires
        0 <= t < UNIT,
        0 <= a,
        0 <= b,
    ensures
        (t + a) / UNIT as int + ((t + a) % UNIT as int + b) / UNIT as int == (t + a + b) / UNIT as int,
        ((t + a) % UNIT as int + b) % UNIT as int == (t + a + b) % UNIT as int,
{
    let u = UNIT as int;
    let q = (t + a) / u;
    let m = (t + a) % u;
    vstd::arithmetic::div_mod::lemma_fundamental_div_mod(t + a, u);
    assert(t + a + b == q * u + (m + b));
    vstd::arithmetic::div_mod::lemma_mod_bound(t + a, u);
    vstd::arithmetic::div_mod::lemma_div_pos_is_pos(t + a, u);
    vstd::arithmetic::div_mod::lemma_hoist_over_denominator(m + b, q, u as nat);
    assert((m + b) + q * u == t + a + b) by (nonlinear_arith)
        requires
            t + a + b == q * u + (m + b),
    ;
    vstd::arithmetic::div_mod::lemma_mod_multiples_vanish(q, m + b, u);
    assert(u * q + (m + b) == t + a + b) by (nonlinear_arith)
        requires
            t + a + b == q * u + (m + b),
    ;
}

} // verus!
