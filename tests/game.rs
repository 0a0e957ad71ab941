use sky_combat::cloud::{Cloud, CloudPillow};
use sky_combat::enemy::{Behaviour, Enemy, ENEMY_SHOOT_INTERVAL, ENEMY_SPAWN_Y};
use sky_combat::entity::{aim, distance, intersects, isqrt, pixel_of, Entity, UNIT};
use sky_combat::explosion::{Explosion, EXPLOSION_TIME};
use sky_combat::game::{FrameInput, Game, SPAWN_INTERVAL, WALK_AREA_MAX_X, WALK_AREA_MAX_Y};
use sky_combat::game_over::{GameOver, SceneChange};
use sky_combat::player::{Controls, Player, PLAYER_SHOOT_INTERVAL};
use sky_combat::projectile::{Projectile, SHOT_RED, SHOT_YELLOW};
use sky_combat::removal::remove_indices;

fn no_keys() -> Controls {
    Controls { up: false, down: false, left: false, right: false }
}

fn frame(elapsed_us: i64) -> FrameInput {
    FrameInput { quit: false, controls: no_keys(), elapsed_us }
}

fn quiet_enemy(x: i64, y: i64, health: u8) -> Enemy {
    let mut e = Enemy::spawn_at(5, x * UNIT);
    e.position_y = y * UNIT;
    e.health = health;
    e
}

fn shot_at(x: i64, y: i64) -> Projectile {
    Projectile::new(30, 0, 1000, x, y, SHOT_YELLOW)
}

#[test]
fn enemy_shot_on_player_takes_one_health() {
    let mut game = Game::new();
    assert_eq!(game.player.x(), 0);
    assert_eq!(game.player.y(), 25);
    assert_eq!(game.player.health(), 3);
    game.projectiles.push(Projectile::new(10, 0, -1000, 0, 25, SHOT_RED));
    let r = game.step(&frame(0), 0);
    assert_eq!(r.change, SceneChange::Stay);
    assert_eq!(game.player.health(), 2);
    assert!(game.projectiles.is_empty());
}

#[test]
fn enemy_killed_by_five_shots_scores_once() {
    let mut game = Game::new();
    let mut e = quiet_enemy(40, 100, 5);
    e.shoot_timer = ENEMY_SHOOT_INTERVAL;
    game.enemies.push(e);
    for k in 0..5 {
        game.player_projectiles.push(shot_at(40, 100));
        let r = game.step(&frame(0), 0);
        assert_eq!(r.change, SceneChange::Stay);
        if k < 4 {
            assert_eq!(game.enemies.len(), 1);
            assert_eq!(game.enemies[0].health, 4 - k as u8);
            assert_eq!(r.kills, 0);
        } else {
            assert_eq!(r.kills, 1);
        }
        assert!(game.player_projectiles.is_empty());
    }
    assert!(game.enemies.is_empty());
    assert_eq!(game.score, 100);
    assert_eq!(game.explosions.len(), 1);
    assert_eq!(game.explosions[0].x(), 40);
    assert_eq!(game.explosions[0].y(), 100);
}

#[test]
fn cloud_past_the_top_wraps_to_the_bottom() {
    let mut cloud = Cloud::new(10, -19, 2, vec![CloudPillow::new(3, -4)]);
    cloud.on_update(UNIT);
    assert_eq!(cloud.position_y, 256 * UNIT + 20 * UNIT);
    assert_eq!(cloud.y(), 276);
    assert_eq!(cloud.x(), 10);
    assert_eq!(cloud.cloud_pillows.len(), 1);
}

#[test]
fn cloud_still_in_view_keeps_scrolling() {
    let mut cloud = Cloud::new(0, -17, 2, vec![]);
    cloud.on_update(UNIT);
    assert_eq!(cloud.position_y, -19 * UNIT);
    cloud.on_update(UNIT / 2);
    assert_eq!(cloud.position_y, -20 * UNIT);
    cloud.on_update(1);
    assert_eq!(cloud.position_y, 276 * UNIT);
}

#[test]
fn dead_player_ends_the_game_with_its_score() {
    let mut game = Game::new();
    game.player.health = 1;
    game.score = 42;
    game.projectiles.push(Projectile::new(10, 1000, 0, 1, 25, SHOT_RED));
    game.player_projectiles.push(shot_at(50, 50));
    let r = game.step(&frame(0), 0);
    assert_eq!(r.change, SceneChange::GameOver(42));
    assert_eq!(r.kills, 0);
    assert_eq!(game.player.health(), 0);
    assert!(!game.player.alive());
}

#[test]
fn game_over_scene_choices() {
    let over = GameOver::new(7);
    assert_eq!(over.score, 7);
    assert_eq!(over.on_update(true, true), SceneChange::NewGame);
    assert_eq!(over.on_update(false, true), SceneChange::Quit);
    assert_eq!(over.on_update(false, false), SceneChange::Stay);
}

#[test]
fn hit_test_is_symmetric() {
    let p = Player::new();
    let near = Projectile::new(10, 0, 0, 4, 25, SHOT_RED);
    let far = Projectile::new(10, 0, 0, 5, 25, SHOT_RED);
    assert!(intersects(&p, &near));
    assert!(intersects(&near, &p));
    assert!(!intersects(&p, &far));
    assert!(!intersects(&far, &p));
    assert!(intersects(&p, &p));
    let x = Explosion::new(3, 4);
    assert!(!intersects(&x, &x));
    let c = Cloud::new(3, 4, 2, vec![]);
    assert!(!intersects(&c, &x));
}

#[test]
fn distance_is_squared_euclidean() {
    let a = Explosion::new(0, 0);
    let b = Explosion::new(3, -4);
    assert_eq!(distance(&a, &b), 25);
    assert_eq!(distance(&b, &a), 25);
}

#[test]
fn pixel_coordinates_round_toward_zero() {
    assert_eq!(pixel_of(1_999_999), 1);
    assert_eq!(pixel_of(-1_999_999), -1);
    assert_eq!(pixel_of(-1), 0);
    assert_eq!(pixel_of(i64::MIN), i64::MIN / UNIT);
}

#[test]
fn aiming_gives_unit_directions() {
    assert_eq!(aim(3, 4), (600, 800));
    assert_eq!(aim(-3, -4), (-600, -800));
    assert_eq!(aim(0, 0), (1000, 0));
    assert_eq!(aim(0, -75), (0, -1000));
    assert_eq!(isqrt(24), 4);
    assert_eq!(isqrt(25), 5);
    assert_eq!(isqrt(0), 0);
}

#[test]
fn player_timer_counts_down_to_firing() {
    let mut p = Player::new();
    assert_eq!(p.shoot_timer, PLAYER_SHOOT_INTERVAL);
    p.on_update(no_keys(), 400_000);
    p.on_update(no_keys(), 400_000);
    assert_eq!(p.shoot_timer, 200_000);
    assert!(!p.can_shoot());
    p.on_update(no_keys(), 400_000);
    assert_eq!(p.shoot_timer, -200_000);
    assert!(p.can_shoot());
    p.reset_shoot_interval();
    assert!(!p.can_shoot());
    assert_eq!(p.shoot_timer, PLAYER_SHOOT_INTERVAL);
}

#[test]
fn enemy_timer_counts_down_and_moves() {
    let mut e = Enemy::spawn_at(5, -10 * UNIT);
    assert_eq!(e.behaviour, Behaviour::FlyL2R);
    assert_eq!(e.position_y, ENEMY_SPAWN_Y);
    e.on_update(UNIT);
    assert_eq!(e.shoot_timer, ENEMY_SHOOT_INTERVAL - UNIT);
    assert_eq!(e.position_y, ENEMY_SPAWN_Y - 5 * UNIT);
    assert_eq!(e.position_x, -10 * UNIT + 5 * UNIT / 2);
    let mut f = Enemy::spawn_at(5, 0);
    assert_eq!(f.behaviour, Behaviour::FlyR2L);
    f.on_update(UNIT);
    assert_eq!(f.position_x, -5 * UNIT / 2);
    for _ in 0..9 {
        f.on_update(UNIT);
    }
    assert!(!f.can_shoot());
    f.on_update(1);
    assert!(f.can_shoot());
    f.reset_shoot_interval();
    assert!(!f.can_shoot());
}

#[test]
fn enemy_damage_stops_at_zero() {
    let mut e = quiet_enemy(0, 100, 1);
    assert!(e.alive());
    e.damage();
    assert_eq!(e.health, 0);
    assert!(!e.alive());
    e.damage();
    assert_eq!(e.health, 0);
    let mut p = Player::new();
    p.health = 0;
    p.damage();
    assert_eq!(p.health(), 0);
}

#[test]
fn random_enemy_spawns_within_the_arena() {
    let mut seen = Vec::new();
    for _ in 0..20 {
        let e = Enemy::new(5);
        assert!(-WALK_AREA_MAX_X <= e.position_x && e.position_x < WALK_AREA_MAX_X);
        assert_eq!(e.behaviour == Behaviour::FlyL2R, e.position_x < 0);
        assert_eq!(e.health, 5);
        seen.push(e.position_x);
    }
    assert!(seen.iter().any(|x| *x != seen[0]));
}

#[test]
fn score_counts_whole_seconds_of_game_time() {
    let mut game = Game::new();
    game.step(&frame(50_000), 0);
    assert_eq!(game.score, 0);
    assert_eq!(game.score_timer, UNIT / 2);
    game.step(&frame(50_000), 0);
    assert_eq!(game.score, 1);
    assert_eq!(game.score_timer, 0);
    game.step(&frame(250_000), 0);
    assert_eq!(game.score, 3);
    assert_eq!(game.score_timer, UNIT / 2);
}

#[test]
fn score_saturates_at_the_top() {
    let mut game = Game::new();
    game.score = u64::MAX - 1;
    game.step(&frame(300_000), 0);
    assert_eq!(game.score, u64::MAX);
}

#[test]
fn two_shots_at_once_take_two_health() {
    let mut game = Game::new();
    game.projectiles.push(Projectile::new(10, 0, -1000, 0, 25, SHOT_RED));
    game.projectiles.push(Projectile::new(10, 0, -1000, 1, 26, SHOT_RED));
    game.projectiles.push(Projectile::new(10, 0, -1000, 60, 60, SHOT_RED));
    let r = game.step(&frame(0), 0);
    assert_eq!(r.change, SceneChange::Stay);
    assert_eq!(game.player.health(), 1);
    assert_eq!(game.projectiles.len(), 1);
    assert_eq!(game.projectiles[0].x(), 60);
}

#[test]
fn removal_ignores_repeated_indices() {
    let v = vec![10, 11, 12, 13, 14];
    assert_eq!(remove_indices(v.clone(), &vec![1, 1, 3]), vec![10, 12, 14]);
    assert_eq!(remove_indices(v.clone(), &vec![3, 1]), vec![10, 12, 14]);
    assert_eq!(remove_indices(v.clone(), &vec![]), v);
    assert_eq!(remove_indices(v.clone(), &vec![9]), v);
    assert_eq!(remove_indices(Vec::<u8>::new(), &vec![0]), Vec::<u8>::new());
}

#[test]
fn enemy_beyond_the_side_is_removed_with_the_kill() {
    let mut game = Game::new();
    let mut e = quiet_enemy(0, 100, 1);
    e.position_x = 150 * UNIT;
    game.enemies.push(e);
    game.enemies.push(quiet_enemy(-40, 120, 5));
    game.player_projectiles.push(shot_at(150, 100));
    let r = game.step(&frame(0), 0);
    assert_eq!(r.kills, 1);
    assert_eq!(game.enemies.len(), 1);
    assert_eq!(game.enemies[0].x(), -40);
    assert_eq!(game.explosions.len(), 1);
    assert_eq!(game.score, 100);
}

#[test]
fn enemy_in_band_fires_at_the_player() {
    let mut game = Game::new();
    let mut e = quiet_enemy(0, 100, 5);
    e.shoot_timer = -1;
    game.enemies.push(e);
    game.step(&frame(0), 0);
    assert_eq!(game.projectiles.len(), 1);
    let s = game.projectiles[0];
    assert_eq!((s.dir_x, s.dir_y), (0, -1000));
    assert_eq!((s.x(), s.y()), (0, 100));
    assert_eq!(s.speed, 10);
    assert_eq!(s.color, SHOT_RED);
    assert_eq!(game.enemies[0].shoot_timer, ENEMY_SHOOT_INTERVAL);
}

#[test]
fn enemy_outside_band_holds_fire() {
    let mut game = Game::new();
    let mut e = quiet_enemy(0, 260, 5);
    e.shoot_timer = -1;
    game.enemies.push(e);
    game.step(&frame(0), 0);
    assert!(game.projectiles.is_empty());
    assert_eq!(game.enemies[0].shoot_timer, -1);
}

#[test]
fn enemy_below_the_arena_is_removed() {
    let mut game = Game::new();
    game.enemies.push(quiet_enemy(0, -21, 5));
    game.enemies.push(quiet_enemy(0, -20, 5));
    game.step(&frame(0), 0);
    assert_eq!(game.enemies.len(), 1);
    assert_eq!(game.enemies[0].y(), -20);
}

#[test]
fn shots_out_of_range_vanish() {
    let mut game = Game::new();
    game.projectiles.push(Projectile::new(10, 0, 0, 0, 325, SHOT_RED));
    game.projectiles.push(Projectile::new(10, 0, 0, 0, 326, SHOT_RED));
    game.projectiles.push(Projectile::new(10, 0, 0, 0, -21, SHOT_RED));
    game.player_projectiles.push(shot_at(0, 425));
    game.player_projectiles.push(shot_at(0, 426));
    game.step(&frame(0), 0);
    assert_eq!(game.projectiles.len(), 1);
    assert_eq!(game.projectiles[0].y(), 325);
    assert_eq!(game.player_projectiles.len(), 1);
    assert_eq!(game.player_projectiles[0].y(), 425);
}

#[test]
fn player_fires_two_shots_upward() {
    let mut game = Game::new();
    game.step(&frame(100_001), 0);
    assert_eq!(game.player_projectiles.len(), 2);
    let a = game.player_projectiles[0];
    let b = game.player_projectiles[1];
    assert_eq!((a.x(), b.x()), (-10, 10));
    assert_eq!((a.dir_x, a.dir_y), (0, 1000));
    assert_eq!(a.speed, 30);
    assert_eq!(game.player.shoot_timer, PLAYER_SHOOT_INTERVAL);
}

#[test]
fn player_moves_and_stays_in_the_walk_area() {
    let mut p = Player::new();
    let both = Controls { up: true, down: true, left: true, right: true };
    p.on_update(both, UNIT);
    assert_eq!(p.position_x, 10 * UNIT);
    assert_eq!(p.position_y, 35 * UNIT);
    let left_down = Controls { up: false, down: true, left: true, right: false };
    p.on_update(left_down, 100 * UNIT);
    assert_eq!(p.position_x, -WALK_AREA_MAX_X);
    assert_eq!(p.position_y, 0);
    let right_up = Controls { up: true, down: false, left: false, right: true };
    p.on_update(right_up, 100 * UNIT);
    assert_eq!(p.position_x, WALK_AREA_MAX_X);
    assert_eq!(p.position_y, WALK_AREA_MAX_Y);
}

#[test]
fn spawn_timer_brings_an_enemy() {
    let mut game = Game::new();
    assert_eq!(game.spawn_timer, 2 * SPAWN_INTERVAL);
    game.spawn_timer = 5;
    game.step(&frame(1), -3 * UNIT);
    assert_eq!(game.spawn_timer, SPAWN_INTERVAL);
    assert_eq!(game.enemies.len(), 1);
    assert_eq!(game.enemies[0].behaviour, Behaviour::FlyL2R);
    assert_eq!(game.enemies[0].position_y, ENEMY_SPAWN_Y - 50);
    game.step(&frame(1), 0);
    assert_eq!(game.spawn_timer, SPAWN_INTERVAL - 10);
    assert_eq!(game.enemies.len(), 1);
}

#[test]
fn explosions_burn_out() {
    let mut game = Game::new();
    game.explosions.push(Explosion::new(5, 5));
    game.step(&frame(400_000), 0);
    assert_eq!(game.explosions.len(), 1);
    assert_eq!(game.explosions[0].time_remaining, EXPLOSION_TIME - 4 * UNIT);
    game.step(&frame(100_000), 0);
    assert!(game.explosions.is_empty());
}

#[test]
fn quit_leaves_the_game_untouched() {
    let mut game = Game::new();
    game.projectiles.push(Projectile::new(10, 0, -1000, 0, 25, SHOT_RED));
    let input = FrameInput { quit: true, controls: no_keys(), elapsed_us: 5_000 };
    let r = game.on_update(&input);
    assert_eq!(r.change, SceneChange::Quit);
    assert_eq!(game.player.health(), 3);
    assert_eq!(game.projectiles.len(), 1);
    assert_eq!(game.score_timer, 0);
}

#[test]
fn clouds_join_the_sky() {
    let mut game = Game::new();
    game.add_cloud(Cloud::new(0, 100, 3, vec![CloudPillow::new(30, 10), CloudPillow::new(-30, -10)]));
    game.step(&frame(100_000), 0);
    assert_eq!(game.clouds.len(), 1);
    assert_eq!(game.clouds[0].position_y, 97 * UNIT);
}

#[test]
fn projectile_moves_along_its_direction() {
    let mut p = Projectile::new(10, 600, -800, 1, 2, SHOT_RED);
    p.on_update(UNIT);
    assert_eq!(p.position_x, 7 * UNIT);
    assert_eq!(p.position_y, -6 * UNIT);
    assert_eq!(p.collider_radius(), 2);
}

#[test]
fn shot_hurts_each_enemy_it_touches_until_one_dies() {
    let mut game = Game::new();
    game.enemies.push(quiet_enemy(30, 100, 2));
    game.enemies.push(quiet_enemy(31, 100, 2));
    game.player_projectiles.push(shot_at(30, 100));
    let r = game.step(&frame(0), 0);
    assert_eq!(r.kills, 0);
    assert_eq!((game.enemies[0].health, game.enemies[1].health), (1, 1));
    game.player_projectiles.push(shot_at(30, 100));
    let r = game.step(&frame(0), 0);
    assert_eq!(r.kills, 1);
    assert_eq!(game.enemies.len(), 1);
    assert_eq!(game.enemies[0].x(), 31);
    assert_eq!(game.enemies[0].health, 1);
    assert_eq!(game.score, 100);
}

#[test]
fn destroyed_enemy_scores_once_in_a_frame() {
    let mut game = Game::new();
    game.enemies.push(quiet_enemy(-60, 150, 1));
    game.player_projectiles.push(shot_at(-60, 150));
    game.player_projectiles.push(shot_at(-60, 150));
    let r = game.step(&frame(0), 0);
    assert_eq!(r.kills, 1);
    assert_eq!(game.score, 100);
    assert_eq!(game.explosions.len(), 1);
    assert!(game.enemies.is_empty());
    assert_eq!(game.player_projectiles.len(), 1);
}

#[test]
fn frame_with_random_spawn_takes_health_for_a_hit() {
    let mut game = Game::new();
    game.projectiles.push(Projectile::new(10, 0, -1000, 0, 25, SHOT_RED));
    let r = game.on_update(&frame(0));
    assert_eq!(r.change, SceneChange::Stay);
    assert_eq!(game.player.health(), 2);
    assert!(game.projectiles.is_empty());
}

#[test]
fn player_stands_still_on_the_frame_of_death() {
    let mut game = Game::new();
    game.player.health = 1;
    game.player.shoot_timer = 1;
    game.player_projectiles.push(shot_at(50, 50));
    game.projectiles.push(Projectile::new(10, 1000, 0, 0, 25, SHOT_RED));
    let input = FrameInput { quit: false, controls: Controls { up: true, down: false, left: false, right: true }, elapsed_us: 100 };
    let r = game.step(&input, 0);
    assert_eq!(r.change, SceneChange::GameOver(0));
    assert_eq!((game.player.position_x, game.player.position_y), (0, 25 * UNIT));
    assert_eq!(game.player.shoot_timer, 1);
    assert_eq!(game.player_projectiles.len(), 1);
    assert_eq!(game.player_projectiles[0].position_y, 50 * UNIT);
}

#[test]
fn player_shot_that_hits_is_spent_and_others_fly_on() {
    let mut game = Game::new();
    game.enemies.push(quiet_enemy(30, 100, 3));
    game.player_projectiles.push(shot_at(30, 100));
    game.player_projectiles.push(shot_at(-30, 100));
    game.step(&frame(0), 0);
    assert_eq!(game.enemies[0].health, 2);
    assert_eq!(game.player_projectiles.len(), 1);
    assert_eq!(game.player_projectiles[0].x(), -30);
}
