use std::time::Duration;

use tower_defense::bullet::{bullet_can_fly, fly, Bullet, bullet_despawn, move_bullets, new_bullet, ActiveBullet, BULLET_LIFETIME_NS, BULLET_SPEED};
use tower_defense::geometry::{scaled_trunc, Point3, COORD_LIMIT, UNIT};
use tower_defense::target::{
    initial_targets, move_target, target_can_move, move_targets, new_target, target_despawn, target_spawn_point, ActiveTarget, Health, Target,
    START_HEALTH, TARGET_SPEED,
};
use tower_defense::timer::{timer_can_tick, NANOS_PER_SEC};
use tower_defense::tower::{
    base_tower_marker, build_tower, nearest_target, tower_shooting, Marker, PlacedTower, Tower, TOWER_COOLDOWN_NS,
};

fn target_at(x: i64, y: i64, z: i64, health: i32) -> ActiveTarget {
    ActiveTarget { position: Point3::new(x, y, z), target: Target { speed: TARGET_SPEED }, health: Health { value: health } }
}

#[test]
fn single_target_on_axis_gives_raw_offset() {
    let mut towers = vec![PlacedTower::new(Point3::zero())];
    let targets = vec![Point3::new(3 * UNIT, 0, 0)];
    let shots = tower_shooting(&mut towers, &targets, NANOS_PER_SEC);
    assert_eq!(shots.len(), 1);
    assert_eq!(shots[0].tower, 0);
    assert_eq!(shots[0].bullet.bullet.direction, Point3::new(3 * UNIT, 0, 0));
    assert_eq!(shots[0].bullet.position, Point3::zero());
    assert_eq!(shots[0].bullet.bullet.speed, BULLET_SPEED);
}

#[test]
fn no_shot_before_cooldown_completes() {
    let mut towers = vec![PlacedTower::new(Point3::zero())];
    let targets = vec![Point3::new(UNIT, 0, 0)];
    assert_eq!(tower_shooting(&mut towers, &targets, NANOS_PER_SEC / 2).len(), 0);
    assert_eq!(towers[0].tower.shooting_timer.elapsed(), Duration::from_millis(500));
    assert_eq!(tower_shooting(&mut towers, &targets, NANOS_PER_SEC / 2).len(), 1);
    assert_eq!(towers[0].tower.shooting_timer.elapsed(), Duration::ZERO);
}

#[test]
fn several_cycles_in_one_tick_fire_once() {
    let mut towers = vec![PlacedTower::new(Point3::zero())];
    let targets = vec![Point3::new(UNIT, 0, 0)];
    let shots = tower_shooting(&mut towers, &targets, 5 * NANOS_PER_SEC / 2);
    assert_eq!(shots.len(), 1);
    assert_eq!(towers[0].tower.shooting_timer.times_finished_this_tick(), 2);
    assert_eq!(towers[0].tower.shooting_timer.elapsed(), Duration::from_millis(500));
}

#[test]
fn no_target_no_bullet_but_cooldown_resets() {
    let mut towers = vec![PlacedTower::new(Point3::zero())];
    let targets: Vec<Point3> = Vec::new();
    assert_eq!(tower_shooting(&mut towers, &targets, NANOS_PER_SEC).len(), 0);
    assert!(towers[0].tower.shooting_timer.just_finished());
    assert_eq!(towers[0].tower.shooting_timer.elapsed(), Duration::ZERO);
}

#[test]
fn aims_at_nearest_from_muzzle() {
    let mut tower = PlacedTower::new(Point3::new(0, 0, 0));
    tower.tower.bullet_offset = Point3::new(0, UNIT, 0);
    let mut towers = vec![tower];
    let targets = vec![Point3::new(5 * UNIT, 0, 0), Point3::new(0, 3 * UNIT, 2 * UNIT), Point3::new(-2 * UNIT, 0, 0)];
    let shots = tower_shooting(&mut towers, &targets, NANOS_PER_SEC);
    assert_eq!(shots.len(), 1);
    assert_eq!(shots[0].bullet.position, Point3::new(0, UNIT, 0));
    assert_eq!(shots[0].bullet.bullet.direction, Point3::new(-2 * UNIT, -UNIT, 0));
}

#[test]
fn ties_go_to_the_first_target() {
    let targets = vec![Point3::new(4, 0, 0), Point3::new(0, 3, 0), Point3::new(-3, 0, 0), Point3::new(0, 0, 3)];
    assert_eq!(nearest_target(Point3::zero(), &targets), Some(1));
    assert_eq!(nearest_target(Point3::zero(), &Vec::new()), None);
}

#[test]
fn only_ready_towers_fire_in_order() {
    let mut warmed = vec![PlacedTower::new(Point3::new(2 * UNIT, 0, 0))];
    let targets = vec![Point3::new(0, 0, UNIT)];
    assert_eq!(tower_shooting(&mut warmed, &targets, NANOS_PER_SEC / 2).len(), 0);
    let mut towers = vec![PlacedTower::new(Point3::zero())];
    towers.push(warmed.pop().unwrap());
    towers.push(PlacedTower { position: Point3::new(UNIT, 0, 0), tower: Tower::default() });
    let shots = tower_shooting(&mut towers, &targets, NANOS_PER_SEC / 2);
    assert_eq!(shots.len(), 1);
    assert_eq!(shots[0].tower, 1);
    assert_eq!(shots[0].bullet.bullet.direction, Point3::new(-2 * UNIT, 0, UNIT));
    let shots = tower_shooting(&mut towers, &targets, TOWER_COOLDOWN_NS / 2);
    let fired: Vec<usize> = shots.iter().map(|s| s.tower).collect();
    assert_eq!(fired, vec![0, 2]);
}

#[test]
fn targets_start_with_three_health() {
    let t = new_target(target_spawn_point());
    assert_eq!(t.health.value, START_HEALTH);
    assert_eq!(t.health.value, 3);
    assert_eq!(t.position, Point3::new(-5 * UNIT, UNIT, -2 * UNIT));
    let scene = initial_targets();
    assert_eq!(scene.len(), 2);
    assert_eq!(scene[0].position, Point3::new(-2 * UNIT, UNIT, -2 * UNIT));
    assert_eq!(scene[1].target.speed, 300_000);
}

#[test]
fn targets_move_along_x() {
    let mut targets = vec![target_at(0, UNIT, 0, 3), target_at(-5 * UNIT, 0, 7, 1)];
    move_targets(&mut targets, NANOS_PER_SEC);
    assert_eq!(targets[0].position, Point3::new(300_000, UNIT, 0));
    assert_eq!(targets[1].position, Point3::new(-5 * UNIT + 300_000, 0, 7));
    move_targets(&mut targets, NANOS_PER_SEC / 1000);
    assert_eq!(targets[0].position.x, 300_300);
}

#[test]
fn target_motion_rounds_toward_zero() {
    let slow = ActiveTarget { position: Point3::zero(), target: Target { speed: -3 }, health: Health { value: 1 } };
    assert_eq!(move_target(slow, NANOS_PER_SEC / 2).position.x, -1);
    let fwd = ActiveTarget { target: Target { speed: 3 }, ..slow };
    assert_eq!(move_target(fwd, NANOS_PER_SEC / 2).position.x, 1);
}

#[test]
fn dead_targets_are_removed() {
    let mut targets = vec![target_at(1, 0, 0, 3), target_at(2, 0, 0, 0), target_at(3, 0, 0, -4), target_at(4, 0, 0, 1)];
    target_despawn(&mut targets);
    let xs: Vec<i64> = targets.iter().map(|t| t.position.x).collect();
    assert_eq!(xs, vec![1, 4]);
    let mut none: Vec<ActiveTarget> = Vec::new();
    target_despawn(&mut none);
    assert!(none.is_empty());
}

fn bullet_at(x: i64) -> ActiveBullet {
    new_bullet(Point3::new(x, 0, 0), Point3::new(3 * UNIT, 0, -UNIT))
}

#[test]
fn bullet_expires_exactly_at_lifetime() {
    let mut bullets = vec![bullet_at(0), bullet_at(1_000 * UNIT)];
    bullet_despawn(&mut bullets, BULLET_LIFETIME_NS - 1);
    assert_eq!(bullets.len(), 2);
    bullet_despawn(&mut bullets, 1);
    assert!(bullets.is_empty());
}

#[test]
fn bullets_expire_by_own_timer() {
    let mut bullets = vec![bullet_at(0)];
    bullet_despawn(&mut bullets, 3 * NANOS_PER_SEC);
    bullets.push(bullet_at(7));
    bullet_despawn(&mut bullets, 2 * NANOS_PER_SEC);
    assert_eq!(bullets.len(), 1);
    assert_eq!(bullets[0].position.x, 7);
    assert_eq!(bullets[0].lifetime.timer.elapsed(), Duration::from_secs(2));
    assert!(!bullets[0].lifetime.timer.finished());
}

#[test]
fn bullets_fly_with_unnormalized_direction() {
    let mut bullets = vec![bullet_at(0)];
    move_bullets(&mut bullets, NANOS_PER_SEC);
    assert_eq!(bullets[0].position, Point3::new(7_500_000, 0, -2_500_000));
    move_bullets(&mut bullets, 1);
    assert_eq!(bullets[0].position, Point3::new(7_500_000, 0, -2_500_000));
}

#[test]
fn scaled_trunc_rounds_toward_zero() {
    assert_eq!(scaled_trunc(7, 3, 2), 10);
    assert_eq!(scaled_trunc(-7, 3, 2), -10);
    assert_eq!(scaled_trunc(0, 9, 4), 0);
}

#[test]
fn squared_distance() {
    assert_eq!(Point3::new(1, 2, 3).distance_squared(Point3::new(4, -2, 3)), 25);
}

#[test]
fn selected_markers_become_towers() {
    let base = base_tower_marker();
    assert_eq!(base.position, Point3::new(0, 100_000, 0));
    assert!(!base.selected);
    let markers = vec![
        Marker { position: Point3::new(1, 0, 0), selected: true },
        base,
        Marker { position: Point3::new(3, 0, 0), selected: true },
    ];
    let placed = build_tower(&markers);
    assert_eq!(placed.len(), 2);
    assert_eq!(placed[0].marker, 0);
    assert_eq!(placed[1].marker, 2);
    assert_eq!(placed[1].tower.position, Point3::new(3, 0, 0));
    assert_eq!(placed[1].tower.tower.shooting_timer.duration(), Duration::from_secs(1));
    assert_eq!(placed[1].tower.tower.shooting_timer.mode(), bevy::time::TimerMode::Repeating);
}

#[test]
fn world_bounds_are_checked() {
    let edge = ActiveTarget { position: Point3::new(COORD_LIMIT, 0, 0), target: Target { speed: 1_000 }, health: Health { value: 1 } };
    assert!(target_can_move(&edge, 0));
    assert!(!target_can_move(&edge, NANOS_PER_SEC));
    let away = ActiveTarget { position: Point3::new(COORD_LIMIT + 1, 0, 0), ..edge };
    assert!(!target_can_move(&away, 0));
    let m = Bullet { direction: Point3::new(i64::MAX, 0, 0), speed: u64::MAX };
    assert!(!bullet_can_fly(Point3::zero(), &m, u64::MAX));
    let slow = Bullet { direction: Point3::new(-UNIT, 0, 0), speed: BULLET_SPEED };
    assert!(bullet_can_fly(Point3::zero(), &slow, NANOS_PER_SEC));
    assert_eq!(fly(Point3::zero(), &slow, NANOS_PER_SEC), Point3::new(-2_500_000, 0, 0));
    let mut off = PlacedTower::new(Point3::new(COORD_LIMIT, 0, 0));
    assert!(off.is_placed_in_world());
    off.tower.bullet_offset = Point3::new(1, 0, 0);
    assert!(!off.is_placed_in_world());
}

#[test]
fn timer_tick_limits_are_checked() {
    let fresh = Tower::default();
    assert!(timer_can_tick(&fresh.shooting_timer, 4_000_000_000 * NANOS_PER_SEC));
    assert!(!timer_can_tick(&fresh.shooting_timer, u64::MAX / 2));
    let mut full = bevy::time::Timer::new(Duration::MAX, bevy::time::TimerMode::Once);
    full.set_elapsed(Duration::MAX);
    assert!(!timer_can_tick(&full, 1));
    assert!(timer_can_tick(&full, 0));
    let mut spent = bevy::time::Timer::new(Duration::from_secs(1), bevy::time::TimerMode::Repeating);
    spent.set_elapsed(Duration::from_millis(500));
    assert!(timer_can_tick(&spent, 4_294_967_295 * NANOS_PER_SEC));
    assert!(!timer_can_tick(&spent, 4_294_967_296 * NANOS_PER_SEC));
    let zero = bevy::time::Timer::new(Duration::ZERO, bevy::time::TimerMode::Repeating);
    assert!(!timer_can_tick(&zero, 0));
}

#[test]
fn shots_over_a_run_stay_within_completed_cycles() {
    let mut towers = vec![PlacedTower::new(Point3::zero())];
    let targets = vec![Point3::new(UNIT, 0, 0)];
    let deltas = [NANOS_PER_SEC / 3, 5 * NANOS_PER_SEC / 2, NANOS_PER_SEC / 3, NANOS_PER_SEC / 3, NANOS_PER_SEC / 3];
    let mut shots = 0;
    let mut elapsed: u64 = 0;
    for d in deltas {
        shots += tower_shooting(&mut towers, &targets, d).len() as u64;
        elapsed += d;
    }
    assert_eq!(shots, 2);
    assert!(shots <= elapsed / TOWER_COOLDOWN_NS);
}

#[test]
fn bullet_leaves_on_the_tick_reaching_its_lifetime() {
    let mut bullets = vec![bullet_at(0)];
    let deltas = [2 * NANOS_PER_SEC, 2 * NANOS_PER_SEC, NANOS_PER_SEC / 2, NANOS_PER_SEC];
    let mut present = Vec::new();
    for d in deltas {
        move_bullets(&mut bullets, d / 1000);
        bullet_despawn(&mut bullets, d);
        present.push(bullets.len());
    }
    assert_eq!(present, vec![1, 1, 1, 0]);
}
