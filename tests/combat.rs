use tower_combat::explosion::Explosion;
use tower_combat::geometry::{collide, isqrt, scale_to, Vec2};
use tower_combat::projectile::{bullet_hit, spawn_bomb_bullet, spawn_bullet, Target};
use tower_combat::timer::Timer;
use tower_combat::tower::{nearest_enemy, EnemyInfo, HexCoords, ShootType, Shot, Tower};

fn v(x: i64, y: i64) -> Vec2 {
    Vec2 { x, y }
}

fn still(x: i64, y: i64) -> EnemyInfo {
    EnemyInfo { pos: v(x, y), dir: v(0, 0) }
}

#[test]
fn one_shot_timer_reports_completion_once() {
    let mut t = Timer::new(1000, false);
    assert!(!t.tick(400));
    assert_eq!(t.elapsed, 400);
    assert!(t.tick(700));
    assert_eq!(t.elapsed, 1000);
    assert!(t.is_finished());
    assert!(!t.tick(5));
    assert_eq!(t.elapsed, 1000);
}

#[test]
fn repeating_timer_wraps() {
    let mut t = Timer::new(1000, true);
    assert!(t.tick(2500));
    assert_eq!(t.elapsed, 500);
    assert!(!t.tick(100));
    assert_eq!(t.elapsed, 600);
    assert!(t.tick(u64::MAX));
}

#[test]
fn floor_square_roots() {
    assert_eq!(isqrt(0), 0);
    assert_eq!(isqrt(15), 3);
    assert_eq!(isqrt(16), 4);
    assert_eq!(isqrt(u64::MAX), 4294967295);
}

#[test]
fn rescaling_rounds_toward_zero() {
    assert_eq!(scale_to(v(3, 4), 1024), v(614, 819));
    assert_eq!(scale_to(v(-3, 4), 1024), v(-614, 819));
    assert_eq!(scale_to(v(0, -7), 100), v(0, -100));
    assert_eq!(scale_to(v(0, 0), 100), v(0, 0));
}

#[test]
fn box_overlap_is_strict() {
    assert!(collide(v(0, 0), 6, v(10, 0), 15));
    assert!(!collide(v(0, 0), 6, v(11, 0), 15));
    assert!(collide(v(0, 0), 6, v(-10, 10), 15));
    assert!(!collide(v(0, 0), 6, v(0, -11), 15));
}

#[test]
fn nearest_enemy_takes_first_of_ties() {
    let es = vec![still(150, 0), still(0, 100), still(100, 0)];
    assert_eq!(nearest_enemy(&es, v(0, 0)), Some(1));
    assert_eq!(nearest_enemy(&Vec::new(), v(0, 0)), None);
}

#[test]
fn bullet_tower_fires_then_cools_down() {
    let mut t = Tower::new(HexCoords { q: 0, r: 0 }, 4);
    let es = vec![still(150, 0), still(100, 0)];
    let shot = t.shoot(v(0, 0), &es, 16_000);
    assert_eq!(shot, Some(Shot::Bullet { pos: v(0, 0), dir: v(100, 0) }));
    assert!(!t.can_shoot);
    assert_eq!(t.shoot(v(0, 0), &es, 500_000), None);
    assert!(!t.can_shoot);
    assert_eq!(t.shoot(v(0, 0), &es, 500_000), None);
    assert!(t.can_shoot);
    assert!(t.shoot(v(0, 0), &es, 1).is_some());
}

#[test]
fn tower_waits_when_out_of_range_or_alone() {
    let mut t = Tower::new(HexCoords { q: 0, r: 0 }, 4);
    assert_eq!(t.shoot(v(0, 0), &vec![still(200, 0)], 10), None);
    assert!(t.can_shoot);
    assert_eq!(t.shoot(v(0, 0), &Vec::new(), 10), None);
    assert!(t.can_shoot);
    assert_eq!(t.shoot_timer.elapsed, 0);
    assert!(t.shoot(v(0, 0), &vec![still(199, 0)], 10).is_some());
}

#[test]
fn arc_tower_leads_its_target() {
    let mut t = Tower::new(HexCoords { q: 0, r: 0 }, 4);
    t.shoot_type = ShootType::Arc;
    let es = vec![EnemyInfo { pos: v(50, 0), dir: v(0, 2) }];
    let shot = t.shoot(v(0, 0), &es, 10);
    assert_eq!(shot, Some(Shot::Bomb { start_pos: v(0, 0), target_dir: v(50, 100) }));
    assert!(!t.can_shoot);
}

#[test]
fn arc_tower_skips_target_whose_lead_is_out_of_range() {
    let mut t = Tower::new(HexCoords { q: 0, r: 0 }, 4);
    t.shoot_type = ShootType::Arc;
    let es = vec![EnemyInfo { pos: v(150, 0), dir: v(3, 0) }];
    assert_eq!(t.shoot(v(0, 0), &es, 10), None);
    assert!(t.can_shoot);
}

#[test]
fn bullet_moves_along_unit_direction() {
    let mut b = spawn_bullet(v(10, 20), v(3, 4));
    assert_eq!(b.dir, v(614, 819));
    assert_eq!(b.position(), v(10, 20));
    assert!(!b.tick(500_000));
    assert_eq!(b.position(), v(129, 179));
    assert!(b.tick(500_000));
}

#[test]
fn bullet_expires_at_lifetime_in_one_long_tick() {
    let mut b = spawn_bullet(v(0, 0), v(-1, 0));
    assert!(b.tick(2_000_000));
    assert_eq!(b.position(), v(-400, 0));
    assert!(!b.tick(1));
}

#[test]
fn bullet_hits_first_live_overlapping_enemy() {
    let bullets = vec![v(0, 0), v(100, 100)];
    let enemies = vec![
        Target { pos: v(10, 0), dead: true },
        Target { pos: v(5, 5), dead: false },
        Target { pos: v(0, 0), dead: false },
    ];
    assert_eq!(bullet_hit(&bullets, &enemies), vec![Some(1), None]);
}

#[test]
fn bomb_arc_starts_overshoots_and_lands() {
    let mut b = spawn_bomb_bullet(v(0, 0), v(30, 40));
    assert_eq!(b.start_dir, v(9, 187));
    assert_eq!(b.end_dir, v(21, -147));
    assert_eq!(b.position(), v(0, 0));
    assert!(b.tick(500_000).is_none());
    assert_eq!(b.position(), v(9, 56));
    let x = b.tick(500_000).unwrap();
    assert_eq!(b.position(), v(30, 40));
    assert_eq!(x.pos, v(30, 40));
    assert!(x.harmful);
}

#[test]
fn bomb_arc_lands_on_negative_offset() {
    let mut b = spawn_bomb_bullet(v(100, -100), v(-30, -40));
    assert_eq!(b.start_dir, v(-9, 163));
    assert_eq!(b.end_dir, v(-21, -203));
    let x = b.tick(1_000_000).unwrap();
    assert_eq!(x.pos, v(70, -140));
}

#[test]
fn explosion_harms_only_until_danger_passes() {
    let mut x = Explosion::new(v(5, 5));
    let r = x.tick(100_000, &vec![true, false]);
    assert_eq!(r.killed, vec![true, false]);
    assert!(!r.despawn && x.harmful);
    let r = x.tick(100_000, &vec![true]);
    assert_eq!(r.killed, vec![true]);
    assert!(!r.despawn && !x.harmful);
    let r = x.tick(50_000, &vec![true]);
    assert_eq!(r.killed, vec![false]);
    assert!(!r.despawn);
    let r = x.tick(50_000, &vec![true, true]);
    assert_eq!(r.killed, vec![false, false]);
    assert!(r.despawn);
}

#[test]
fn explosion_single_long_tick_ends_danger_and_life() {
    let mut x = Explosion::new(v(0, 0));
    let r = x.tick(1_000_000, &vec![true]);
    assert_eq!(r.killed, vec![true]);
    assert!(r.despawn);
    assert!(!x.harmful);
}
