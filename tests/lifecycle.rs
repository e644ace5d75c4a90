use tower_combat::board::Board;
use tower_combat::lifecycle::{Economy, HexCell, TOWER_COST_GROWTH};
use tower_combat::geometry::Vec2;
use tower_combat::tower::{EnemyInfo, HexCoords, ShootType, Shot, Tower};

fn hex(q: i32, r: i32) -> HexCoords {
    HexCoords { q, r }
}

/// World position of a cell's centre in these tests.
fn centre(c: HexCoords) -> Vec2 {
    Vec2 { x: c.q as i64 * 30, y: c.r as i64 * 30 }
}

fn board_with(cells: &[HexCoords]) -> Board {
    let mut b = Board::new();
    for &c in cells {
        assert!(b.add_hex(c, centre(c)));
    }
    b
}

#[test]
fn placement_scenario_cost_count_refund() {
    let c = hex(1, 2);
    let mut b = board_with(&[c]);
    assert_eq!(b.economy.cost, 5);
    assert_eq!(b.spawn_tower_preview(c, ShootType::Bullet), Some(5));
    assert_eq!(b.economy.cost, 5 + TOWER_COST_GROWTH);
    let paid = b.preview_paid_for(c, 5);
    assert!(paid.built);
    assert!(!paid.boss_spawn);
    assert_eq!(b.economy.count, 1);
    let cell = b.cell(c).unwrap();
    assert!(!cell.preview);
    assert_eq!(cell.tower.unwrap().refund, 4);
    let gold = b.remove_tower(c);
    assert_eq!(gold.len(), 4);
    assert!(gold.iter().all(|&g| g == Vec2 { x: 30, y: 60 }));
    assert_eq!(b.economy.cost, 5);
    assert!(b.cell(c).unwrap().tower.is_none());
}

#[test]
fn second_placement_is_noop() {
    let c = hex(0, 0);
    let mut b = board_with(&[c, hex(0, 1)]);
    assert_eq!(b.spawn_tower_preview(c, ShootType::Bullet), Some(5));
    assert_eq!(b.spawn_tower_preview(c, ShootType::Arc), None);
    assert_eq!(b.economy.cost, 7);
    let cell = b.cell(c).unwrap();
    assert!(cell.preview && cell.pile && !cell.arc);
    let other = b.cell(hex(0, 1)).unwrap();
    assert!(!other.preview && !other.pile && other.tower.is_none());
    assert_eq!(b.spawn_tower_preview(hex(0, 1), ShootType::Bullet), Some(7));
    assert_eq!(b.economy.cost, 9);
}

#[test]
fn unknown_cell_requests_are_ignored() {
    let mut b = board_with(&[hex(0, 0)]);
    assert_eq!(b.spawn_tower_preview(hex(5, 5), ShootType::Bullet), None);
    assert!(!b.preview_paid_for(hex(5, 5), 10).built);
    assert!(b.remove_tower(hex(5, 5)).is_empty());
    assert_eq!(b.economy.cost, 5);
    assert!(!b.add_hex(hex(0, 0), Vec2 { x: 1, y: 1 }));
    assert_eq!(b.cells.len(), 1);
}

#[test]
fn refund_is_eighty_percent_rounded_down() {
    for (amount, refund) in [(0u32, 0u32), (1, 0), (5, 4), (7, 5), (10, 8), (u32::MAX, 3435973836)] {
        let c = hex(3, 3);
        let mut b = board_with(&[c]);
        b.spawn_tower_preview(c, ShootType::Bullet);
        assert!(b.preview_paid_for(c, amount).built);
        assert_eq!(b.cell(c).unwrap().tower.unwrap().refund, refund);
    }
}

#[test]
fn payment_without_preview_does_nothing() {
    let c = hex(2, 2);
    let mut b = board_with(&[c]);
    let out = b.preview_paid_for(c, 9);
    assert!(!out.built && !out.boss_spawn);
    assert_eq!(b.economy.count, 0);
    assert!(b.cell(c).unwrap().tower.is_none());
    b.spawn_tower_preview(c, ShootType::Bullet);
    assert!(b.preview_paid_for(c, 9).built);
    assert!(!b.preview_paid_for(c, 9).built);
    assert_eq!(b.economy.count, 1);
}

#[test]
fn arc_preview_builds_bomb_tower() {
    let c = hex(4, -1);
    let mut b = board_with(&[c]);
    b.spawn_tower_preview(c, ShootType::Arc);
    assert!(b.cell(c).unwrap().arc);
    b.preview_paid_for(c, 10);
    let cell = b.cell(c).unwrap();
    let t = cell.tower.unwrap();
    assert_eq!(t.shoot_type, ShootType::Arc);
    assert_eq!(t.range, 200);
    assert!(t.can_shoot);
    assert!(!cell.pile);
    b.remove_tower(c);
    let cell = b.cell(c).unwrap();
    assert!(!cell.arc && cell.tower.is_none() && !cell.preview);
}

#[test]
fn boss_fires_on_tenth_completion_only() {
    let cells: Vec<HexCoords> = (0..12).map(|i| hex(i, 0)).collect();
    let mut b = board_with(&cells);
    for (i, &c) in cells.iter().enumerate() {
        b.spawn_tower_preview(c, ShootType::Bullet);
        let out = b.preview_paid_for(c, 5);
        assert!(out.built);
        assert_eq!(out.boss_spawn, i == 9, "completion {}", i + 1);
    }
    assert!(b.economy.boss_spawned);
    assert_eq!(b.economy.count, 10);
}

#[test]
fn removal_before_boss_uncounts_but_not_below_one() {
    let cells = [hex(0, 0), hex(1, 0)];
    let mut b = board_with(&cells);
    for &c in &cells {
        b.spawn_tower_preview(c, ShootType::Bullet);
        b.preview_paid_for(c, 5);
    }
    assert_eq!(b.economy.count, 2);
    b.remove_tower(cells[0]);
    assert_eq!(b.economy.count, 1);
    b.remove_tower(cells[1]);
    assert_eq!(b.economy.count, 1);
}

#[test]
fn repeated_removals_keep_price_at_growth_floor() {
    let mut e = Economy { cost: 5, count: 3, boss_spawned: false };
    let mut costs = Vec::new();
    for _ in 0..4 {
        let mut cell = HexCell::new(hex(0, 0), Vec2 { x: 0, y: 0 });
        cell.tower = Some(Tower::new(hex(0, 0), 2));
        let gold = e.clear_cell(&mut cell);
        assert_eq!(gold.len(), 2);
        costs.push(e.cost);
    }
    assert_eq!(costs, vec![3, 2, 2, 2]);
    assert!(costs.iter().all(|&c| c >= TOWER_COST_GROWTH));
}

#[test]
fn lone_pile_is_not_removable() {
    let mut e = Economy::new();
    let mut cell = HexCell::new(hex(0, 0), Vec2 { x: 0, y: 0 });
    cell.pile = true;
    let before = cell;
    assert!(e.clear_cell(&mut cell).is_empty());
    assert_eq!(cell, before);
    assert_eq!(e.cost, 5);
    assert_eq!(e.place_preview(&mut cell, ShootType::Bullet), None);
}

#[test]
fn removing_preview_refunds_nothing_and_lowers_price() {
    let c = hex(0, 0);
    let mut b = board_with(&[c]);
    b.spawn_tower_preview(c, ShootType::Arc);
    b.spawn_tower_preview(c, ShootType::Arc);
    assert_eq!(b.economy.cost, 7);
    assert!(b.remove_tower(c).is_empty());
    assert_eq!(b.economy.cost, 5);
    let cell = b.cell(c).unwrap();
    assert!(!cell.preview && !cell.arc && cell.pile);
    assert!(b.remove_tower(c).is_empty());
    assert_eq!(b.economy.cost, 5);
}

#[test]
fn empty_cell_removal_is_noop() {
    let c = hex(0, 0);
    let mut b = board_with(&[c]);
    assert!(b.remove_tower(c).is_empty());
    assert_eq!(b.economy.cost, 5);
}

#[test]
fn board_fires_from_built_towers_only() {
    let a = hex(0, 0);
    let p = hex(10, 0);
    let mut b = board_with(&[a, p, hex(20, 0)]);
    b.spawn_tower_preview(a, ShootType::Bullet);
    b.preview_paid_for(a, 5);
    b.spawn_tower_preview(p, ShootType::Bullet);
    let enemies = vec![EnemyInfo { pos: Vec2 { x: 0, y: 150 }, dir: Vec2 { x: 1, y: 0 } }];
    let shots = b.tower_shoot(&enemies, 16_000);
    assert_eq!(
        shots,
        vec![Some(Shot::Bullet { pos: Vec2 { x: 0, y: 0 }, dir: Vec2 { x: 0, y: 150 } }), None, None]
    );
    assert!(!b.cell(a).unwrap().tower.unwrap().can_shoot);
    let shots = b.tower_shoot(&enemies, 999_999);
    assert_eq!(shots, vec![None, None, None]);
    let shots = b.tower_shoot(&enemies, 1);
    assert_eq!(shots, vec![None, None, None]);
    assert!(b.cell(a).unwrap().tower.unwrap().can_shoot);
    assert!(b.tower_shoot(&enemies, 1)[0].is_some());
}
