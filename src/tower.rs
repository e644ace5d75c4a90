//! Towers, and their target acquisition and firing.
use vstd::prelude::*;
use crate::geometry::{Vec2, difference, pos_ok, vec_ok, dist_sq, len_sq, scaled_x, scaled_y, scale_to, length_squared};
use crate::timer::{Timer, MICROS_PER_SECOND};

verus! {

/// Distance (world units) that an arc tower leads its target by: how far an
/// enemy walks during a bomb's one-second flight.
pub const LEAD_DISTANCE: i64 = 100;

/// Firing range of a fresh tower, in world units.
pub const TOWER_RANGE: i64 = 200;

/// Coordinates of a grid cell.
#[derive(Clone, Copy, Debug, PartialEq, Eq, Structural)]
pub struct HexCoords {
    pub q: i32,
    pub r: i32,
}

/// How a tower attacks.
#[derive(Clone, Copy, Debug, PartialEq, Eq, Structural)]
pub enum ShootType {
    /// Straight projectiles at the target's current position.
    Bullet,
    /// Bombs lobbed at where the target is predicted to be.
    Arc,
}

/// A built tower.
#[derive(Clone, Copy, Debug, PartialEq, Eq, Structural)]
pub struct Tower {
    pub coords: HexCoords,
    /// Gold returned, one unit at a time, when the tower is demolished.
    pub refund: u32,
    pub shoot_type: ShootType,
    /// Repeating cooldown between shots.
    pub shoot_timer: Timer,
    pub can_shoot: bool,
    pub range: i64,
}

/// What a tower knows of an enemy: where it is and which way it last moved.
#[derive(Clone, Copy, Debug, PartialEq, Eq, Structural)]
pub struct EnemyInfo {
    pub pos: Vec2,
    pub dir: Vec2,
}

/// A request to spawn a projectile.
#[derive(Clone, Copy, Debug, PartialEq, Eq, Structural)]
pub enum Shot {
    /// A straight bullet from `pos` along `dir` (not yet normalised).
    Bullet { pos: Vec2, dir: Vec2 },
    /// A bomb from `start_pos` landing at `start_pos + target_dir`.
    Bomb { start_pos: Vec2, target_dir: Vec2 },
}

pub open spec fn enemy_ok(e: EnemyInfo) -> bool {
    pos_ok(e.pos) && vec_ok(e.dir)
}

pub open spec fn enemies_ok(es: Seq<EnemyInfo>) -> bool {
    forall|i: int| 0 <= i < es.len() ==> #[trigger] enemy_ok(es[i])
}

/// `a - b` as a vector.
pub open spec fn diff(a: Vec2, b: Vec2) -> Vec2 {
    Vec2 { x: (a.x - b.x) as i64, y: (a.y - b.y) as i64 }
}

/// Where an arc tower aims at `e`: its position plus its last movement
/// direction scaled to the lead distance.
pub open spec fn lead_point(e: EnemyInfo) -> Vec2 {
    Vec2 {
        x: (e.pos.x + scaled_x(e.dir, LEAD_DISTANCE as int)) as i64,
        y: (e.pos.y + scaled_y(e.dir, LEAD_DISTANCE as int)) as i64,
    }
}

/// `i` is the first of the enemies closest to `pos`.
pub open spec fn is_nearest(es: Seq<EnemyInfo>, pos: Vec2, i: int) -> bool {
    &&& 0 <= i < es.len()
    &&& forall|j: int| 0 <= j < es.len() ==> dist_sq(es[i].pos, pos) <= #[trigger] dist_sq(es[j].pos, pos)
    &&& forall|j: int| 0 <= j < i ==> dist_sq(es[i].pos, pos) < #[trigger] dist_sq(es[j].pos, pos)
}

/// The first of the enemies closest to `pos` (when there is one).
pub open spec fn nearest_index(es: Seq<EnemyInfo>, pos: Vec2) -> int {
    choose|i: int| is_nearest(es, pos, i)
}

proof fn lemma_nearest_index(es: Seq<EnemyInfo>, pos: Vec2, i: int)
    requires
        is_nearest(es, pos, i),
    ensures
        nearest_index(es, pos) == i,
{
    let j = nearest_index(es, pos);
    assert(is_nearest(es, pos, j));
    if j < i {
        assert(dist_sq(es[i].pos, pos) <= dist_sq(es[j].pos, pos));
    } else if i < j {
        assert(dist_sq(es[j].pos, pos) <= dist_sq(es[i].pos, pos));
    }
}

/// Index of the first enemy closest to `pos`, if there is any enemy.
pub fn nearest_enemy(enemies: &Vec<EnemyInfo>, pos: Vec2) -> (r: Option<usize>)
    requires
        enemies_ok(enemies@),
        pos_ok(pos),
    ensures
        r.is_none() <==> enemies@.len() == 0,
        r matches Some(i) ==> is_nearest(enemies@, pos, i as int),
{
    if enemies.len() == 0 {
        return None;
    }
    let mut best: usize = 0;
    assert(enemy_ok(enemies@[0]));
    let mut best_d = length_squared(difference(enemies[0].pos, pos));
    let mut k: usize = 1;
    while k < enemies.len()
        invariant
            enemies_ok(enemies@),
            pos_ok(pos),
            1 <= k <= enemies@.len(),
            best < k,
            best_d == dist_sq(enemies@[best as int].pos, pos),
            forall|j: int| 0 <= j < k ==> best_d <= #[trigger] dist_sq(enemies@[j].pos, pos),
            forall|j: int| 0 <= j < best ==> best_d < #[trigger] dist_sq(enemies@[j].pos, pos),
        decreases enemies@.len() - k,
    {
        assert(enemy_ok(enemies@[k as int]));
        let d = length_squared(difference(enemies[k].pos, pos));
        if d < best_d {
            best = k;
            best_d = d;
        }
        k = k + 1;
    }
    Some(best)
}

impl Tower {
    pub open spec fn wf(&self) -> bool {
        &&& self.shoot_timer.wf()
        &&& self.shoot_timer.repeating
        &&& 0 <= self.range <= 0x4000_0000
    }

    /// A fresh straight-shooting tower, ready to fire.
    pub fn new(coords: HexCoords, refund: u32) -> (r: Tower)
        ensures
            r.wf(),
            r.coords == coords,
            r.refund == refund,
            r.shoot_type == ShootType::Bullet,
            r.can_shoot,
            r.range == TOWER_RANGE,
            r.shoot_timer == (Timer { duration: MICROS_PER_SECOND, elapsed: 0, repeating: true, finished: false }),
    {
        Tower {
            coords,
            refund,
            shoot_type: ShootType::Bullet,
            shoot_timer: Timer::new(MICROS_PER_SECOND, true),
            can_shoot: true,
            range: TOWER_RANGE,
        }
    }

    /// The shot this tower, standing at `pos`, takes at enemy `e`, if `e`
    /// is within range.
    pub open spec fn shot_at(self, pos: Vec2, e: EnemyInfo) -> Option<Shot> {
        match self.shoot_type {
            ShootType::Bullet => {
                let d = diff(e.pos, pos);
                if len_sq(d) < self.range * self.range {
                    Some(Shot::Bullet { pos, dir: d })
                } else {
                    None
                }
            },
            ShootType::Arc => {
                let d = diff(lead_point(e), pos);
                if len_sq(d) < self.range * self.range {
                    Some(Shot::Bomb { start_pos: pos, target_dir: d })
                } else {
                    None
                }
            },
        }
    }

    /// This tower, standing at `pos`, after one tick of `delta`
    /// microseconds of target acquisition, and the shot it takes.
    pub open spec fn fired(self, pos: Vec2, es: Seq<EnemyInfo>, delta: u64) -> (Tower, Option<Shot>) {
        if !self.can_shoot {
            let (timer, done) = self.shoot_timer.ticked(delta);
            (Tower { shoot_timer: timer, can_shoot: done, ..self }, None)
        } else if es.len() == 0 {
            (self, None)
        } else {
            let shot = self.shot_at(pos, es[nearest_index(es, pos)]);
            (Tower { can_shoot: shot.is_none(), ..self }, shot)
        }
    }

    /// One tick of target acquisition for this tower standing at `pos`.
    ///
    /// A tower on cooldown only advances its timer and becomes ready when
    /// the timer completes. A ready tower takes the nearest enemy and fires
    /// at it if it is in range, going on cooldown; otherwise it waits.
    pub fn shoot(&mut self, pos: Vec2, enemies: &Vec<EnemyInfo>, delta: u64) -> (r: Option<Shot>)
        requires
            old(self).wf(),
            pos_ok(pos),
            enemies_ok(enemies@),
        ensures
            final(self).wf(),
            (*final(self), r) == old(self).fired(pos, enemies@, delta),
    {
        if !self.can_shoot {
            let done = self.shoot_timer.tick(delta);
            if done {
                self.can_shoot = true;
            }
            return None;
        }
        let i = match nearest_enemy(enemies, pos) {
            None => return None,
            Some(i) => i,
        };
        let e = enemies[i];
        assert(enemy_ok(enemies@[i as int]));
        proof { lemma_nearest_index(enemies@, pos, i as int); }
        assert(self.range * self.range <= 0x1000_0000_0000_0000) by (nonlinear_arith)
            requires 0 <= self.range <= 0x4000_0000;
        let range_sq: u64 = (self.range * self.range) as u64;
        let shot = match self.shoot_type {
            ShootType::Bullet => {
                let d = difference(e.pos, pos);
                assert(d == diff(e.pos, pos));
                if length_squared(d) < range_sq {
                    Some(Shot::Bullet { pos, dir: d })
                } else {
                    None
                }
            },
            ShootType::Arc => {
                let lead = scale_to(e.dir, LEAD_DISTANCE);
                let target = Vec2 { x: e.pos.x + lead.x, y: e.pos.y + lead.y };
                assert(target == lead_point(e));
                let d = Vec2 { x: target.x - pos.x, y: target.y - pos.y };
                assert(d == diff(lead_point(e), pos));
                if length_squared(d) < range_sq {
                    Some(Shot::Bomb { start_pos: pos, target_dir: d })
                } else {
                    None
                }
            },
        };
        if shot.is_some() {
            self.can_shoot = false;
        }
        shot
    }
}

} // verus!
