//! Projectile ballistics: straight bullets and arcing bombs, and bullet
//! hits on enemies.
use vstd::prelude::*;
use crate::explosion::Explosion;
use crate::geometry::{
    Vec2, abs, pos_ok, vec_ok, len_sq, floor_sqrt, div_trunc, boxes_overlap, collide, isqrt,
    length_squared, scale_to, scaled_x, scaled_y, lemma_div_trunc_bound, div_toward_zero,
};
use crate::timer::{Timer, MICROS_PER_SECOND};

verus! {

/// Bullet speed, in world units per second.
pub const BULLET_SPEED: i64 = 400;

/// Fixed-point length of a unit direction.
pub const DIR_UNIT: i64 = 1024;

/// How long a bullet flies before it is removed, in microseconds.
pub const BULLET_LIFETIME: u64 = 1_000_000;

/// How long a bomb flies, in microseconds.
pub const BOMB_FLIGHT: u64 = 1_000_000;

/// Side length of a bullet's hit box.
pub const BULLET_SIZE: i64 = 6;

/// Side length of an enemy's hit box.
pub const ENEMY_SIZE: i64 = 15;

/// A straight bullet: it leaves `origin` along `dir` (a unit direction of
/// length `DIR_UNIT`) at constant speed until its timer runs out.
#[derive(Clone, Copy, Debug, PartialEq, Eq, Structural)]
pub struct Bullet {
    pub origin: Vec2,
    pub dir: Vec2,
    pub timer: Timer,
}

/// An enemy as a bullet sees it.
#[derive(Clone, Copy, Debug, PartialEq, Eq, Structural)]
pub struct Target {
    pub pos: Vec2,
    /// Already marked dead before this tick.
    pub dead: bool,
}

/// Distance covered along one component of a unit direction after
/// `elapsed` microseconds.
pub open spec fn travelled(dir: int, elapsed: int) -> int {
    div_trunc(dir * BULLET_SPEED * elapsed, DIR_UNIT * MICROS_PER_SECOND)
}

pub open spec fn dir_ok(d: Vec2) -> bool {
    abs(d.x as int) <= DIR_UNIT && abs(d.y as int) <= DIR_UNIT
}

impl Bullet {
    pub open spec fn wf(&self) -> bool {
        &&& pos_ok(self.origin)
        &&& dir_ok(self.dir)
        &&& self.timer.wf()
        &&& !self.timer.repeating
        &&& self.timer.duration == BULLET_LIFETIME
    }

    /// A bullet at `origin` heading along the unit direction `dir`.
    pub fn new(origin: Vec2, dir: Vec2) -> (r: Bullet)
        requires
            pos_ok(origin),
            dir_ok(dir),
        ensures
            r.wf(),
            r == (Bullet {
                origin,
                dir,
                timer: Timer { duration: BULLET_LIFETIME, elapsed: 0, repeating: false, finished: false },
            }),
    {
        Bullet { origin, dir, timer: Timer::new(BULLET_LIFETIME, false) }
    }

    /// Where the bullet is now: `origin + dir * speed * elapsed`.
    pub open spec fn position_spec(self) -> (int, int) {
        (
            self.origin.x + travelled(self.dir.x as int, self.timer.elapsed as int),
            self.origin.y + travelled(self.dir.y as int, self.timer.elapsed as int),
        )
    }

    /// Where the bullet is now.
    pub fn position(&self) -> (r: Vec2)
        requires
            self.wf(),
        ensures
            (r.x as int, r.y as int) == self.position_spec(),
    {
        let e = self.timer.elapsed as i128;
        let den: i128 = 1_024_000_000;
        assert(DIR_UNIT * MICROS_PER_SECOND == 1_024_000_000) by (nonlinear_arith)
            requires DIR_UNIT == 1024, MICROS_PER_SECOND == 1_000_000;
        proof {
            assert(abs(self.dir.x * BULLET_SPEED * e) <= 400 * DIR_UNIT * MICROS_PER_SECOND) by (nonlinear_arith)
                requires abs(self.dir.x as int) <= DIR_UNIT, 0 <= e <= MICROS_PER_SECOND;
            assert(abs(self.dir.y * BULLET_SPEED * e) <= 400 * DIR_UNIT * MICROS_PER_SECOND) by (nonlinear_arith)
                requires abs(self.dir.y as int) <= DIR_UNIT, 0 <= e <= MICROS_PER_SECOND;
            lemma_div_trunc_bound(self.dir.x * BULLET_SPEED * e, den as int, 400);
            lemma_div_trunc_bound(self.dir.y * BULLET_SPEED * e, den as int, 400);
        }
        let dx = div_toward_zero(self.dir.x as i128 * BULLET_SPEED as i128 * e, den);
        let dy = div_toward_zero(self.dir.y as i128 * BULLET_SPEED as i128 * e, den);
        Vec2 { x: self.origin.x + dx as i64, y: self.origin.y + dy as i64 }
    }

    /// Advances the bullet's lifetime by `delta` microseconds; returns
    /// whether it ran out now and is to be removed.
    pub fn tick(&mut self, delta: u64) -> (expired: bool)
        requires
            old(self).wf(),
        ensures
            final(self).wf(),
            (final(self).timer, expired) == old(self).timer.ticked(delta),
            final(self).origin == old(self).origin,
            final(self).dir == old(self).dir,
    {
        self.timer.tick(delta)
    }
}

/// A bullet fired from `pos` toward `dir`: the direction is rescaled to
/// unit length (a zero direction stays zero).
pub fn spawn_bullet(pos: Vec2, dir: Vec2) -> (r: Bullet)
    requires
        pos_ok(pos),
        vec_ok(dir),
    ensures
        r.wf(),
        r.origin == pos,
        r.dir.x == scaled_x(dir, DIR_UNIT as int),
        r.dir.y == scaled_y(dir, DIR_UNIT as int),
        r.timer == (Timer { duration: BULLET_LIFETIME, elapsed: 0, repeating: false, finished: false }),
{
    let unit = scale_to(dir, DIR_UNIT);
    Bullet::new(pos, unit)
}

/// `j` is the first live enemy that a bullet at `b` overlaps.
pub open spec fn hits(b: Vec2, es: Seq<Target>, j: int) -> bool {
    0 <= j < es.len() && !es[j].dead && boxes_overlap(b, BULLET_SIZE as int, es[j].pos, ENEMY_SIZE as int)
}

/// The enemy, if any, that a bullet at `b` hits: the first live one it
/// overlaps.
pub open spec fn first_hit(b: Vec2, es: Seq<Target>) -> Option<int> {
    if exists|j: int| hits(b, es, j) {
        Some(choose|j: int| hits(b, es, j) && forall|k: int| 0 <= k < j ==> !hits(b, es, k))
    } else {
        None
    }
}

pub open spec fn targets_ok(es: Seq<Target>) -> bool {
    forall|i: int| 0 <= i < es.len() ==> pos_ok(#[trigger] es[i].pos)
}

/// The first live enemy that a bullet at `b` hits.
fn bullet_first_hit(b: Vec2, enemies: &Vec<Target>) -> (r: Option<usize>)
    requires
        pos_ok(b),
        targets_ok(enemies@),
    ensures
        r matches Some(j) ==> first_hit(b, enemies@) == Some(j as int),
        r.is_none() ==> first_hit(b, enemies@).is_none(),
{
    let mut k: usize = 0;
    while k < enemies.len()
        invariant
            pos_ok(b),
            targets_ok(enemies@),
            k <= enemies@.len(),
            forall|j: int| 0 <= j < k ==> !hits(b, enemies@, j),
        decreases enemies@.len() - k,
    {
        assert(pos_ok(enemies@[k as int].pos));
        if !enemies[k].dead && collide(b, BULLET_SIZE, enemies[k].pos, ENEMY_SIZE) {
            proof {
                assert(hits(b, enemies@, k as int));
                let p = |j: int| hits(b, enemies@, j) && forall|i: int| 0 <= i < j ==> !hits(b, enemies@, i);
                assert(p(k as int));
                let c = choose|j: int| hits(b, enemies@, j) && forall|i: int| 0 <= i < j ==> !hits(b, enemies@, i);
                if c < k {
                } else if c > k {
                    assert(!hits(b, enemies@, k as int));
                }
            }
            return Some(k);
        }
        k = k + 1;
    }
    None
}

/// Resolves bullet hits for one tick: for each bullet (by position), the
/// index of the first live enemy whose box overlaps it, which is marked
/// dead and the bullet removed; `None` where the bullet hits nothing.
pub fn bullet_hit(bullets: &Vec<Vec2>, enemies: &Vec<Target>) -> (r: Vec<Option<usize>>)
    requires
        forall|i: int| 0 <= i < bullets@.len() ==> pos_ok(#[trigger] bullets@[i]),
        targets_ok(enemies@),
    ensures
        r@.len() == bullets@.len(),
        forall|i: int| 0 <= i < bullets@.len() ==>
            (#[trigger] r@[i] matches Some(j) ==> first_hit(bullets@[i], enemies@) == Some(j as int))
            && (r@[i].is_none() ==> first_hit(bullets@[i], enemies@).is_none()),
{
    let mut r: Vec<Option<usize>> = Vec::new();
    let mut k: usize = 0;
    while k < bullets.len()
        invariant
            forall|i: int| 0 <= i < bullets@.len() ==> pos_ok(#[trigger] bullets@[i]),
            targets_ok(enemies@),
            k <= bullets@.len(),
            r@.len() == k,
            forall|i: int| 0 <= i < k ==>
                (#[trigger] r@[i] matches Some(j) ==> first_hit(bullets@[i], enemies@) == Some(j as int))
                && (r@[i].is_none() ==> first_hit(bullets@[i], enemies@).is_none()),
        decreases bullets@.len() - k,
    {
        assert(pos_ok(bullets@[k as int]));
        let h = bullet_first_hit(bullets[k], enemies);
        r.push(h);
        k = k + 1;
    }
    r
}

/// A bomb thrown from `start_pos` at the offset `start_dir + end_dir`:
/// the first leg overshoots upward, the second corrects onto the target.
#[derive(Clone, Copy, Debug, PartialEq, Eq, Structural)]
pub struct BombBullet {
    pub start_pos: Vec2,
    pub start_dir: Vec2,
    pub end_dir: Vec2,
    pub timer: Timer,
}

/// First leg of a bomb aimed at offset `d` of length `m`:
/// `lerp(d, (0, 5 m), 0.7)`, i.e. `0.3 d + (0, 3.5 m)`, rounded toward zero.
pub open spec fn start_leg(d: Vec2) -> Vec2 {
    Vec2 {
        x: div_trunc(3 * d.x, 10) as i64,
        y: div_trunc(3 * d.y + 35 * floor_sqrt(len_sq(d)), 10) as i64,
    }
}

/// Offset of a bomb along one component at `elapsed` of `flight`
/// microseconds, progress `t = elapsed / flight`:
/// `lerp(t s, t s + t e, t) = t s + t^2 e`, rounded toward zero.
pub open spec fn arc_offset(s: int, e: int, elapsed: int, flight: int) -> int {
    div_trunc(s * elapsed * flight + e * elapsed * elapsed, flight * flight)
}

proof fn lemma_arc_bound(s: int, e: int, el: int, d: int)
    requires
        0 <= el <= d,
        0 < d,
    ensures
        abs(s * el * d + e * el * el) <= (abs(s) + abs(e)) * (d * d),
{
    assert(abs(s * el * d) <= abs(s) * (d * d)) by (nonlinear_arith)
        requires 0 <= el <= d, 0 < d;
    assert(abs(e * el * el) <= abs(e) * (d * d)) by (nonlinear_arith)
        requires 0 <= el <= d, 0 < d;
    assert((abs(s) + abs(e)) * (d * d) == abs(s) * (d * d) + abs(e) * (d * d)) by (nonlinear_arith);
}

impl BombBullet {
    pub open spec fn wf(&self) -> bool {
        &&& pos_ok(self.start_pos)
        &&& abs(self.start_dir.x as int) <= 0x10_0000_0000
        &&& abs(self.start_dir.y as int) <= 0x10_0000_0000
        &&& abs(self.end_dir.x as int) <= 0x10_0000_0000
        &&& abs(self.end_dir.y as int) <= 0x10_0000_0000
        &&& self.timer.wf()
        &&& !self.timer.repeating
        &&& self.timer.duration == BOMB_FLIGHT
    }

    /// Where the bomb is now: `start_pos` plus the arc offset.
    pub open spec fn position_spec(self) -> Vec2 {
        Vec2 {
            x: (self.start_pos.x + arc_offset(
                self.start_dir.x as int, self.end_dir.x as int,
                self.timer.elapsed as int, self.timer.duration as int)) as i64,
            y: (self.start_pos.y + arc_offset(
                self.start_dir.y as int, self.end_dir.y as int,
                self.timer.elapsed as int, self.timer.duration as int)) as i64,
        }
    }

    proof fn lemma_position_fits(self)
        requires
            self.wf(),
        ensures
            abs(arc_offset(self.start_dir.x as int, self.end_dir.x as int, self.timer.elapsed as int, self.timer.duration as int)) <= 0x20_0000_0000,
            abs(arc_offset(self.start_dir.y as int, self.end_dir.y as int, self.timer.elapsed as int, self.timer.duration as int)) <= 0x20_0000_0000,
    {
        let el = self.timer.elapsed as int;
        let d = self.timer.duration as int;
        lemma_arc_bound(self.start_dir.x as int, self.end_dir.x as int, el, d);
        lemma_arc_bound(self.start_dir.y as int, self.end_dir.y as int, el, d);
        assert(d * d > 0) by (nonlinear_arith) requires d > 0;
        assert((abs(self.start_dir.x as int) + abs(self.end_dir.x as int)) * (d * d) <= 0x20_0000_0000 * (d * d)) by (nonlinear_arith)
            requires abs(self.start_dir.x as int) + abs(self.end_dir.x as int) <= 0x20_0000_0000, d * d > 0;
        assert((abs(self.start_dir.y as int) + abs(self.end_dir.y as int)) * (d * d) <= 0x20_0000_0000 * (d * d)) by (nonlinear_arith)
            requires abs(self.start_dir.y as int) + abs(self.end_dir.y as int) <= 0x20_0000_0000, d * d > 0;
        lemma_div_trunc_bound(self.start_dir.x * el * d + self.end_dir.x * el * el, d * d, 0x20_0000_0000);
        lemma_div_trunc_bound(self.start_dir.y * el * d + self.end_dir.y * el * el, d * d, 0x20_0000_0000);
    }

    /// Where the bomb is now.
    pub fn position(&self) -> (r: Vec2)
        requires
            self.wf(),
        ensures
            r == self.position_spec(),
            abs(r.x - self.start_pos.x) <= 0x20_0000_0000,
            abs(r.y - self.start_pos.y) <= 0x20_0000_0000,
    {
        proof { self.lemma_position_fits(); }
        let el = self.timer.elapsed as i128;
        let d = self.timer.duration as i128;
        assert(el * d <= 0x1_0000_0000_0000 && el * el <= 0x1_0000_0000_0000) by (nonlinear_arith)
            requires 0 <= el <= d, d == 1_000_000;
        assert(abs(self.start_dir.x * (el * d)) <= 0x10_0000_0000 * 0x1_0000_0000_0000) by (nonlinear_arith)
            requires abs(self.start_dir.x as int) <= 0x10_0000_0000, 0 <= el * d <= 0x1_0000_0000_0000;
        assert(abs(self.start_dir.y * (el * d)) <= 0x10_0000_0000 * 0x1_0000_0000_0000) by (nonlinear_arith)
            requires abs(self.start_dir.y as int) <= 0x10_0000_0000, 0 <= el * d <= 0x1_0000_0000_0000;
        assert(abs(self.end_dir.x * (el * el)) <= 0x10_0000_0000 * 0x1_0000_0000_0000) by (nonlinear_arith)
            requires abs(self.end_dir.x as int) <= 0x10_0000_0000, 0 <= el * el <= 0x1_0000_0000_0000;
        assert(abs(self.end_dir.y * (el * el)) <= 0x10_0000_0000 * 0x1_0000_0000_0000) by (nonlinear_arith)
            requires abs(self.end_dir.y as int) <= 0x10_0000_0000, 0 <= el * el <= 0x1_0000_0000_0000;
        assert(self.start_dir.x * el * d == self.start_dir.x * (el * d)) by (nonlinear_arith);
        assert(self.start_dir.y * el * d == self.start_dir.y * (el * d)) by (nonlinear_arith);
        assert(self.end_dir.x * el * el == self.end_dir.x * (el * el)) by (nonlinear_arith);
        assert(self.end_dir.y * el * el == self.end_dir.y * (el * el)) by (nonlinear_arith);
        let nx = self.start_dir.x as i128 * (el * d) + self.end_dir.x as i128 * (el * el);
        let ny = self.start_dir.y as i128 * (el * d) + self.end_dir.y as i128 * (el * el);
        let ox = div_toward_zero(nx, d * d);
        let oy = div_toward_zero(ny, d * d);
        Vec2 { x: self.start_pos.x + ox as i64, y: self.start_pos.y + oy as i64 }
    }

    /// Advances the bomb by `delta` microseconds. When its flight ends it
    /// is to be destroyed, and the explosion it leaves at its landing
    /// point is returned.
    pub fn tick(&mut self, delta: u64) -> (r: Option<Explosion>)
        requires
            old(self).wf(),
        ensures
            final(self).wf(),
            final(self).timer == old(self).timer.ticked(delta).0,
            final(self).start_pos == old(self).start_pos,
            final(self).start_dir == old(self).start_dir,
            final(self).end_dir == old(self).end_dir,
            r.is_some() == old(self).timer.ticked(delta).1,
            r matches Some(x) ==> x == Explosion::new_spec(final(self).position_spec()),
    {
        let done = self.timer.tick(delta);
        if done {
            Some(Explosion::new(self.position()))
        } else {
            None
        }
    }
}

/// The bomb thrown from `start_pos` at the offset `target_dir`, before it
/// has flown.
pub open spec fn bomb_for(start_pos: Vec2, target_dir: Vec2) -> BombBullet {
    let s = start_leg(target_dir);
    BombBullet {
        start_pos,
        start_dir: s,
        end_dir: Vec2 { x: (target_dir.x - s.x) as i64, y: (target_dir.y - s.y) as i64 },
        timer: Timer { duration: BOMB_FLIGHT, elapsed: 0, repeating: false, finished: false },
    }
}

/// A bomb thrown from `start_pos` at the offset `target_dir`: the first leg
/// is `lerp(target_dir, up * |target_dir| * 5, 0.7)` and the second is
/// what remains of `target_dir`.
pub fn spawn_bomb_bullet(start_pos: Vec2, target_dir: Vec2) -> (r: BombBullet)
    requires
        pos_ok(start_pos),
        vec_ok(target_dir),
    ensures
        r.wf(),
        r == bomb_for(start_pos, target_dir),
        r.end_dir.x == target_dir.x - r.start_dir.x,
        r.end_dir.y == target_dir.y - r.start_dir.y,
{
    let mag = isqrt(length_squared(target_dir));
    let sx = div_toward_zero(3 * target_dir.x as i128, 10);
    let sy = div_toward_zero(3 * target_dir.y as i128 + 35 * mag as i128, 10);
    proof {
        lemma_div_trunc_bound(3 * target_dir.x, 10, 0x8000_0000);
        lemma_div_trunc_bound(3 * target_dir.y + 35 * mag, 10, 0x4_0000_0000);
    }
    let start_dir = Vec2 { x: sx as i64, y: sy as i64 };
    let end_dir = Vec2 { x: target_dir.x - start_dir.x, y: target_dir.y - start_dir.y };
    BombBullet { start_pos, start_dir, end_dir, timer: Timer::new(BOMB_FLIGHT, false) }
}

} // verus!
