//! Properties that relate several operations or hold over whole runs.
use vstd::prelude::*;
use crate::explosion::Explosion;
use crate::geometry::{Vec2, pos_ok, vec_ok};
use crate::lifecycle::{
    Economy, HexCell, TOWER_COST_GROWTH, TOWERS_TO_SPAWN_BOSS, cell_is_empty, counted, lowered_cost,
    paid, placed, refund_units, removed,
};
use crate::projectile::{Bullet, BombBullet, BULLET_LIFETIME, BOMB_FLIGHT, arc_offset, bomb_for, travelled};
use crate::timer::Timer;
use crate::tower::ShootType;

verus! {

/// A placement on an empty cell plans exactly that cell, seeds its pile with
/// the current price and raises the price by one step; a second placement on
/// the now occupied cell changes nothing.
pub proof fn placement_on_empty_cell(c: HexCell, e: Economy, first: ShootType, second: ShootType)
    requires
        cell_is_empty(c),
        e.cost + TOWER_COST_GROWTH <= u32::MAX,
    ensures
        placed(c, e, first).0.preview,
        placed(c, e, first).0.coords == c.coords,
        placed(c, e, first).1.cost == e.cost + TOWER_COST_GROWTH,
        placed(c, e, first).2 == Some(e.cost),
        ({
            let (c1, e1, _) = placed(c, e, first);
            placed(c1, e1, second) == (c1, e1, Option::<u32>::None)
        }),
{
}

/// Paying off a preview yields a tower refunding `floor(amount * 0.8)`, and
/// the cell no longer holds a preview.
pub proof fn payment_builds_tower(c: HexCell, e: Economy, amount: u32)
    requires
        c.preview,
        c.pile,
    ensures
        paid(c, e, amount).2.built,
        !paid(c, e, amount).0.preview,
        paid(c, e, amount).0.tower matches Some(t) && t.refund == (amount as int * 8) / 10,
{
    assert((amount as int * 4) / 5 == (amount as int * 8) / 10) by (nonlinear_arith)
        requires amount >= 0;
}

/// A cell never holds a preview and a tower at once: placement, payment
/// and removal all keep them apart.
pub proof fn preview_and_tower_exclusive(c: HexCell, e: Economy, s: ShootType, amount: u32)
    requires
        !(c.preview && c.tower.is_some()),
    ensures
        !(placed(c, e, s).0.preview && placed(c, e, s).0.tower.is_some()),
        !(paid(c, e, amount).0.preview && paid(c, e, amount).0.tower.is_some()),
        !(removed(c, e).0.preview && removed(c, e).0.tower.is_some()),
{
}

/// The economy after `n` completed payments.
pub open spec fn after_completions(e: Economy, n: nat) -> Economy
    decreases n,
{
    if n == 0 { e } else { counted(after_completions(e, (n - 1) as nat)).0 }
}

/// Whether the `n`-th completed payment (from 1) signals the boss.
pub open spec fn boss_fires_at(e: Economy, n: nat) -> bool {
    n >= 1 && counted(after_completions(e, (n - 1) as nat)).1
}

proof fn lemma_after_completions(e: Economy, n: nat)
    requires
        e.wf(),
        !e.boss_spawned,
    ensures
        e.count + n < TOWERS_TO_SPAWN_BOSS ==> after_completions(e, n) == (Economy { count: (e.count + n) as u32, ..e }),
        e.count + n >= TOWERS_TO_SPAWN_BOSS ==> after_completions(e, n).boss_spawned,
    decreases n,
{
    if n > 0 {
        lemma_after_completions(e, (n - 1) as nat);
    }
}

proof fn lemma_spawned_stays(e: Economy, n: nat)
    requires
        e.boss_spawned,
    ensures
        after_completions(e, n) == e,
    decreases n,
{
    if n > 0 {
        lemma_spawned_stays(e, (n - 1) as nat);
    }
}

/// Over any run of completed payments the boss is signalled exactly once:
/// on the completion that brings the built-tower count to the threshold,
/// and never again; once signalled, never.
pub proof fn boss_fires_once(e: Economy, n: nat)
    requires
        e.wf(),
    ensures
        !e.boss_spawned ==> (boss_fires_at(e, n) <==> e.count + n == TOWERS_TO_SPAWN_BOSS),
        e.boss_spawned ==> !boss_fires_at(e, n),
{
    if n >= 1 {
        if e.boss_spawned {
            lemma_spawned_stays(e, (n - 1) as nat);
        } else {
            lemma_after_completions(e, (n - 1) as nat);
        }
    }
}

/// Removing a built tower refunding `R` pays out exactly `R` gold units and
/// lowers the price by one step, but never below one step.
pub proof fn removal_refunds_tower(c: HexCell, e: Economy)
    requires
        c.tower.is_some(),
    ensures
        refund_units(c) == c.tower.unwrap().refund,
        removed(c, e).1.cost == lowered_cost(e.cost),
        e.cost >= 2 * TOWER_COST_GROWTH ==> removed(c, e).1.cost == e.cost - TOWER_COST_GROWTH,
        e.cost >= TOWER_COST_GROWTH ==> removed(c, e).1.cost >= TOWER_COST_GROWTH,
        removed(c, e).0.tower.is_none(),
{
}

/// The price after `n` removals.
pub open spec fn lowered_times(cost: u32, n: nat) -> u32
    decreases n,
{
    if n == 0 { cost } else { lowered_cost(lowered_times(cost, (n - 1) as nat)) }
}

/// However many removals follow, a price of at least one step never drops
/// below one step, and never rises.
pub proof fn removals_keep_price_floor(cost: u32, n: nat)
    requires
        cost >= TOWER_COST_GROWTH,
    ensures
        TOWER_COST_GROWTH <= lowered_times(cost, n) <= cost,
    decreases n,
{
    if n > 0 {
        removals_keep_price_floor(cost, (n - 1) as nat);
    }
}

pub open spec fn total(ds: Seq<u64>) -> int
    decreases ds.len(),
{
    if ds.len() == 0 { 0 } else { total(ds.drop_last()) + ds.last() }
}

/// A timer after the ticks `ds`, and whether any of them completed it.
pub open spec fn run_timer(t: Timer, ds: Seq<u64>) -> (Timer, bool)
    decreases ds.len(),
{
    if ds.len() == 0 {
        (t, false)
    } else {
        let (before, done) = run_timer(t, ds.drop_last());
        let (after, now) = before.ticked(ds.last());
        (after, done || now)
    }
}

/// A one-shot timer that has not finished, ticked any number of times, has
/// counted all the time given to it up to its duration, and has reported
/// completion exactly when that time reached its duration.
pub proof fn one_shot_timer_run(t: Timer, ds: Seq<u64>)
    requires
        t.wf(),
        !t.repeating,
        !t.finished,
    ensures
        run_timer(t, ds).0.wf(),
        run_timer(t, ds).0.elapsed == if t.elapsed + total(ds) < t.duration { t.elapsed + total(ds) } else { t.duration as int },
        run_timer(t, ds).1 <==> t.elapsed + total(ds) >= t.duration,
        run_timer(t, ds).0.duration == t.duration,
        !run_timer(t, ds).0.repeating,
    decreases ds.len(),
{
    if ds.len() > 0 {
        one_shot_timer_run(t, ds.drop_last());
    }
}

/// A bullet fired with unit direction `d` is at `origin + d * speed * t`
/// after flying `t` microseconds within its lifetime, and is removed by the
/// tick on which its lifetime is reached, whatever it hit.
pub proof fn bullet_flight(b: Bullet, ds: Seq<u64>)
    requires
        b.wf(),
        b.timer.elapsed == 0,
    ensures
        total(ds) < BULLET_LIFETIME ==> (Bullet { timer: run_timer(b.timer, ds).0, ..b }).position_spec() == (
            b.origin.x + travelled(b.dir.x as int, total(ds)),
            b.origin.y + travelled(b.dir.y as int, total(ds)),
        ),
        run_timer(b.timer, ds).1 <==> total(ds) >= BULLET_LIFETIME,
{
    one_shot_timer_run(b.timer, ds);
}

proof fn lemma_whole_flight(s: int, e: int, d: int)
    requires
        d > 0,
    ensures
        arc_offset(s, e, d, d) == s + e,
        arc_offset(s, e, 0, d) == 0,
{
    let k = d * d;
    assert(k > 0) by (nonlinear_arith) requires d > 0, k == d * d;
    assert(s * d * d + e * d * d == (s + e) * k) by (nonlinear_arith) requires k == d * d;
    assert(s * 0 * d + e * 0 * 0 == 0) by (nonlinear_arith);
    vstd::arithmetic::div_mod::lemma_div_multiples_vanish(s + e, k);
    vstd::arithmetic::div_mod::lemma_div_multiples_vanish(-(s + e), k);
    assert(k * (s + e) == (s + e) * k) by (nonlinear_arith);
    assert(-((s + e) * k) == k * (-(s + e))) by (nonlinear_arith);
    assert(0int / k == 0);
}

/// A bomb thrown at offset `dir` starts at `start_pos` and lands exactly
/// at `start_pos + start_dir + end_dir`, which is `start_pos + dir`.
pub proof fn bomb_arc_endpoints(start_pos: Vec2, dir: Vec2)
    requires
        pos_ok(start_pos),
        vec_ok(dir),
        bomb_for(start_pos, dir).wf(),
    ensures
        bomb_for(start_pos, dir).position_spec() == start_pos,
        ({
            let b = bomb_for(start_pos, dir);
            let landed = BombBullet { timer: Timer { elapsed: BOMB_FLIGHT, finished: true, ..b.timer }, ..b };
            &&& landed.position_spec().x == start_pos.x + b.start_dir.x + b.end_dir.x
            &&& landed.position_spec().y == start_pos.y + b.start_dir.y + b.end_dir.y
            &&& b.start_dir.x + b.end_dir.x == dir.x
            &&& b.start_dir.y + b.end_dir.y == dir.y
        }),
{
    let b = bomb_for(start_pos, dir);
    lemma_whole_flight(b.start_dir.x as int, b.end_dir.x as int, BOMB_FLIGHT as int);
    lemma_whole_flight(b.start_dir.y as int, b.end_dir.y as int, BOMB_FLIGHT as int);
}

/// An explosion after the ticks `ds`.
pub open spec fn run_explosion(x: Explosion, ds: Seq<u64>) -> Explosion
    decreases ds.len(),
{
    if ds.len() == 0 { x } else { run_explosion(x, ds.drop_last()).ticked(ds.last()).0 }
}

/// Once an explosion's danger has passed it stays harmless for the rest of
/// its life: no enemy that overlaps it later is marked dead.
pub proof fn spent_explosion_harmless(x: Explosion, ds: Seq<u64>, intersects: bool)
    requires
        x.wf(),
        !x.harmful,
    ensures
        run_explosion(x, ds).wf(),
        !run_explosion(x, ds).harmful,
        !run_explosion(x, ds).kills(intersects),
    decreases ds.len(),
{
    if ds.len() > 0 {
        spent_explosion_harmless(x, ds.drop_last(), intersects);
    }
}

/// An explosion stops harming no later than the tick on which it is
/// destroyed.
pub proof fn danger_ends_before_lifetime(x: Explosion, delta: u64)
    requires
        x.wf(),
    ensures
        x.ticked(delta).1 ==> !x.ticked(delta).0.harmful,
{
}

} // verus!
