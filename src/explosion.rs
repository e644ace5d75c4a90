//! The timed hazard a bomb leaves behind.
use vstd::prelude::*;
use crate::geometry::Vec2;
use crate::timer::Timer;

verus! {

/// How long an explosion harms enemies, in microseconds.
pub const DANGER_TIME: u64 = 150_000;

/// How long an explosion stays on the field, in microseconds.
pub const EXPLOSION_LIFETIME: u64 = 300_000;

/// Radius of an explosion's collision volume, in world units.
pub const EXPLOSION_RADIUS: i64 = 30;

/// An explosion: harmful while its danger timer runs, then harmless until
/// its lifetime timer runs out and it disappears.
#[derive(Clone, Copy, Debug, PartialEq, Eq, Structural)]
pub struct Explosion {
    pub pos: Vec2,
    pub danger_timer: Timer,
    pub lifetime_timer: Timer,
    /// The collision volume is still present.
    pub harmful: bool,
}

/// What one tick of an explosion did.
pub struct ExplosionTick {
    /// For each enemy, whether the explosion marks it dead.
    pub killed: Vec<bool>,
    /// The explosion has run out and is to be destroyed.
    pub despawn: bool,
}

pub open spec fn min(a: int, b: int) -> int {
    if a < b { a } else { b }
}

impl Explosion {
    pub open spec fn wf(&self) -> bool {
        &&& self.danger_timer.wf()
        &&& self.lifetime_timer.wf()
        &&& !self.danger_timer.repeating
        &&& !self.lifetime_timer.repeating
        &&& self.danger_timer.duration == DANGER_TIME
        &&& self.lifetime_timer.duration == EXPLOSION_LIFETIME
        &&& self.danger_timer.elapsed == min(self.lifetime_timer.elapsed as int, DANGER_TIME as int)
        &&& self.harmful == !self.danger_timer.finished
    }

    pub open spec fn new_spec(pos: Vec2) -> Explosion {
        Explosion {
            pos,
            danger_timer: Timer { duration: DANGER_TIME, elapsed: 0, repeating: false, finished: false },
            lifetime_timer: Timer { duration: EXPLOSION_LIFETIME, elapsed: 0, repeating: false, finished: false },
            harmful: true,
        }
    }

    /// A fresh, harmful explosion at `pos`.
    pub fn new(pos: Vec2) -> (r: Explosion)
        ensures
            r.wf(),
            r == Explosion::new_spec(pos),
    {
        Explosion {
            pos,
            danger_timer: Timer::new(DANGER_TIME, false),
            lifetime_timer: Timer::new(EXPLOSION_LIFETIME, false),
            harmful: true,
        }
    }

    /// The explosion after `delta` microseconds, and whether it is to be
    /// destroyed now.
    pub open spec fn ticked(self, delta: u64) -> (Explosion, bool) {
        let (danger, danger_done) = self.danger_timer.ticked(delta);
        let (lifetime, lifetime_done) = self.lifetime_timer.ticked(delta);
        (
            Explosion {
                danger_timer: danger,
                lifetime_timer: lifetime,
                harmful: self.harmful && !danger_done,
                ..self
            },
            lifetime_done,
        )
    }

    /// Whether this tick marks an enemy dead that intersects the explosion
    /// by `intersects`.
    pub open spec fn kills(self, intersects: bool) -> bool {
        self.harmful && intersects
    }

    /// One tick: every enemy whose collision volume intersects this one
    /// (`intersecting`, from the physics query) is marked dead while the
    /// explosion is harmful; then both timers advance by `delta`. The
    /// collision volume goes when the danger timer completes.
    pub fn tick(&mut self, delta: u64, intersecting: &Vec<bool>) -> (r: ExplosionTick)
        requires
            old(self).wf(),
        ensures
            final(self).wf(),
            (*final(self), r.despawn) == old(self).ticked(delta),
            r.killed@.len() == intersecting@.len(),
            forall|i: int| 0 <= i < intersecting@.len() ==> r.killed@[i] == old(self).kills(#[trigger] intersecting@[i]),
    {
        let mut killed: Vec<bool> = Vec::new();
        let mut k: usize = 0;
        while k < intersecting.len()
            invariant
                k <= intersecting@.len(),
                killed@.len() == k,
                forall|i: int| 0 <= i < k ==> killed@[i] == self.kills(#[trigger] intersecting@[i]),
            decreases intersecting@.len() - k,
        {
            killed.push(self.harmful && intersecting[k]);
            k = k + 1;
        }
        let despawn = self.lifetime_timer.tick(delta);
        let danger_done = self.danger_timer.tick(delta);
        if danger_done {
            self.harmful = false;
        }
        ExplosionTick { killed, despawn }
    }
}

} // verus!
