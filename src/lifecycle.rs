//! Tower lifecycle and the economy around it: previews placed on empty
//! cells, previews turned into towers once paid for, towers removed for a
//! refund, and the one-shot boss milestone.
use vstd::prelude::*;
use crate::geometry::Vec2;
use crate::timer::{Timer, MICROS_PER_SECOND};
use crate::tower::{HexCoords, ShootType, Tower, TOWER_RANGE};

verus! {

/// Price step: each placement raises the price of the next preview by
/// this much, each removal lowers it by as much.
pub const TOWER_COST_GROWTH: u32 = 2;

/// Number of built towers at which the boss appears.
pub const TOWERS_TO_SPAWN_BOSS: u32 = 10;

/// Price of the first preview.
pub const START_COST: u32 = 5;

/// Process-wide price and tower-count state.
#[derive(Clone, Copy, Debug, PartialEq, Eq, Structural)]
pub struct Economy {
    /// Gold needed to pay off the next preview.
    pub cost: u32,
    /// Towers built so far (counted until the boss appears).
    pub count: u32,
    pub boss_spawned: bool,
}

/// One grid cell and what stands on it.
#[derive(Clone, Copy, Debug, PartialEq, Eq, Structural)]
pub struct HexCell {
    pub coords: HexCoords,
    /// Centre of the cell in world units.
    pub pos: Vec2,
    /// An unpaid tower is planned here.
    pub preview: bool,
    /// A payment accumulator (gold pile) lies here.
    pub pile: bool,
    /// The planned or built tower throws bombs.
    pub arc: bool,
    pub tower: Option<Tower>,
}

/// What completing a payment did.
#[derive(Clone, Copy, Debug, PartialEq, Eq, Structural)]
pub struct PaymentOutcome {
    /// A preview became a tower; its payment pile is to be removed.
    pub built: bool,
    /// The boss is to appear now.
    pub boss_spawn: bool,
}

/// The tower that a paid preview becomes.
pub open spec fn built_tower(coords: HexCoords, amount: u32, arc: bool) -> Tower {
    Tower {
        coords,
        refund: refund_for(amount),
        shoot_type: if arc { ShootType::Arc } else { ShootType::Bullet },
        shoot_timer: Timer { duration: MICROS_PER_SECOND, elapsed: 0, repeating: true, finished: false },
        can_shoot: true,
        range: TOWER_RANGE,
    }
}

/// Eighty percent of the amount paid, rounded down.
pub open spec fn refund_for(amount: u32) -> u32 {
    (amount * 4 / 5) as u32
}

pub open spec fn cell_is_empty(c: HexCell) -> bool {
    !c.preview && !c.pile && c.tower.is_none()
}

/// The price after a removal: one step lower, but never below one step.
pub open spec fn lowered_cost(cost: u32) -> u32 {
    if cost <= TOWER_COST_GROWTH {
        cost
    } else if cost - TOWER_COST_GROWTH < TOWER_COST_GROWTH {
        TOWER_COST_GROWTH
    } else {
        (cost - TOWER_COST_GROWTH) as u32
    }
}

/// A placement request on `c`: cell, economy and the price the new pile is
/// seeded with.
pub open spec fn placed(c: HexCell, e: Economy, shoot_type: ShootType) -> (HexCell, Economy, Option<u32>) {
    if cell_is_empty(c) {
        (
            HexCell { preview: true, pile: true, arc: c.arc || shoot_type == ShootType::Arc, ..c },
            Economy { cost: (e.cost + TOWER_COST_GROWTH) as u32, ..e },
            Some(e.cost),
        )
    } else {
        (c, e, None)
    }
}

/// The economy after one more tower was built.
pub open spec fn counted(e: Economy) -> (Economy, bool) {
    if e.boss_spawned {
        (e, false)
    } else if e.count + 1 == TOWERS_TO_SPAWN_BOSS {
        (Economy { count: (e.count + 1) as u32, boss_spawned: true, ..e }, true)
    } else {
        (Economy { count: (e.count + 1) as u32, ..e }, false)
    }
}

/// A completed payment of `amount` on `c`.
pub open spec fn paid(c: HexCell, e: Economy, amount: u32) -> (HexCell, Economy, PaymentOutcome) {
    if c.preview && c.pile {
        (
            HexCell {
                preview: false,
                pile: false,
                tower: Some(built_tower(c.coords, amount, c.arc)),
                ..c
            },
            counted(e).0,
            PaymentOutcome { built: true, boss_spawn: counted(e).1 },
        )
    } else {
        (c, e, PaymentOutcome { built: false, boss_spawn: false })
    }
}

/// Whether a removal request on `c` does anything: a lone pile is left
/// alone, and so is a cell with nothing planned or built.
pub open spec fn removable(c: HexCell) -> bool {
    c.preview || c.tower.is_some()
}

/// Refund units paid out when `c` is cleared.
pub open spec fn refund_units(c: HexCell) -> nat {
    match c.tower {
        Some(t) => t.refund as nat,
        None => 0,
    }
}

/// A removal request on `c`.
pub open spec fn removed(c: HexCell, e: Economy) -> (HexCell, Economy) {
    if removable(c) {
        (
            HexCell { preview: false, arc: false, tower: None, ..c },
            Economy {
                cost: lowered_cost(e.cost),
                count: if c.tower.is_some() && !e.boss_spawned && e.count > 1 {
                    (e.count - 1) as u32
                } else {
                    e.count
                },
                ..e
            },
        )
    } else {
        (c, e)
    }
}

impl Economy {
    pub open spec fn wf(&self) -> bool {
        &&& self.count <= TOWERS_TO_SPAWN_BOSS
        &&& !self.boss_spawned ==> self.count < TOWERS_TO_SPAWN_BOSS
    }

    pub open spec fn new_spec() -> Economy {
        Economy { cost: START_COST, count: 0, boss_spawned: false }
    }

    /// The starting economy: price five, nothing built, no boss yet.
    pub fn new() -> (r: Economy)
        ensures
            r.wf(),
            r == Economy::new_spec(),
    {
        Economy { cost: START_COST, count: 0, boss_spawned: false }
    }

    /// Plans a tower on `cell` if the cell is empty: marks the preview and
    /// its pile, tags bomb towers, and raises the price. Returns the price
    /// that the pile must collect, or `None` when the cell was occupied.
    pub fn place_preview(&mut self, cell: &mut HexCell, shoot_type: ShootType) -> (r: Option<u32>)
        requires
            old(self).cost + TOWER_COST_GROWTH <= u32::MAX,
        ensures
            (*final(cell), *final(self), r) == placed(*old(cell), *old(self), shoot_type),
    {
        if cell.preview || cell.pile || cell.tower.is_some() {
            return None;
        }
        let price = self.cost;
        cell.preview = true;
        cell.pile = true;
        if shoot_type == ShootType::Arc {
            cell.arc = true;
        }
        self.cost = self.cost + TOWER_COST_GROWTH;
        Some(price)
    }

    /// Counts one more built tower; returns whether the boss appears now.
    pub fn count_built(&mut self) -> (boss: bool)
        requires
            old(self).wf(),
        ensures
            final(self).wf(),
            (*final(self), boss) == counted(*old(self)),
    {
        if self.boss_spawned {
            return false;
        }
        self.count = self.count + 1;
        if self.count == TOWERS_TO_SPAWN_BOSS {
            self.boss_spawned = true;
            true
        } else {
            false
        }
    }

    /// Turns the paid preview on `cell` into a tower refunding 80% of
    /// `amount`, and counts it toward the boss milestone. Nothing happens
    /// when `cell` holds no preview with its pile.
    pub fn complete_payment(&mut self, cell: &mut HexCell, amount: u32) -> (r: PaymentOutcome)
        requires
            old(self).wf(),
        ensures
            final(self).wf(),
            (*final(cell), *final(self), r) == paid(*old(cell), *old(self), amount),
    {
        if !(cell.preview && cell.pile) {
            return PaymentOutcome { built: false, boss_spawn: false };
        }
        let refund = ((amount as u64) * 4 / 5) as u32;
        let mut tower = Tower::new(cell.coords, refund);
        if cell.arc {
            tower.shoot_type = ShootType::Arc;
        }
        cell.preview = false;
        cell.pile = false;
        cell.tower = Some(tower);
        let boss = self.count_built();
        PaymentOutcome { built: true, boss_spawn: boss }
    }

    /// Clears the planned or built tower on `cell`: returns one gold-spawn
    /// signal (the cell's centre) per refund unit of a built tower,
    /// lowers the price one step (never below one step) and, before the
    /// boss, uncounts a built tower (never below one). A cell with only a
    /// pile, or with nothing, is left alone.
    pub fn clear_cell(&mut self, cell: &mut HexCell) -> (gold: Vec<Vec2>)
        requires
            old(self).wf(),
        ensures
            final(self).wf(),
            (*final(cell), *final(self)) == removed(*old(cell), *old(self)),
            gold@ == Seq::new(refund_units(*old(cell)), |k: int| old(cell).pos),
    {
        let mut gold: Vec<Vec2> = Vec::new();
        if !(cell.preview || cell.tower.is_some()) {
            assert(gold@ =~= Seq::new(refund_units(*old(cell)), |k: int| old(cell).pos));
            return gold;
        }
        if let Some(t) = cell.tower {
            let mut k: u32 = 0;
            while k < t.refund
                invariant
                    k <= t.refund,
                    gold@ == Seq::new(k as nat, |j: int| cell.pos),
                decreases t.refund - k,
            {
                gold.push(cell.pos);
                k = k + 1;
                assert(gold@ =~= Seq::new(k as nat, |j: int| cell.pos));
            }
            if !self.boss_spawned && self.count > 1 {
                self.count = self.count - 1;
            }
        } else {
            assert(gold@ =~= Seq::new(refund_units(*old(cell)), |k: int| old(cell).pos));
        }
        if self.cost > TOWER_COST_GROWTH {
            if self.cost - TOWER_COST_GROWTH < TOWER_COST_GROWTH {
                self.cost = TOWER_COST_GROWTH;
            } else {
                self.cost = self.cost - TOWER_COST_GROWTH;
            }
        }
        cell.preview = false;
        cell.arc = false;
        cell.tower = None;
        gold
    }
}

impl HexCell {
    pub open spec fn empty_spec(coords: HexCoords, pos: Vec2) -> HexCell {
        HexCell { coords, pos, preview: false, pile: false, arc: false, tower: None }
    }

    /// An empty cell at `coords`, centred on `pos`.
    pub fn new(coords: HexCoords, pos: Vec2) -> (r: HexCell)
        ensures
            r == HexCell::empty_spec(coords, pos),
            cell_is_empty(r),
    {
        HexCell { coords, pos, preview: false, pile: false, arc: false, tower: None }
    }
}

} // verus!
