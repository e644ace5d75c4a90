//! The grid of cells with the economy, addressed by coordinates.
use vstd::prelude::*;
use crate::geometry::{Vec2, pos_ok};
use crate::lifecycle::{Economy, HexCell, PaymentOutcome, TOWER_COST_GROWTH, placed, paid, removed, refund_units};
use crate::tower::{EnemyInfo, HexCoords, ShootType, Shot, enemies_ok};

verus! {

/// Every cell of the grid, each at its own coordinates, and the economy.
pub struct Board {
    pub cells: Vec<HexCell>,
    pub economy: Economy,
}

pub open spec fn coords_unique(cells: Seq<HexCell>) -> bool {
    forall|i: int, j: int|
        0 <= i < cells.len() && 0 <= j < cells.len() && i != j ==> #[trigger] cells[i].coords != #[trigger] cells[j].coords
}

/// Each cell lies on the field and each of its towers is well formed.
pub open spec fn cell_ok(c: HexCell) -> bool {
    pos_ok(c.pos) && (c.tower matches Some(t) ==> t.wf())
}

pub open spec fn cells_ok(cells: Seq<HexCell>) -> bool {
    forall|i: int| 0 <= i < cells.len() ==> #[trigger] cell_ok(cells[i])
}

/// A cell after one tick of target acquisition, and the shot taken from it.
pub open spec fn cell_fired(c: HexCell, es: Seq<EnemyInfo>, delta: u64) -> (HexCell, Option<Shot>) {
    match c.tower {
        Some(t) => {
            let (t2, shot) = t.fired(c.pos, es, delta);
            (HexCell { tower: Some(t2), ..c }, shot)
        },
        None => (c, None),
    }
}

pub open spec fn holds_coords(cells: Seq<HexCell>, c: HexCoords, i: int) -> bool {
    0 <= i < cells.len() && cells[i].coords == c
}

/// Position of the cell at `c`, if the grid has one.
pub open spec fn lookup(cells: Seq<HexCell>, c: HexCoords) -> Option<int> {
    if exists|i: int| holds_coords(cells, c, i) {
        Some(choose|i: int| holds_coords(cells, c, i))
    } else {
        None
    }
}

impl Board {
    pub open spec fn wf(&self) -> bool {
        self.economy.wf() && coords_unique(self.cells@) && cells_ok(self.cells@)
    }

    /// A grid with no cells and the starting economy.
    pub fn new() -> (r: Board)
        ensures
            r.wf(),
            r.cells@.len() == 0,
            r.economy == Economy::new_spec(),
    {
        Board { cells: Vec::new(), economy: Economy::new() }
    }

    /// Index of the cell at `coords`.
    pub fn find(&self, coords: HexCoords) -> (r: Option<usize>)
        requires
            coords_unique(self.cells@),
        ensures
            r matches Some(i) ==> lookup(self.cells@, coords) == Some(i as int),
            r.is_none() ==> lookup(self.cells@, coords).is_none(),
    {
        let mut k: usize = 0;
        while k < self.cells.len()
            invariant
                coords_unique(self.cells@),
                k <= self.cells@.len(),
                forall|j: int| 0 <= j < k ==> !holds_coords(self.cells@, coords, j),
            decreases self.cells@.len() - k,
        {
            if self.cells[k].coords == coords {
                proof {
                    assert(holds_coords(self.cells@, coords, k as int));
                    let j = choose|j: int| holds_coords(self.cells@, coords, j);
                    if j != k {
                        assert(self.cells@[j].coords != self.cells@[k as int].coords);
                    }
                }
                return Some(k);
            }
            k = k + 1;
        }
        None
    }

    /// Adds an empty cell at `coords`, centred on `pos`; returns `false`,
    /// changing nothing, when the grid already has a cell there.
    pub fn add_hex(&mut self, coords: HexCoords, pos: Vec2) -> (r: bool)
        requires
            old(self).wf(),
            pos_ok(pos),
        ensures
            final(self).wf(),
            final(self).economy == old(self).economy,
            r == lookup(old(self).cells@, coords).is_none(),
            r ==> final(self).cells@ == old(self).cells@.push(HexCell::empty_spec(coords, pos)),
            !r ==> final(self).cells@ == old(self).cells@,
    {
        if self.find(coords).is_some() {
            return false;
        }
        let ghost before = self.cells@;
        self.cells.push(HexCell::new(coords, pos));
        assert(cell_ok(self.cells@[before.len() as int]));
        assert forall|i: int| 0 <= i < self.cells@.len() implies #[trigger] cell_ok(self.cells@[i]) by {
            if i < before.len() {
                assert(self.cells@[i] == before[i]);
            }
        }
        assert forall|i: int, j: int|
            0 <= i < self.cells@.len() && 0 <= j < self.cells@.len() && i != j implies
            #[trigger] self.cells@[i].coords != #[trigger] self.cells@[j].coords by {
            if i == before.len() {
                assert(!holds_coords(before, coords, j));
            } else if j == before.len() {
                assert(!holds_coords(before, coords, i));
            }
        }
        true
    }

    /// The cell at `coords`, if any.
    pub fn cell(&self, coords: HexCoords) -> (r: Option<HexCell>)
        requires
            coords_unique(self.cells@),
        ensures
            r matches Some(c) ==> lookup(self.cells@, coords) matches Some(i) && c == self.cells@[i],
            r.is_none() ==> lookup(self.cells@, coords).is_none(),
    {
        match self.find(coords) {
            Some(i) => Some(self.cells[i]),
            None => None,
        }
    }

    /// A placement request at `coords`: on an empty cell a preview is
    /// planned and the price rises one step; the result is the price the
    /// new pile must collect. Occupied or unknown cells are left alone.
    pub fn spawn_tower_preview(&mut self, coords: HexCoords, shoot_type: ShootType) -> (r: Option<u32>)
        requires
            old(self).wf(),
            old(self).economy.cost + TOWER_COST_GROWTH <= u32::MAX,
        ensures
            final(self).wf(),
            match lookup(old(self).cells@, coords) {
                Some(i) => {
                    let s = placed(old(self).cells@[i], old(self).economy, shoot_type);
                    &&& final(self).cells@ == old(self).cells@.update(i, s.0)
                    &&& final(self).economy == s.1
                    &&& r == s.2
                },
                None => *final(self) == *old(self) && r.is_none(),
            },
    {
        match self.find(coords) {
            None => None,
            Some(i) => {
                let mut c = self.cells[i];
                let r = self.economy.place_preview(&mut c, shoot_type);
                self.cells.set(i, c);
                proof {
                    assert(cell_ok(old(self).cells@[i as int]));
                    self.lemma_update_keeps_unique(old(self).cells@, i as int);
                }
                r
            },
        }
    }

    /// A payment at `coords` completed with `amount` gold: a preview there
    /// becomes a tower (see `Economy::complete_payment`).
    pub fn preview_paid_for(&mut self, coords: HexCoords, amount: u32) -> (r: PaymentOutcome)
        requires
            old(self).wf(),
        ensures
            final(self).wf(),
            match lookup(old(self).cells@, coords) {
                Some(i) => {
                    let s = paid(old(self).cells@[i], old(self).economy, amount);
                    &&& final(self).cells@ == old(self).cells@.update(i, s.0)
                    &&& final(self).economy == s.1
                    &&& r == s.2
                },
                None => *final(self) == *old(self) && !r.built && !r.boss_spawn,
            },
    {
        match self.find(coords) {
            None => PaymentOutcome { built: false, boss_spawn: false },
            Some(i) => {
                let mut c = self.cells[i];
                let r = self.economy.complete_payment(&mut c, amount);
                self.cells.set(i, c);
                proof {
                    assert(cell_ok(old(self).cells@[i as int]));
                    self.lemma_update_keeps_unique(old(self).cells@, i as int);
                }
                r
            },
        }
    }

    /// A removal request at `coords` (see `Economy::clear_cell`): returns one
    /// gold-spawn signal, at the cell's centre, per refund unit.
    pub fn remove_tower(&mut self, coords: HexCoords) -> (gold: Vec<Vec2>)
        requires
            old(self).wf(),
        ensures
            final(self).wf(),
            match lookup(old(self).cells@, coords) {
                Some(i) => {
                    let s = removed(old(self).cells@[i], old(self).economy);
                    &&& final(self).cells@ == old(self).cells@.update(i, s.0)
                    &&& final(self).economy == s.1
                    &&& gold@ == Seq::new(refund_units(old(self).cells@[i]), |k: int| old(self).cells@[i].pos)
                },
                None => *final(self) == *old(self) && gold@.len() == 0,
            },
    {
        match self.find(coords) {
            None => Vec::new(),
            Some(i) => {
                let mut c = self.cells[i];
                let gold = self.economy.clear_cell(&mut c);
                self.cells.set(i, c);
                proof {
                    assert(cell_ok(old(self).cells@[i as int]));
                    self.lemma_update_keeps_unique(old(self).cells@, i as int);
                }
                gold
            },
        }
    }

    /// One tick of target acquisition over every tower on the grid, in
    /// cell order: each tower on cooldown advances its timer, each ready
    /// tower fires at its nearest enemy if in range. Returns, per cell, the
    /// shot taken from it.
    pub fn tower_shoot(&mut self, enemies: &Vec<EnemyInfo>, delta: u64) -> (shots: Vec<Option<Shot>>)
        requires
            old(self).wf(),
            enemies_ok(enemies@),
        ensures
            final(self).wf(),
            final(self).economy == old(self).economy,
            final(self).cells@.len() == old(self).cells@.len(),
            shots@.len() == old(self).cells@.len(),
            forall|i: int| 0 <= i < old(self).cells@.len() ==>
                (#[trigger] final(self).cells@[i], shots@[i]) == cell_fired(old(self).cells@[i], enemies@, delta),
    {
        let mut shots: Vec<Option<Shot>> = Vec::new();
        let mut k: usize = 0;
        while k < self.cells.len()
            invariant
                enemies_ok(enemies@),
                self.economy == old(self).economy,
                self.cells@.len() == old(self).cells@.len(),
                coords_unique(old(self).cells@),
                cells_ok(old(self).cells@),
                cells_ok(self.cells@),
                k <= self.cells@.len(),
                shots@.len() == k,
                forall|i: int| 0 <= i < k ==>
                    (#[trigger] self.cells@[i], shots@[i]) == cell_fired(old(self).cells@[i], enemies@, delta),
                forall|i: int| k <= i < self.cells@.len() ==> #[trigger] self.cells@[i] == old(self).cells@[i],
            decreases self.cells@.len() - k,
        {
            let mut c = self.cells[k];
            assert(cell_ok(old(self).cells@[k as int]));
            let shot = match c.tower {
                Some(t) => {
                    let mut t2 = t;
                    let s = t2.shoot(c.pos, enemies, delta);
                    c.tower = Some(t2);
                    s
                },
                None => None,
            };
            let ghost before = self.cells@;
            self.cells.set(k, c);
            shots.push(shot);
            proof {
                assert(cell_ok(c));
                assert forall|a: int| 0 <= a < self.cells@.len() implies #[trigger] cell_ok(self.cells@[a]) by {
                    if a != k {
                        assert(cell_ok(before[a]));
                    }
                }
            }
            k = k + 1;
        }
        proof {
            assert forall|a: int, b: int|
                0 <= a < self.cells@.len() && 0 <= b < self.cells@.len() && a != b implies
                #[trigger] self.cells@[a].coords != #[trigger] self.cells@[b].coords by {
                assert(self.cells@[a].coords == old(self).cells@[a].coords);
                assert(self.cells@[b].coords == old(self).cells@[b].coords);
                assert(old(self).cells@[a].coords != old(self).cells@[b].coords);
            }
        }
        shots
    }

    proof fn lemma_update_keeps_unique(&self, before: Seq<HexCell>, i: int)
        requires
            coords_unique(before),
            0 <= i < before.len(),
            cells_ok(before),
            self.cells@.len() == before.len(),
            self.cells@[i].coords == before[i].coords,
            cell_ok(self.cells@[i]),
            forall|j: int| 0 <= j < before.len() && j != i ==> self.cells@[j] == before[j],
        ensures
            coords_unique(self.cells@),
            cells_ok(self.cells@),
    {
        assert forall|a: int| 0 <= a < self.cells@.len() implies #[trigger] cell_ok(self.cells@[a]) by {
            if a != i {
                assert(cell_ok(before[a]));
            }
        }
        assert forall|a: int, b: int|
            0 <= a < self.cells@.len() && 0 <= b < self.cells@.len() && a != b implies
            #[trigger] self.cells@[a].coords != #[trigger] self.cells@[b].coords by {
            assert(before[a].coords != before[b].coords);
        }
    }
}

} // verus!
