//! The action board: the spaces open this round, their accumulated goods,
//! and the round cards still to be revealed.

use vstd::prelude::*;
use crate::agricolaaction::AgricolaTile;
use crate::misc::copy_vec;

verus! {

/// One action space: who stands on it and how many goods lie on it.
#[derive(Debug, Clone, Copy, PartialEq, Eq, Structural)]
pub struct BoardTile {
    pub occupied: Option<usize>,
    pub items: usize,
    pub reset_amount: usize,
}

/// The mathematical image of the board.
pub ghost struct BoardV {
    pub tiles: Seq<(AgricolaTile, BoardTile)>,
    pub future_tiles: Seq<(AgricolaTile, BoardTile)>,
}

/// The board: open spaces in a fixed order, and the stack of round cards,
/// revealed from the back.
#[derive(Debug)]
pub struct Board {
    pub tiles: Vec<(AgricolaTile, BoardTile)>,
    pub future_tiles: Vec<(AgricolaTile, BoardTile)>,
}

impl View for Board {
    type V = BoardV;

    open spec fn view(&self) -> BoardV {
        BoardV { tiles: self.tiles@, future_tiles: self.future_tiles@ }
    }
}

impl Clone for Board {
    fn clone(&self) -> (r: Self)
        ensures
            r@ == self@,
    {
        Board { tiles: copy_vec(&self.tiles), future_tiles: copy_vec(&self.future_tiles) }
    }
}

/// The action-space kinds of the open spaces and the round stack together.
pub open spec fn board_kinds(b: BoardV) -> Seq<AgricolaTile> {
    b.tiles.map_values(|p: (AgricolaTile, BoardTile)| p.0)
        + b.future_tiles.map_values(|p: (AgricolaTile, BoardTile)| p.0)
}

/// In a sound board at most one open-board position carries each kind.
proof fn lemma_unique_kind(b: BoardV, t: AgricolaTile, i: int)
    requires
        forall|x: int, y: int| 0 <= x < y < board_kinds(b).len()
            ==> #[trigger] board_kinds(b)[x] != #[trigger] board_kinds(b)[y],
        0 <= i < b.tiles.len(),
        b.tiles[i].0 == t,
    ensures
        forall|j: int| 0 <= j < b.tiles.len() && (#[trigger] b.tiles[j]).0 == t ==> j == i,
{
    assert forall|j: int| 0 <= j < b.tiles.len() && (#[trigger] b.tiles[j]).0 == t
        implies j == i by {
        assert(board_kinds(b)[i] == b.tiles[i].0);
        assert(board_kinds(b)[j] == b.tiles[j].0);
        if j < i {
            assert(board_kinds(b)[j] != board_kinds(b)[i]);
        } else if j > i {
            assert(board_kinds(b)[i] != board_kinds(b)[j]);
        }
    }
}

impl Board {
    /// No action space appears twice, on the board or in the stack, and no
    /// space replenishes by more than three goods.
    pub open spec fn wf(&self) -> bool {
        &&& forall|i: int, j: int| 0 <= i < j < board_kinds(self@).len()
            ==> #[trigger] board_kinds(self@)[i] != #[trigger] board_kinds(self@)[j]
        &&& forall|i: int| 0 <= i < self@.tiles.len()
            ==> (#[trigger] self@.tiles[i]).1.reset_amount <= 3
        &&& forall|i: int| 0 <= i < self@.future_tiles.len()
            ==> (#[trigger] self@.future_tiles[i]).1.reset_amount <= 3
    }

    /// The starting board: the ten base spaces, the first round card
    /// already revealed, and the remaining fourteen cards stacked in the
    /// order the rounds will reveal them.
    pub fn new() -> (r: Board)
        ensures
            r.wf(),
            r@.tiles.len() == 11,
            r@.future_tiles.len() == 13,
            forall|i: int| 0 <= i < r@.tiles.len()
                ==> (#[trigger] r@.tiles[i]).1.occupied is None,
            r@.tiles == seq![
                (AgricolaTile::BuildRoom_BuildStables, BoardTile { occupied: None, items: 0, reset_amount: 0 }),
                (AgricolaTile::StartingPlayer_Food, BoardTile { occupied: None, items: 1, reset_amount: 1 }),
                (AgricolaTile::Grain, BoardTile { occupied: None, items: 0, reset_amount: 0 }),
                (AgricolaTile::Plow, BoardTile { occupied: None, items: 0, reset_amount: 0 }),
                (AgricolaTile::BuildStable_BakeBread, BoardTile { occupied: None, items: 0, reset_amount: 0 }),
                (AgricolaTile::DayLaborer, BoardTile { occupied: None, items: 0, reset_amount: 0 }),
                (AgricolaTile::Wood, BoardTile { occupied: None, items: 3, reset_amount: 3 }),
                (AgricolaTile::Clay, BoardTile { occupied: None, items: 1, reset_amount: 1 }),
                (AgricolaTile::Reed, BoardTile { occupied: None, items: 1, reset_amount: 1 }),
                (AgricolaTile::Fishing, BoardTile { occupied: None, items: 1, reset_amount: 1 }),
                (AgricolaTile::MajorImprovement, BoardTile { occupied: None, items: 0, reset_amount: 0 }),
            ],
            r@.future_tiles == seq![
                (AgricolaTile::Renovation_Fences, BoardTile { occupied: None, items: 0, reset_amount: 0 }),
                (AgricolaTile::Plow_Sow, BoardTile { occupied: None, items: 0, reset_amount: 0 }),
                (AgricolaTile::FamilyGrowth_NoSpace, BoardTile { occupied: None, items: 0, reset_amount: 0 }),
                (AgricolaTile::Cattle, BoardTile { occupied: None, items: 1, reset_amount: 1 }),
                (AgricolaTile::Stone_2, BoardTile { occupied: None, items: 1, reset_amount: 1 }),
                (AgricolaTile::Vegetable, BoardTile { occupied: None, items: 0, reset_amount: 0 }),
                (AgricolaTile::Boar, BoardTile { occupied: None, items: 1, reset_amount: 1 }),
                (AgricolaTile::Stone_1, BoardTile { occupied: None, items: 1, reset_amount: 1 }),
                (AgricolaTile::FamilyGrowth, BoardTile { occupied: None, items: 0, reset_amount: 0 }),
                (AgricolaTile::Renovation_MajorImprovement, BoardTile { occupied: None, items: 0, reset_amount: 0 }),
                (AgricolaTile::Fences, BoardTile { occupied: None, items: 0, reset_amount: 0 }),
                (AgricolaTile::Sheep, BoardTile { occupied: None, items: 1, reset_amount: 1 }),
                (AgricolaTile::Sow_BakeBread, BoardTile { occupied: None, items: 0, reset_amount: 0 }),
            ],
    {
        let mut future_tiles: Vec<(AgricolaTile, BoardTile)> = Vec::new();
        future_tiles.push((AgricolaTile::Renovation_Fences, BoardTile { occupied: None, items: 0, reset_amount: 0 }));
        future_tiles.push((AgricolaTile::Plow_Sow, BoardTile { occupied: None, items: 0, reset_amount: 0 }));
        future_tiles.push((AgricolaTile::FamilyGrowth_NoSpace, BoardTile { occupied: None, items: 0, reset_amount: 0 }));
        future_tiles.push((AgricolaTile::Cattle, BoardTile { occupied: None, items: 1, reset_amount: 1 }));
        future_tiles.push((AgricolaTile::Stone_2, BoardTile { occupied: None, items: 1, reset_amount: 1 }));
        future_tiles.push((AgricolaTile::Vegetable, BoardTile { occupied: None, items: 0, reset_amount: 0 }));
        future_tiles.push((AgricolaTile::Boar, BoardTile { occupied: None, items: 1, reset_amount: 1 }));
        future_tiles.push((AgricolaTile::Stone_1, BoardTile { occupied: None, items: 1, reset_amount: 1 }));
        future_tiles.push((AgricolaTile::FamilyGrowth, BoardTile { occupied: None, items: 0, reset_amount: 0 }));
        future_tiles.push((AgricolaTile::Renovation_MajorImprovement, BoardTile { occupied: None, items: 0, reset_amount: 0 }));
        future_tiles.push((AgricolaTile::Fences, BoardTile { occupied: None, items: 0, reset_amount: 0 }));
        future_tiles.push((AgricolaTile::Sheep, BoardTile { occupied: None, items: 1, reset_amount: 1 }));
        future_tiles.push((AgricolaTile::Sow_BakeBread, BoardTile { occupied: None, items: 0, reset_amount: 0 }));
        future_tiles.push((AgricolaTile::MajorImprovement, BoardTile { occupied: None, items: 0, reset_amount: 0 }));
        let mut tiles: Vec<(AgricolaTile, BoardTile)> = Vec::new();
        tiles.push((AgricolaTile::BuildRoom_BuildStables, BoardTile { occupied: None, items: 0, reset_amount: 0 }));
        tiles.push((AgricolaTile::StartingPlayer_Food, BoardTile { occupied: None, items: 1, reset_amount: 1 }));
        tiles.push((AgricolaTile::Grain, BoardTile { occupied: None, items: 0, reset_amount: 0 }));
        tiles.push((AgricolaTile::Plow, BoardTile { occupied: None, items: 0, reset_amount: 0 }));
        tiles.push((AgricolaTile::BuildStable_BakeBread, BoardTile { occupied: None, items: 0, reset_amount: 0 }));
        tiles.push((AgricolaTile::DayLaborer, BoardTile { occupied: None, items: 0, reset_amount: 0 }));
        tiles.push((AgricolaTile::Wood, BoardTile { occupied: None, items: 3, reset_amount: 3 }));
        tiles.push((AgricolaTile::Clay, BoardTile { occupied: None, items: 1, reset_amount: 1 }));
        tiles.push((AgricolaTile::Reed, BoardTile { occupied: None, items: 1, reset_amount: 1 }));
        tiles.push((AgricolaTile::Fishing, BoardTile { occupied: None, items: 1, reset_amount: 1 }));
        let mut board = Board { tiles, future_tiles };
        match board.future_tiles.pop() {
            Some(card) => {
                board.tiles.push(card);
            },
            None => {},
        }
        proof {
            assert(board@.tiles =~= seq![
                (AgricolaTile::BuildRoom_BuildStables, BoardTile { occupied: None, items: 0, reset_amount: 0 }),
                (AgricolaTile::StartingPlayer_Food, BoardTile { occupied: None, items: 1, reset_amount: 1 }),
                (AgricolaTile::Grain, BoardTile { occupied: None, items: 0, reset_amount: 0 }),
                (AgricolaTile::Plow, BoardTile { occupied: None, items: 0, reset_amount: 0 }),
                (AgricolaTile::BuildStable_BakeBread, BoardTile { occupied: None, items: 0, reset_amount: 0 }),
                (AgricolaTile::DayLaborer, BoardTile { occupied: None, items: 0, reset_amount: 0 }),
                (AgricolaTile::Wood, BoardTile { occupied: None, items: 3, reset_amount: 3 }),
                (AgricolaTile::Clay, BoardTile { occupied: None, items: 1, reset_amount: 1 }),
                (AgricolaTile::Reed, BoardTile { occupied: None, items: 1, reset_amount: 1 }),
                (AgricolaTile::Fishing, BoardTile { occupied: None, items: 1, reset_amount: 1 }),
                (AgricolaTile::MajorImprovement, BoardTile { occupied: None, items: 0, reset_amount: 0 }),
            ]);
            assert(board@.future_tiles =~= seq![
                (AgricolaTile::Renovation_Fences, BoardTile { occupied: None, items: 0, reset_amount: 0 }),
                (AgricolaTile::Plow_Sow, BoardTile { occupied: None, items: 0, reset_amount: 0 }),
                (AgricolaTile::FamilyGrowth_NoSpace, BoardTile { occupied: None, items: 0, reset_amount: 0 }),
                (AgricolaTile::Cattle, BoardTile { occupied: None, items: 1, reset_amount: 1 }),
                (AgricolaTile::Stone_2, BoardTile { occupied: None, items: 1, reset_amount: 1 }),
                (AgricolaTile::Vegetable, BoardTile { occupied: None, items: 0, reset_amount: 0 }),
                (AgricolaTile::Boar, BoardTile { occupied: None, items: 1, reset_amount: 1 }),
                (AgricolaTile::Stone_1, BoardTile { occupied: None, items: 1, reset_amount: 1 }),
                (AgricolaTile::FamilyGrowth, BoardTile { occupied: None, items: 0, reset_amount: 0 }),
                (AgricolaTile::Renovation_MajorImprovement, BoardTile { occupied: None, items: 0, reset_amount: 0 }),
                (AgricolaTile::Fences, BoardTile { occupied: None, items: 0, reset_amount: 0 }),
                (AgricolaTile::Sheep, BoardTile { occupied: None, items: 1, reset_amount: 1 }),
                (AgricolaTile::Sow_BakeBread, BoardTile { occupied: None, items: 0, reset_amount: 0 }),
            ]);
        }
        board
    }

    /// The position of the open space of kind `t`, if it is open.
    pub fn find_tile(&self, t: AgricolaTile) -> (r: Option<usize>)
        ensures
            (match r {
                Some(i) => 0 <= i < self@.tiles.len() && self@.tiles[i as int].0 == t,
                None => forall|i: int| 0 <= i < self@.tiles.len()
                    ==> (#[trigger] self@.tiles[i]).0 != t,
            }),
    {
        let mut k: usize = 0;
        while k < self.tiles.len()
            invariant
                k <= self@.tiles.len(),
                forall|m: int| 0 <= m < k ==> (#[trigger] self@.tiles[m]).0 != t,
            decreases self@.tiles.len() - k,
        {
            if self.tiles[k].0 == t {
                return Some(k);
            }
            k = k + 1;
        }
        None
    }

    /// Puts `player`'s worker on the open space of kind `t`, if it is open
    /// and free, optionally sweeping up the goods lying on it; the goods
    /// swept up are returned. A missing or taken space changes nothing.
    pub fn claim(&mut self, t: AgricolaTile, player: usize, sweep: bool) -> (taken: usize)
        requires
            old(self).wf(),
        ensures
            final(self).wf(),
            final(self)@.tiles.len() == old(self)@.tiles.len(),
            final(self)@.future_tiles == old(self)@.future_tiles,
            forall|i: int| 0 <= i < old(self)@.tiles.len() ==> {
                &&& (#[trigger] final(self)@.tiles[i]).0 == old(self)@.tiles[i].0
                &&& final(self)@.tiles[i].1.reset_amount == old(self)@.tiles[i].1.reset_amount
            },
            forall|i: int| 0 <= i < old(self)@.tiles.len()
                && (#[trigger] old(self)@.tiles[i]).0 == t
                && old(self)@.tiles[i].1.occupied is None ==> {
                &&& final(self)@.tiles[i].1.occupied == Some(player)
                &&& final(self)@.tiles[i].1.items
                    == (if sweep { 0int } else { old(self)@.tiles[i].1.items as int })
                &&& taken == (if sweep { old(self)@.tiles[i].1.items as int } else { 0int })
            },
            forall|i: int| 0 <= i < old(self)@.tiles.len()
                && ((#[trigger] old(self)@.tiles[i]).0 != t
                    || old(self)@.tiles[i].1.occupied is Some)
                ==> final(self)@.tiles[i] == old(self)@.tiles[i],
            !sweep ==> taken == 0,
    {
        let found = self.find_tile(t);
        match found {
            Some(i) => {
                if self.tiles[i].1.occupied.is_some() {
                    proof {
                        lemma_unique_kind(self@, t, i as int);
                    }
                    return 0;
                }
                let ghost b0 = self@;
                proof {
                    lemma_unique_kind(self@, t, i as int);
                }
                let entry = self.tiles[i];
                let taken = if sweep {
                    entry.1.items
                } else {
                    0
                };
                let new_items = if sweep {
                    0
                } else {
                    entry.1.items
                };
                let refreshed = (entry.0, BoardTile {
                    occupied: Some(player),
                    items: new_items,
                    reset_amount: entry.1.reset_amount,
                });
                let slot = &mut self.tiles[i];
                *slot = refreshed;
                proof {
                    assert(board_kinds(self@) =~= board_kinds(b0));
                }
                taken
            },
            None => 0,
        }
    }

    /// Replenishes every accumulating space, clears all workers, and
    /// reveals the next round card onto the board.
    pub fn reset(&mut self)
        requires
            old(self).wf(),
        ensures
            final(self).wf(),
            final(self)@.tiles.len()
                == old(self)@.tiles.len() + (if old(self)@.future_tiles.len() > 0 { 1int } else { 0int }),
            forall|i: int| 0 <= i < old(self)@.tiles.len() ==> {
                &&& (#[trigger] final(self)@.tiles[i]).0 == old(self)@.tiles[i].0
                &&& final(self)@.tiles[i].1.occupied is None
                &&& final(self)@.tiles[i].1.reset_amount == old(self)@.tiles[i].1.reset_amount
                &&& final(self)@.tiles[i].1.items == (if old(self)@.tiles[i].1.items
                        + old(self)@.tiles[i].1.reset_amount <= usize::MAX {
                    old(self)@.tiles[i].1.items + old(self)@.tiles[i].1.reset_amount
                } else {
                    usize::MAX as int
                })
            },
            old(self)@.future_tiles.len() > 0 ==> {
                &&& final(self)@.future_tiles == old(self)@.future_tiles.drop_last()
                &&& final(self)@.tiles[old(self)@.tiles.len() as int]
                    == old(self)@.future_tiles.last()
            },
            old(self)@.future_tiles.len() == 0
                ==> final(self)@.future_tiles == old(self)@.future_tiles,
    {
        let ghost b0 = self@;
        let n = self.tiles.len();
        let mut k: usize = 0;
        while k < n
            invariant
                n == self@.tiles.len(),
                self@.future_tiles == b0.future_tiles,
                k <= n,
                self@.tiles.len() == b0.tiles.len(),
                forall|i: int| k <= i < n ==> #[trigger] self@.tiles[i] == b0.tiles[i],
                forall|i: int| 0 <= i < k ==> {
                    &&& (#[trigger] self@.tiles[i]).0 == b0.tiles[i].0
                    &&& self@.tiles[i].1.occupied is None
                    &&& self@.tiles[i].1.reset_amount == b0.tiles[i].1.reset_amount
                    &&& self@.tiles[i].1.items == (if b0.tiles[i].1.items
                            + b0.tiles[i].1.reset_amount <= usize::MAX {
                        b0.tiles[i].1.items + b0.tiles[i].1.reset_amount
                    } else {
                        usize::MAX as int
                    })
                },
            decreases n - k,
        {
            let entry = self.tiles[k];
            let refreshed = (entry.0, BoardTile {
                occupied: None,
                items: entry.1.items.saturating_add(entry.1.reset_amount),
                reset_amount: entry.1.reset_amount,
            });
            let slot = &mut self.tiles[k];
            *slot = refreshed;
            k = k + 1;
        }
        let popped = self.future_tiles.pop();
        match popped {
            Some(card) => {
                self.tiles.push(card);
            },
            None => {},
        }
        proof {
            let b1 = self@;
            let n0 = b0.tiles.len() as int;
            let m0 = b0.future_tiles.len() as int;
            assert(board_kinds(b0).len() == n0 + m0);
            if m0 > 0 {
                assert(b1.tiles.len() == n0 + 1);
                assert(b1.future_tiles.len() == m0 - 1);
                assert(board_kinds(b1).len() == n0 + m0);
                // Every kind keeps its identity; the revealed card moves
                // from the end of the stack onto the board.
                assert forall|p: int| 0 <= p < n0 + m0 implies board_kinds(b1)[p]
                    == board_kinds(b0)[(if p < n0 { p } else if p == n0 { n0 + m0 - 1 } else { p - 1 })] by {
                    if p < n0 {
                        assert(b1.tiles[p].0 == b0.tiles[p].0);
                    } else if p == n0 {
                        assert(b1.tiles[p] == b0.future_tiles[m0 - 1]);
                    } else {
                        assert(b1.future_tiles[p - n0 - 1] == b0.future_tiles[p - n0 - 1]);
                    }
                }
                assert forall|i: int, j: int| 0 <= i < j < board_kinds(b1).len()
                    implies #[trigger] board_kinds(b1)[i] != #[trigger] board_kinds(b1)[j] by {
                    let fi: int = if i < n0 { i } else if i == n0 { n0 + m0 - 1 } else { i - 1 };
                    let fj: int = if j < n0 { j } else if j == n0 { n0 + m0 - 1 } else { j - 1 };
                    assert(board_kinds(b1)[i] == board_kinds(b0)[fi]);
                    assert(board_kinds(b1)[j] == board_kinds(b0)[fj]);
                    assert(fi != fj);
                    if fi < fj {
                        assert(board_kinds(b0)[fi] != board_kinds(b0)[fj]);
                    } else {
                        assert(board_kinds(b0)[fj] != board_kinds(b0)[fi]);
                    }
                }
            } else {
                assert(board_kinds(b1) =~= board_kinds(b0));
            }
        }
    }
}

} // verus!
