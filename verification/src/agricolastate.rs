//! The whole farming-game position: the players, the action board, the
//! round counter and the improvement cards still for sale.

use vstd::prelude::*;
use crate::agricolaaction::{AgricolaAction, AgricolaTile};
use crate::board::{Board, BoardTile, BoardV};
use crate::majorimprovement::MajorImprovement;
use crate::misc::{copy_strings, copy_vec};
use crate::player::{Player, PlayerV};
use crate::state::REWARD_UNIT;

verus! {

/// The mathematical image of a whole position.
pub ghost struct AgricolaStateV {
    pub players: Seq<PlayerV>,
    pub player_just_moved: usize,
    pub current_player: usize,
    pub starting_player_token: Option<usize>,
    pub board: BoardV,
    pub rounds: usize,
    pub total_rounds: usize,
    pub actions_taken: Seq<String>,
    pub available_improvements: Seq<MajorImprovement>,
    pub well_player: Option<usize>,
    pub well_food: usize,
}

/// One position of the farming game.
#[derive(Debug)]
pub struct AgricolaState {
    pub players: Vec<Player>,
    pub player_just_moved: usize,
    pub current_player: usize,
    pub starting_player_token: Option<usize>,
    pub board: Board,
    pub rounds: usize,
    pub total_rounds: usize,
    pub actions_taken: Vec<String>,
    pub available_improvements: Vec<MajorImprovement>,
    pub well_player: Option<usize>,
    pub well_food: usize,
}

impl View for AgricolaState {
    type V = AgricolaStateV;

    open spec fn view(&self) -> AgricolaStateV {
        AgricolaStateV {
            players: self.players@.map_values(|p: Player| p@),
            player_just_moved: self.player_just_moved,
            current_player: self.current_player,
            starting_player_token: self.starting_player_token,
            board: self.board@,
            rounds: self.rounds,
            total_rounds: self.total_rounds,
            actions_taken: self.actions_taken@,
            available_improvements: self.available_improvements@,
            well_player: self.well_player,
            well_food: self.well_food,
        }
    }
}

impl Clone for AgricolaState {
    fn clone(&self) -> (r: Self)
        ensures
            r@ == self@,
            self.inv() ==> r.inv(),
            forall|i: int| 0 <= i < self.players@.len()
                ==> (#[trigger] r.players@[i])@ == self.players@[i]@,
            r.players@.len() == self.players@.len(),
    {
        let mut players: Vec<Player> = Vec::new();
        let mut k: usize = 0;
        while k < self.players.len()
            invariant
                k <= self.players@.len(),
                players@.len() == k,
                forall|m: int| 0 <= m < k ==> (#[trigger] players@[m])@ == self.players@[m]@,
            decreases self.players@.len() - k,
        {
            players.push(self.players[k].clone());
            k = k + 1;
        }
        let r = AgricolaState {
            players,
            player_just_moved: self.player_just_moved,
            current_player: self.current_player,
            starting_player_token: self.starting_player_token,
            board: self.board.clone(),
            rounds: self.rounds,
            total_rounds: self.total_rounds,
            actions_taken: copy_strings(&self.actions_taken),
            available_improvements: copy_vec(&self.available_improvements),
            well_player: self.well_player,
            well_food: self.well_food,
        };
        proof {
            assert(r@.players =~= self@.players);
            assert(r@ == self@);
            assert forall|i: int| 0 <= i < r.players@.len() implies {
                &&& (#[trigger] r.players@[i]).wf() == self.players@[i].wf()
                &&& r.players@[i].total_actions == self.players@[i].total_actions
                &&& r.players@[i].beggers == self.players@[i].beggers
            } by {
                assert(r.players@[i]@ == self.players@[i]@);
                crate::player::lemma_wf_from_view(self.players@[i], r.players@[i]);
            }
            if self.inv() {
                assert(r.board.wf()) by {
                    assert(r.board@ == self.board@);
                }
                assert(r.inv());
            }
        }
        r
    }
}

/// The single choice or choices one open action space offers, by its kind;
/// an occupied space offers nothing.
pub open spec fn tile_actions(
    t: AgricolaTile,
    occupied: bool,
    impr: Seq<MajorImprovement>,
) -> Seq<u32> {
    if occupied {
        seq![]
    } else {
        match t {
            AgricolaTile::DayLaborer => seq![6u32, 7u32, 8u32, 9u32],
            AgricolaTile::BuildRoom_BuildStables => seq![15u32, 16u32, 1u32],
            AgricolaTile::StartingPlayer_Food => seq![2u32],
            AgricolaTile::Grain => seq![3u32],
            AgricolaTile::Plow => seq![4u32],
            AgricolaTile::BuildStable_BakeBread => seq![5u32, 19u32, 20u32],
            AgricolaTile::Sow_BakeBread => seq![10u32, 18u32, 17u32],
            AgricolaTile::Wood => seq![11u32],
            AgricolaTile::Clay => seq![12u32],
            AgricolaTile::Reed => seq![13u32],
            AgricolaTile::Fishing => seq![14u32],
            AgricolaTile::Fences => seq![21u32],
            AgricolaTile::MajorImprovement => stall_actions(impr, 36),
            AgricolaTile::Sheep => seq![23u32],
            AgricolaTile::FamilyGrowth => seq![24u32],
            AgricolaTile::Stone_1 => seq![25u32],
            AgricolaTile::Renovation_MajorImprovement => stall_actions(impr, 46)
                + opt_act(impr.contains(MajorImprovement::Well), 55),
            AgricolaTile::Vegetable => seq![27u32],
            AgricolaTile::Boar => seq![28u32],
            AgricolaTile::Cattle => seq![29u32],
            AgricolaTile::Stone_2 => seq![30u32],
            AgricolaTile::Plow_Sow => seq![31u32, 34u32, 35u32],
            AgricolaTile::FamilyGrowth_NoSpace => seq![32u32],
            AgricolaTile::Renovation_Fences => seq![33u32],
        }
    }
}

/// A one-action segment present only when its card is still for sale.
pub open spec fn opt_act(b: bool, code: u32) -> Seq<u32> {
    if b {
        seq![code]
    } else {
        seq![]
    }
}

/// The nine purchase choices of an improvement stall whose cards are still
/// for sale, with codes starting at `base`.
pub open spec fn stall_actions(impr: Seq<MajorImprovement>, base: u32) -> Seq<u32> {
    opt_act(impr.contains(MajorImprovement::Fireplace_2), base)
        + opt_act(impr.contains(MajorImprovement::Fireplace_3), (base + 1) as u32)
        + opt_act(impr.contains(MajorImprovement::CookingHearth_4), (base + 2) as u32)
        + opt_act(impr.contains(MajorImprovement::CookingHearth_5), (base + 3) as u32)
        + opt_act(impr.contains(MajorImprovement::ClayOven), (base + 4) as u32)
        + opt_act(impr.contains(MajorImprovement::StoneOven), (base + 5) as u32)
        + opt_act(impr.contains(MajorImprovement::Pottery), (base + 6) as u32)
        + opt_act(impr.contains(MajorImprovement::Joinery), (base + 7) as u32)
        + opt_act(impr.contains(MajorImprovement::BasketmakersWorkshop), (base + 8) as u32)
}

/// The actions offered by the spaces from position `i` on.
pub open spec fn actions_from(
    spots: Seq<(AgricolaTile, BoardTile)>,
    impr: Seq<MajorImprovement>,
    i: int,
) -> Seq<u32>
    decreases spots.len() - i,
{
    if 0 <= i < spots.len() {
        tile_actions(spots[i].0, spots[i].1.occupied is Some, impr) + actions_from(
            spots,
            impr,
            i + 1,
        )
    } else {
        seq![]
    }
}

/// The bounds every farmer respects in round `rounds`: a sound farm, a
/// family grown only by past rounds, workers within the family, and
/// beggars bounded by what feeding could have cost so far.
pub open spec fn player_props(p: Player, rounds: usize) -> bool {
    &&& p.wf()
    &&& 2 <= p.total_actions <= rounds + 5
    &&& p.actions <= p.total_actions
    &&& p.children <= 1
    &&& p.beggers <= 41 * rounds
}

/// The board, the turn order, the clock and every worker count are as
/// they were; only the acting player's farm and stores may have changed.
pub open spec fn same_turn_frame(a: AgricolaState, b: AgricolaState) -> bool {
    &&& b.players@.len() == a.players@.len()
    &&& b.rounds == a.rounds
    &&& b.total_rounds == a.total_rounds
    &&& b.current_player == a.current_player
    &&& b.player_just_moved == a.player_just_moved
    &&& b.board == a.board
    &&& b.starting_player_token == a.starting_player_token
    &&& b.well_player == a.well_player
    &&& b.well_food == a.well_food
    &&& forall|j: int| 0 <= j < a.players@.len()
        ==> (#[trigger] b.players@[j]).actions == a.players@[j].actions
}

/// The two player images agree on everything except the worker count and
/// the action log.
pub open spec fn same_but_turn(a: crate::player::PlayerV, b: crate::player::PlayerV) -> bool {
    b == (crate::player::PlayerV { actions: b.actions, actions_taken: b.actions_taken, ..a })
}

/// Claiming an accumulating space sweeps its goods to the acting player:
/// the open space of kind `t` ends occupied by the mover and empty, and
/// the named store grows by the goods that lay there (capped at the
/// machine limit).
pub open spec fn sweep_effect(
    pre: AgricolaState,
    post: AgricolaState,
    t: AgricolaTile,
    store_pre: usize,
    store_post: usize,
) -> bool {
    forall|i: int| 0 <= i < pre.board@.tiles.len() && (#[trigger] pre.board@.tiles[i]).0 == t
        && pre.board@.tiles[i].1.occupied is None ==> {
        &&& post.board@.tiles[i].1.occupied == Some(pre.current_player)
        &&& post.board@.tiles[i].1.items == 0
        &&& store_post == crate::player::sat_addu(store_pre, pre.board@.tiles[i].1.items)
    }
}

/// Changing one farmer while keeping the bounds keeps them for the table.
proof fn lemma_player_frame(ps0: Seq<Player>, ps1: Seq<Player>, cp: int, rounds: usize)
    requires
        ps1.len() == ps0.len(),
        0 <= cp < ps0.len(),
        forall|j: int| 0 <= j < ps0.len() && j != cp ==> ps1[j] == ps0[j],
        forall|j: int| 0 <= j < ps0.len() ==> player_props(#[trigger] ps0[j], rounds),
        player_props(ps1[cp], rounds),
    ensures
        forall|j: int| 0 <= j < ps1.len() ==> player_props(#[trigger] ps1[j], rounds),
{
}

/// The workers still unspent around the table.
pub open spec fn actions_sum(ps: Seq<Player>) -> int
    decreases ps.len(),
{
    if ps.len() == 0 {
        0
    } else {
        actions_sum(ps.drop_last()) + ps.last().actions
    }
}

/// Tables whose players agree worker-for-worker have the same total.
proof fn lemma_actions_sum_congruent(a: Seq<Player>, b: Seq<Player>)
    requires
        a.len() == b.len(),
        forall|j: int| 0 <= j < a.len() ==> (#[trigger] a[j]).actions == b[j].actions,
    ensures
        actions_sum(a) == actions_sum(b),
    decreases a.len(),
{
    if a.len() > 0 {
        assert forall|j: int| 0 <= j < a.drop_last().len()
            implies (#[trigger] a.drop_last()[j]).actions == b.drop_last()[j].actions by {
            assert(a.drop_last()[j] == a[j]);
            assert(b.drop_last()[j] == b[j]);
        }
        lemma_actions_sum_congruent(a.drop_last(), b.drop_last());
    }
}

/// Spending one player's worker lowers the table's total by one.
proof fn lemma_actions_sum_spend(a: Seq<Player>, b: Seq<Player>, cp: int)
    requires
        a.len() == b.len(),
        0 <= cp < a.len(),
        forall|j: int| 0 <= j < a.len() && j != cp ==> (#[trigger] b[j]).actions == a[j].actions,
        b[cp].actions == a[cp].actions - 1,
        a[cp].actions >= 1,
    ensures
        actions_sum(b) == actions_sum(a) - 1,
    decreases a.len(),
{
    if a.len() > 0 {
        let n = a.len() - 1;
        if cp == n {
            assert forall|j: int| 0 <= j < a.drop_last().len()
                implies (#[trigger] a.drop_last()[j]).actions == b.drop_last()[j].actions by {
                assert(a.drop_last()[j] == a[j]);
                assert(b.drop_last()[j] == b[j]);
            }
            lemma_actions_sum_congruent(a.drop_last(), b.drop_last());
        } else {
            assert forall|j: int| 0 <= j < a.drop_last().len() && j != cp
                implies (#[trigger] b.drop_last()[j]).actions == a.drop_last()[j].actions by {
                assert(a.drop_last()[j] == a[j]);
                assert(b.drop_last()[j] == b[j]);
            }
            assert(b.drop_last()[cp] == b[cp]);
            assert(a.drop_last()[cp] == a[cp]);
            lemma_actions_sum_spend(a.drop_last(), b.drop_last(), cp);
            assert(a.last().actions == b.last().actions);
        }
    }
}

/// A table within the bounds holds between zero and twenty-one workers
/// per player.
proof fn lemma_actions_sum_bounds(ps: Seq<Player>, rounds: usize)
    requires
        forall|j: int| 0 <= j < ps.len() ==> player_props(#[trigger] ps[j], rounds),
        rounds <= 15,
    ensures
        0 <= actions_sum(ps) <= 21 * ps.len(),
    decreases ps.len(),
{
    if ps.len() > 0 {
        assert forall|j: int| 0 <= j < ps.drop_last().len()
            implies player_props(#[trigger] ps.drop_last()[j], rounds) by {
            assert(ps.drop_last()[j] == ps[j]);
        }
        lemma_actions_sum_bounds(ps.drop_last(), rounds);
        assert(player_props(ps.last(), rounds));
        assert(ps.last().actions <= 21);
    }
}

impl AgricolaState {
    /// A usable position, except that the player to move may be out of
    /// workers: at least one farmer, everyone's farm sound and within the
    /// board's physical limits, the board itself sound, and the round
    /// counters in range.
    pub open spec fn inv_core(&self) -> bool {
        &&& self.players@.len() >= 1
        &&& self.current_player < self.players@.len()
        &&& self.player_just_moved < self.players@.len()
        &&& forall|i: int| 0 <= i < self.players@.len()
            ==> player_props(#[trigger] self.players@[i], self.rounds)
        &&& self.board.wf()
        &&& 1 <= self.rounds <= self.total_rounds + 1
        &&& self.total_rounds == 14
        &&& (match self.starting_player_token {
            Some(t) => t < self.players@.len(),
            None => true,
        })
        &&& (match self.well_player {
            Some(w) => w < self.players@.len(),
            None => true,
        })
    }

    /// A usable position: additionally, while the game runs, the player
    /// to move still has a worker.
    pub open spec fn inv(&self) -> bool {
        &&& self.inv_core()
        &&& (self.rounds <= self.total_rounds
            ==> self.players@[self.current_player as int].actions >= 1)
    }

    /// The legal action codes of this position: nothing once the rounds
    /// are over, otherwise whatever the open spaces offer.
    pub open spec fn spec_actions(&self) -> Seq<u32> {
        if self.rounds > self.total_rounds {
            seq![]
        } else {
            actions_from(self.board@.tiles, self.available_improvements@, 0)
        }
    }

    /// A fresh game: the first farmer starts with two food, the others
    /// with three, all ten improvement cards are for sale, and round one
    /// is about to be played.
    pub fn new(num_players: usize) -> (r: AgricolaState)
        requires
            num_players >= 1,
        ensures
            r.inv(),
            r.players@.len() == num_players,
            r.player_just_moved == 0,
            r.current_player == 0,
            r.starting_player_token is None,
            r.rounds == 1,
            r.total_rounds == 14,
            r.actions_taken@.len() == 0,
            r.available_improvements@ == seq![
                MajorImprovement::Fireplace_2,
                MajorImprovement::Fireplace_3,
                MajorImprovement::CookingHearth_4,
                MajorImprovement::CookingHearth_5,
                MajorImprovement::ClayOven,
                MajorImprovement::StoneOven,
                MajorImprovement::Joinery,
                MajorImprovement::Pottery,
                MajorImprovement::BasketmakersWorkshop,
                MajorImprovement::Well,
            ],
            r.board@.tiles.len() == 11,
            r.board@.future_tiles.len() == 13,
            forall|i: int| 0 <= i < r.board@.tiles.len()
                ==> (#[trigger] r.board@.tiles[i]).1.occupied is None,
            forall|i: int| 0 <= i < num_players
                ==> (#[trigger] r.players@[i]).food == (if i == 0 { 2int } else { 3int }),
    {
        let mut players: Vec<Player> = Vec::new();
        let mut i: usize = 0;
        while i < num_players
            invariant
                i <= num_players,
                players@.len() == i,
                forall|m: int| 0 <= m < i ==> {
                    &&& (#[trigger] players@[m]).wf()
                    &&& players@[m].total_actions == 2
                    &&& players@[m].actions == 2
                    &&& players@[m].children == 0
                    &&& players@[m].beggers <= 41
                    &&& players@[m].food == (if m == 0 { 2int } else { 3int })
                },
            decreases num_players - i,
        {
            if i == 0 {
                players.push(Player::new(2));
            } else {
                players.push(Player::new(3));
            }
            i = i + 1;
        }
        let mut available_improvements: Vec<MajorImprovement> = Vec::new();
        proof {
            assert(available_improvements@ =~= Seq::<MajorImprovement>::empty());
        }
        available_improvements.push(MajorImprovement::Fireplace_2);
        available_improvements.push(MajorImprovement::Fireplace_3);
        available_improvements.push(MajorImprovement::CookingHearth_4);
        available_improvements.push(MajorImprovement::CookingHearth_5);
        available_improvements.push(MajorImprovement::ClayOven);
        available_improvements.push(MajorImprovement::StoneOven);
        available_improvements.push(MajorImprovement::Joinery);
        available_improvements.push(MajorImprovement::Pottery);
        available_improvements.push(MajorImprovement::BasketmakersWorkshop);
        available_improvements.push(MajorImprovement::Well);
        proof {
            assert(available_improvements@ =~= seq![
                MajorImprovement::Fireplace_2,
                MajorImprovement::Fireplace_3,
                MajorImprovement::CookingHearth_4,
                MajorImprovement::CookingHearth_5,
                MajorImprovement::ClayOven,
                MajorImprovement::StoneOven,
                MajorImprovement::Joinery,
                MajorImprovement::Pottery,
                MajorImprovement::BasketmakersWorkshop,
                MajorImprovement::Well,
            ]);
        }
        AgricolaState {
            players,
            player_just_moved: 0,
            current_player: 0,
            starting_player_token: None,
            board: Board::new(),
            rounds: 1,
            total_rounds: 14,
            actions_taken: Vec::new(),
            available_improvements,
            well_player: None,
            well_food: 0,
        }
    }

    /// Ends the round: hands the starting position on, replenishes the
    /// board and reveals the next round card, runs the harvest in harvest
    /// rounds, grows families, restores everyone's workers, and pays the
    /// well's food.
    pub fn end_round(&mut self)
        requires
            old(self).inv_core(),
            old(self).rounds <= 14,
        ensures
            final(self).inv(),
            final(self).rounds == old(self).rounds + 1,
            final(self).players@.len() == old(self).players@.len(),
            final(self).starting_player_token is None,
            (match old(self).starting_player_token {
                Some(t) => final(self).current_player == t,
                None => true,
            }),
            forall|j: int| 0 <= j < final(self).players@.len()
                ==> (#[trigger] final(self).players@[j]).actions
                    == final(self).players@[j].total_actions,
            final(self).board@.tiles.len() == old(self).board@.tiles.len()
                + (if old(self).board@.future_tiles.len() > 0 { 1int } else { 0int }),
    {
        proof {
            assert(self.current_player < self.players@.len());
        }
        match self.starting_player_token {
            Some(player) => {
                self.current_player = player;
            },
            None => {
                let len = self.players.len();
                proof {
                    assert(self.current_player < len);
                }
                self.current_player = (self.current_player + 1) % len;
            },
        }
        self.starting_player_token = None;
        self.board.reset();
        let harvest = self.rounds == 4 || self.rounds == 7 || self.rounds == 9
            || self.rounds == 11 || self.rounds == 13 || self.rounds == 14;
        let n = self.players.len();
        let ghost bsnap = self.board;
        let ghost cur0 = self.current_player;
        if harvest {
            let mut i: usize = 0;
            while i < n
                invariant
                    n == self.players@.len(),
                    self.board == bsnap,
                    self.board.wf(),
                    self.rounds == old(self).rounds,
                    self.total_rounds == 14,
                    self.well_player == old(self).well_player,
                    self.well_food == old(self).well_food,
                    self.starting_player_token is None,
                    self.current_player < n,
                    self.current_player == cur0,
                    self.player_just_moved < n,
                    (match self.well_player {
                        Some(w) => w < n,
                        None => true,
                    }),
                    i <= n,
                    1 <= self.rounds <= 14,
                    forall|j: int| 0 <= j < n ==> {
                        &&& (#[trigger] self.players@[j]).wf()
                        &&& 2 <= self.players@[j].total_actions <= self.rounds + 5
                        &&& self.players@[j].actions <= self.players@[j].total_actions
                        &&& self.players@[j].children <= 1
                        &&& self.players@[j].beggers <= 41 * self.rounds + (if j < i {
                            2 * self.rounds + 11int
                        } else {
                            0int
                        })
                    },
                decreases n - i,
            {
                let ghost ps0 = self.players@;
                let p = &mut self.players[i];
                proof {
                    assert(ps0[i as int].total_actions <= 21);
                    assert(ps0[i as int].beggers <= 41 * 14);
                }
                p.run_harvest();
                proof {
                    assert forall|j: int| 0 <= j < n && j != i
                        implies #[trigger] self.players@[j] == ps0[j] by {}
                }
                i = i + 1;
            }
        }
        // Family growth and fresh workers for the new round.
        let mut i: usize = 0;
        while i < n
            invariant
                n == self.players@.len(),
                self.board == bsnap,
                self.board.wf(),
                self.rounds == old(self).rounds,
                self.total_rounds == 14,
                self.well_player == old(self).well_player,
                self.well_food == old(self).well_food,
                self.starting_player_token is None,
                self.current_player < n,
                self.current_player == cur0,
                self.player_just_moved < n,
                (match self.well_player {
                    Some(w) => w < n,
                    None => true,
                }),
                i <= n,
                1 <= self.rounds <= 14,
                forall|j: int| 0 <= j < n ==> {
                    &&& (#[trigger] self.players@[j]).wf()
                    &&& self.players@[j].children <= 1
                    &&& self.players@[j].beggers <= 41 * (self.rounds + 1)
                    &&& 2 <= self.players@[j].total_actions <= self.rounds + 5 + (if j < i {
                        1int
                    } else {
                        0int
                    })
                    &&& (j < i ==> self.players@[j].children == 0
                        && self.players@[j].actions == self.players@[j].total_actions)
                    &&& (j >= i ==> self.players@[j].actions <= self.players@[j].total_actions)
                },
            decreases n - i,
        {
            let ghost ps0 = self.players@;
            let p = &mut self.players[i];
            if p.children == 1 {
                p.total_actions = p.total_actions + 1;
                p.children = 0;
            }
            p.actions = p.total_actions;
            proof {
                assert forall|j: int| 0 <= j < n && j != i
                    implies #[trigger] self.players@[j] == ps0[j] by {}
                assert(self.players@[i as int].wf()) by {
                    assert(self.players@[i as int].player_mat@ == ps0[i as int].player_mat@);
                    assert(self.players@[i as int].pastures@ == ps0[i as int].pastures@);
                    assert(self.players@[i as int].stables == ps0[i as int].stables);
                    assert(self.players@[i as int].fences == ps0[i as int].fences);
                }
            }
            i = i + 1;
        }
        self.rounds = self.rounds + 1;
        if self.well_food > 0 {
            match self.well_player {
                Some(food_player) => {
                    let ghost ps0 = self.players@;
                    let p = &mut self.players[food_player];
                    p.food = p.food.saturating_add(1);
                    self.well_food = self.well_food - 1;
                    proof {
                        assert forall|j: int| 0 <= j < n && j != food_player
                            implies #[trigger] self.players@[j] == ps0[j] by {}
                        assert(self.players@[food_player as int].wf()) by {
                            assert(self.players@[food_player as int].player_mat@
                                == ps0[food_player as int].player_mat@);
                            assert(self.players@[food_player as int].pastures@
                                == ps0[food_player as int].pastures@);
                        }
                    }
                },
                None => {},
            }
        }
    }

    /// The farm work one action triggers, dispatched over the acting
    /// player; every helper below keeps the table's bounds and leaves the
    /// board, the turn order and everyone's workers untouched.
    fn turn_gain(&mut self, which: u8, amount: usize)
        requires
            old(self).inv_core(),
        ensures
            final(self).inv_core(),
            same_turn_frame(*old(self), *final(self)),
            forall|j: int| 0 <= j < old(self).players@.len()
                && j != old(self).current_player
                ==> final(self).players@[j] == old(self).players@[j],
            ({
                let cp = old(self).current_player as int;
                let p0 = old(self).players@[cp]@;
                final(self).players@[cp]@ == (match which {
                    0u8 => (crate::player::PlayerV { food: crate::player::sat_addu(p0.food, amount), ..p0 }),
                    1u8 => (crate::player::PlayerV { wood: crate::player::sat_addu(p0.wood, amount), ..p0 }),
                    2u8 => (crate::player::PlayerV { clay: crate::player::sat_addu(p0.clay, amount), ..p0 }),
                    3u8 => (crate::player::PlayerV { reed: crate::player::sat_addu(p0.reed, amount), ..p0 }),
                    4u8 => (crate::player::PlayerV { stone: crate::player::sat_addu(p0.stone, amount), ..p0 }),
                    5u8 => (crate::player::PlayerV { grains: crate::player::sat_addu(p0.grains, amount), ..p0 }),
                    6u8 => (crate::player::PlayerV { vegetables: crate::player::sat_addu(p0.vegetables, amount), ..p0 }),
                    7u8 => (crate::player::PlayerV { sheep: crate::player::sat_addu(p0.sheep, amount), ..p0 }),
                    8u8 => (crate::player::PlayerV { boar: crate::player::sat_addu(p0.boar, amount), ..p0 }),
                    _ => (crate::player::PlayerV { cattle: crate::player::sat_addu(p0.cattle, amount), ..p0 }),
                })
            }),
    {
        let cp = self.current_player;
        let ghost ps0 = self.players@;
        let p = &mut self.players[cp];
        match which {
            0 => {
                p.food = p.food.saturating_add(amount);
            },
            1 => {
                p.wood = p.wood.saturating_add(amount);
            },
            2 => {
                p.clay = p.clay.saturating_add(amount);
            },
            3 => {
                p.reed = p.reed.saturating_add(amount);
            },
            4 => {
                p.stone = p.stone.saturating_add(amount);
            },
            5 => {
                p.grains = p.grains.saturating_add(amount);
            },
            6 => {
                p.vegetables = p.vegetables.saturating_add(amount);
            },
            7 => {
                p.sheep = p.sheep.saturating_add(amount);
            },
            8 => {
                p.boar = p.boar.saturating_add(amount);
            },
            _ => {
                p.cattle = p.cattle.saturating_add(amount);
            },
        }
        proof {
            assert(player_props(ps0[cp as int], self.rounds));
            assert(self.players@[cp as int].wf()) by {
                assert(self.players@[cp as int].player_mat@ == ps0[cp as int].player_mat@);
                assert(self.players@[cp as int].pastures@ == ps0[cp as int].pastures@);
            }
            lemma_player_frame(ps0, self.players@, cp as int, self.rounds);
        }
    }

    /// Runs one already-verified piece of farm work for the acting player.
    fn turn_work(&mut self, which: u8)
        requires
            old(self).inv_core(),
        ensures
            final(self).inv_core(),
            same_turn_frame(*old(self), *final(self)),
    {
        let cp = self.current_player;
        let ghost ps0 = self.players@;
        proof {
            assert(player_props(ps0[cp as int], self.rounds));
            assert(ps0[cp as int].total_actions <= 21);
            assert(ps0[cp as int].beggers <= 41 * 15);
        }
        let p = &mut self.players[cp];
        match which {
            0 => {
                p.sow();
            },
            1 => {
                let _ = p.bake_bread();
            },
            2 => {
                p.build_room();
            },
            3 => {
                p.build_stables();
            },
            4 => {
                p.build_stable();
            },
            5 => {
                p.plow();
            },
            6 => {
                let _ = p.make_pastures();
            },
            7 => {
                p.place_animals();
            },
            _ => {
                p.upgrade_house();
            },
        }
        proof {
            assert(player_props(ps0[cp as int], self.rounds));
            lemma_player_frame(ps0, self.players@, cp as int, self.rounds);
        }
    }

    /// The renovation step: pays one building material per room plus one
    /// reed and upgrades the whole house one step, if the price is on
    /// hand.
    fn turn_renovate(&mut self)
        requires
            old(self).inv_core(),
        ensures
            final(self).inv_core(),
            same_turn_frame(*old(self), *final(self)),
    {
        let cp = self.current_player;
        let num_rooms = self.count_rooms(cp);
        let ghost ps0 = self.players@;
        let p = &mut self.players[cp];
        match p.house_type {
            crate::misc::HouseType::Wood => {
                if p.clay >= num_rooms && p.reed >= 1 {
                    p.clay = p.clay - num_rooms;
                    p.reed = p.reed - 1;
                    p.upgrade_house();
                }
            },
            crate::misc::HouseType::Clay => {
                if p.stone >= num_rooms && p.reed >= 1 {
                    p.stone = p.stone - num_rooms;
                    p.reed = p.reed - 1;
                    p.upgrade_house();
                }
            },
            crate::misc::HouseType::Stone => {},
        }
        proof {
            assert(player_props(ps0[cp as int], self.rounds));
            lemma_player_frame(ps0, self.players@, cp as int, self.rounds);
        }
    }

    /// Family growth: a child arrives if there is room for it, or
    /// regardless when the action allows growth without space.
    fn turn_family_growth(&mut self, needs_space: bool)
        requires
            old(self).inv_core(),
        ensures
            final(self).inv_core(),
            same_turn_frame(*old(self), *final(self)),
    {
        let cp = self.current_player;
        let num_rooms = self.count_rooms(cp);
        let ghost ps0 = self.players@;
        let p = &mut self.players[cp];
        if !needs_space || num_rooms > p.total_actions {
            p.children = 1;
        }
        proof {
            assert(player_props(ps0[cp as int], self.rounds));
            assert(self.players@[cp as int].wf()) by {
                assert(self.players@[cp as int].player_mat@ == ps0[cp as int].player_mat@);
                assert(self.players@[cp as int].pastures@ == ps0[cp as int].pastures@);
            }
            lemma_player_frame(ps0, self.players@, cp as int, self.rounds);
        }
    }

    /// How many rooms the player's house has.
    fn count_rooms(&self, who: usize) -> (r: usize)
        requires
            self.inv_core(),
            who < self.players@.len(),
        ensures
            r <= 15,
    {
        let mut rooms: usize = 0;
        let mut k: usize = 0;
        while k < 15
            invariant
                self.inv_core(),
                who < self.players@.len(),
                k <= 15,
                rooms <= k,
            decreases 15 - k,
        {
            proof {
                assert(player_props(self.players@[who as int], self.rounds));
            }
            if self.players[who].player_mat.tiles[k].house.is_some() {
                rooms = rooms + 1;
            }
            k = k + 1;
        }
        rooms
    }

    /// Buys a card priced in clay alone, if it is for sale and affordable.
    fn buy_simple_clay(&mut self, card: MajorImprovement, cost: usize)
        requires
            old(self).inv_core(),
        ensures
            final(self).inv_core(),
            same_turn_frame(*old(self), *final(self)),
    {
        let cp = self.current_player;
        if self.players[cp].clay >= cost
            && crate::majorimprovement::has_improvement(&self.available_improvements, card) {
            match crate::majorimprovement::improvement_position(&self.available_improvements, card) {
                Some(ix) => {
                    self.available_improvements.remove(ix);
                    let ghost ps0 = self.players@;
                    let p = &mut self.players[cp];
                    p.clay = p.clay - cost;
                    p.improvements.push(card);
                    proof {
                        assert(player_props(ps0[cp as int], self.rounds));
                        assert(self.players@[cp as int].wf()) by {
                            assert(self.players@[cp as int].player_mat@
                                == ps0[cp as int].player_mat@);
                            assert(self.players@[cp as int].pastures@
                                == ps0[cp as int].pastures@);
                        }
                        lemma_player_frame(ps0, self.players@, cp as int, self.rounds);
                    }
                },
                None => {},
            }
        }
    }

    /// Buys a cooking hearth, paying clay or exchanging a fireplace; when
    /// both are possible a coin toss decides.
    fn buy_hearth(&mut self, card: MajorImprovement, cost: usize)
        requires
            old(self).inv_core(),
        ensures
            final(self).inv_core(),
            same_turn_frame(*old(self), *final(self)),
    {
        let cp = self.current_player;
        let can_pay = self.players[cp].clay >= cost;
        let fire_for_sale = crate::majorimprovement::has_improvement(
            &self.available_improvements,
            MajorImprovement::Fireplace_2,
        ) || crate::majorimprovement::has_improvement(
            &self.available_improvements,
            MajorImprovement::Fireplace_3,
        );
        let mode: u8 = if can_pay && fire_for_sale {
            let ghost ps_toss = self.players@;
            let coin = {
                let p = &mut self.players[cp];
                crate::rng::RandomSource::next_below(&mut p.rng, 2)
            };
            proof {
                assert(player_props(ps_toss[cp as int], self.rounds));
                assert(self.players@[cp as int].wf()) by {
                    assert(self.players@[cp as int].player_mat@
                        == ps_toss[cp as int].player_mat@);
                    assert(self.players@[cp as int].pastures@
                        == ps_toss[cp as int].pastures@);
                }
                lemma_player_frame(ps_toss, self.players@, cp as int, self.rounds);
            }
            if coin == 0 {
                1
            } else {
                2
            }
        } else if can_pay {
            1
        } else if fire_for_sale {
            2
        } else {
            0
        };
        if mode == 1 {
            let pos = crate::majorimprovement::improvement_position(
                &self.available_improvements,
                card,
            );
            let ghost ps0 = self.players@;
            match pos {
                Some(ix) => {
                    self.available_improvements.remove(ix);
                    let p = &mut self.players[cp];
                    p.improvements.push(card);
                    p.clay = p.clay - cost;
                },
                None => {
                    let p = &mut self.players[cp];
                    p.improvements.push(card);
                },
            }
            proof {
                assert(player_props(ps0[cp as int], self.rounds));
                assert(self.players@[cp as int].wf()) by {
                    assert(self.players@[cp as int].player_mat@ == ps0[cp as int].player_mat@);
                    assert(self.players@[cp as int].pastures@ == ps0[cp as int].pastures@);
                }
                lemma_player_frame(ps0, self.players@, cp as int, self.rounds);
            }
        } else if mode == 2 {
            let fire3 = crate::majorimprovement::improvement_position(
                &self.players[cp].improvements,
                MajorImprovement::Fireplace_3,
            );
            let fire2 = crate::majorimprovement::improvement_position(
                &self.players[cp].improvements,
                MajorImprovement::Fireplace_2,
            );
            let chpos = crate::majorimprovement::improvement_position(
                &self.available_improvements,
                card,
            );
            let swap: Option<(usize, MajorImprovement)> = match fire3 {
                Some(fi) => Some((fi, MajorImprovement::Fireplace_3)),
                None => match fire2 {
                    Some(fi) => Some((fi, MajorImprovement::Fireplace_2)),
                    None => None,
                },
            };
            match (swap, chpos) {
                (Some((fi, fireplace)), Some(ci)) => {
                    self.available_improvements.remove(ci);
                    self.available_improvements.push(fireplace);
                    let ghost ps0 = self.players@;
                    let p = &mut self.players[cp];
                    p.improvements.remove(fi);
                    p.improvements.push(card);
                    proof {
                        assert(player_props(ps0[cp as int], self.rounds));
                        assert(self.players@[cp as int].wf()) by {
                            assert(self.players@[cp as int].player_mat@
                                == ps0[cp as int].player_mat@);
                            assert(self.players@[cp as int].pastures@
                                == ps0[cp as int].pastures@);
                        }
                        lemma_player_frame(ps0, self.players@, cp as int, self.rounds);
                    }
                },
                _ => {},
            }
        }
    }

    /// Buys a card priced in stone plus one other material, if it is for
    /// sale and affordable; the ovens bake at once, and the well starts
    /// paying food. Returns whether the purchase went through.
    fn buy_stone_card(&mut self, card: MajorImprovement, other: u8, other_cost: usize,
        stone_cost: usize) -> (bought: bool)
        requires
            old(self).inv_core(),
        ensures
            final(self).inv_core(),
            same_turn_frame(*old(self), *final(self)),
    {
        let cp = self.current_player;
        let other_have = match other {
            1 => self.players[cp].wood,
            2 => self.players[cp].clay,
            _ => self.players[cp].reed,
        };
        if other_have >= other_cost && self.players[cp].stone >= stone_cost
            && crate::majorimprovement::has_improvement(&self.available_improvements, card) {
            match crate::majorimprovement::improvement_position(&self.available_improvements, card) {
                Some(ix) => {
                    self.available_improvements.remove(ix);
                    let ghost ps0 = self.players@;
                    let p = &mut self.players[cp];
                    match other {
                        1 => {
                            p.wood = p.wood - other_cost;
                        },
                        2 => {
                            p.clay = p.clay - other_cost;
                        },
                        _ => {
                            p.reed = p.reed - other_cost;
                        },
                    }
                    p.stone = p.stone - stone_cost;
                    p.improvements.push(card);
                    proof {
                        assert(player_props(ps0[cp as int], self.rounds));
                        assert(self.players@[cp as int].wf()) by {
                            assert(self.players@[cp as int].player_mat@
                                == ps0[cp as int].player_mat@);
                            assert(self.players@[cp as int].pastures@
                                == ps0[cp as int].pastures@);
                        }
                        lemma_player_frame(ps0, self.players@, cp as int, self.rounds);
                    }
                    return true;
                },
                None => {},
            }
        }
        false
    }

    /// The whole purchase step of one improvement-stall choice.
    fn purchase_card(&mut self, card: MajorImprovement)
        requires
            old(self).inv_core(),
        ensures
            final(self).inv_core(),
            final(self).players@.len() == old(self).players@.len(),
            final(self).rounds == old(self).rounds,
            final(self).total_rounds == old(self).total_rounds,
            final(self).current_player == old(self).current_player,
            final(self).player_just_moved == old(self).player_just_moved,
            final(self).board == old(self).board,
            final(self).starting_player_token == old(self).starting_player_token,
            forall|j: int| 0 <= j < old(self).players@.len()
                ==> (#[trigger] final(self).players@[j]).actions
                    == old(self).players@[j].actions,
    {
        match card {
            MajorImprovement::Fireplace_2 => {
                self.buy_simple_clay(MajorImprovement::Fireplace_2, 2);
            },
            MajorImprovement::Fireplace_3 => {
                self.buy_simple_clay(MajorImprovement::Fireplace_3, 3);
            },
            MajorImprovement::CookingHearth_4 => {
                self.buy_hearth(MajorImprovement::CookingHearth_4, 4);
            },
            MajorImprovement::CookingHearth_5 => {
                self.buy_hearth(MajorImprovement::CookingHearth_5, 5);
            },
            MajorImprovement::ClayOven => {
                if self.buy_stone_card(MajorImprovement::ClayOven, 2, 3, 1) {
                    self.turn_work(1);
                }
            },
            MajorImprovement::StoneOven => {
                if self.buy_stone_card(MajorImprovement::StoneOven, 2, 1, 3) {
                    self.turn_work(1);
                }
            },
            MajorImprovement::Pottery => {
                let _ = self.buy_stone_card(MajorImprovement::Pottery, 2, 2, 2);
            },
            MajorImprovement::Joinery => {
                let _ = self.buy_stone_card(MajorImprovement::Joinery, 1, 2, 2);
            },
            MajorImprovement::BasketmakersWorkshop => {
                let _ = self.buy_stone_card(MajorImprovement::BasketmakersWorkshop, 3, 2, 2);
            },
            MajorImprovement::Well => {
                if self.buy_stone_card(MajorImprovement::Well, 1, 1, 3) {
                    self.well_player = Some(self.current_player);
                    self.well_food = 5;
                }
            },
        }
    }

    /// Applies one action: checks it is legal on this position, performs
    /// its farm work, claims its board space, spends one of the acting
    /// player's workers, records the move, and hands the turn to the next
    /// player with workers left — or ends the round when nobody has any.
    /// An illegal action leaves the position untouched and reports the
    /// defect.
    #[verifier::rlimit(100)]
    #[verifier::spinoff_prover]
    pub fn do_action(&mut self, action: u32) -> (r: Result<(), crate::state::IllegalMove>)
        requires
            old(self).inv(),
        ensures
            final(self).inv(),
            r is Ok <==> old(self).spec_actions().contains(action),
            r is Err ==> *final(self) == *old(self) && r->Err_0.action == action,
            r is Ok ==> final(self).players@.len() == old(self).players@.len(),
            r is Ok ==> (final(self).rounds == old(self).rounds + 1
                || (final(self).rounds == old(self).rounds
                    && actions_sum(final(self).players@) < actions_sum(old(self).players@))),
            ({
                // Accumulate-and-empty semantics of the resource spaces:
                // unless this move ended the round (which replenishes the
                // board), the claimed space is occupied and empty and the
                // goods moved to the mover's store.
                let cp = old(self).current_player as int;
                let p0 = old(self).players@[cp]@;
                let p1 = final(self).players@[cp]@;
                &&& (r is Ok && action == 11 && final(self).rounds == old(self).rounds
                    ==> sweep_effect(*old(self), *final(self), AgricolaTile::Wood, p0.wood, p1.wood))
                &&& (r is Ok && action == 12 && final(self).rounds == old(self).rounds
                    ==> sweep_effect(*old(self), *final(self), AgricolaTile::Clay, p0.clay, p1.clay))
                &&& (r is Ok && action == 13 && final(self).rounds == old(self).rounds
                    ==> sweep_effect(*old(self), *final(self), AgricolaTile::Reed, p0.reed, p1.reed))
                &&& (r is Ok && action == 14 && final(self).rounds == old(self).rounds
                    ==> sweep_effect(*old(self), *final(self), AgricolaTile::Fishing, p0.food, p1.food))
                &&& (r is Ok && action == 25 && final(self).rounds == old(self).rounds
                    ==> sweep_effect(*old(self), *final(self), AgricolaTile::Stone_1, p0.stone, p1.stone))
                &&& (r is Ok && action == 30 && final(self).rounds == old(self).rounds
                    ==> sweep_effect(*old(self), *final(self), AgricolaTile::Stone_2, p0.stone, p1.stone))
                &&& (r is Ok && action == 2 && final(self).rounds == old(self).rounds
                    ==> sweep_effect(*old(self), *final(self), AgricolaTile::StartingPlayer_Food, p0.food, p1.food)
                        && final(self).starting_player_token == Some(old(self).current_player))
            }),
    {
        let acts = self.get_actions();
        if !crate::misc::contains_u32(&acts, action) {
            return Err(crate::state::IllegalMove { action });
        }
        proof {
            assert(self.spec_actions().len() > 0);
            assert(self.rounds <= 14);
            assert(self.players@[self.current_player as int].actions >= 1);
        }
        let cp = self.current_player;
        let parsed = AgricolaAction::from_u32(action);
        match parsed {
            Some(AgricolaAction::Grain) => {
                let _ = self.board.claim(AgricolaTile::Grain, cp, false);
                self.turn_gain(5, 1);
            },
            Some(AgricolaAction::Wood) => {
                let t = self.board.claim(AgricolaTile::Wood, cp, true);
                self.turn_gain(1, t);
            },
            Some(AgricolaAction::Clay) => {
                let t = self.board.claim(AgricolaTile::Clay, cp, true);
                self.turn_gain(2, t);
            },
            Some(AgricolaAction::Reed) => {
                let t = self.board.claim(AgricolaTile::Reed, cp, true);
                self.turn_gain(3, t);
            },
            Some(AgricolaAction::Fishing) => {
                let t = self.board.claim(AgricolaTile::Fishing, cp, true);
                self.turn_gain(0, t);
            },
            Some(AgricolaAction::DayLaborer_Food_Wood) => {
                let _ = self.board.claim(AgricolaTile::DayLaborer, cp, false);
                self.turn_gain(0, 1);
                self.turn_gain(1, 1);
            },
            Some(AgricolaAction::DayLaborer_Food_Clay) => {
                let _ = self.board.claim(AgricolaTile::DayLaborer, cp, false);
                self.turn_gain(0, 1);
                self.turn_gain(2, 1);
            },
            Some(AgricolaAction::DayLaborer_Food_Reed) => {
                let _ = self.board.claim(AgricolaTile::DayLaborer, cp, false);
                self.turn_gain(0, 1);
                self.turn_gain(3, 1);
            },
            Some(AgricolaAction::DayLaborer_Food_Stone) => {
                let _ = self.board.claim(AgricolaTile::DayLaborer, cp, false);
                self.turn_gain(0, 1);
                self.turn_gain(4, 1);
            },
            Some(AgricolaAction::Sow) => {
                let _ = self.board.claim(AgricolaTile::Sow_BakeBread, cp, false);
                self.turn_work(0);
            },
            Some(AgricolaAction::BakeBread_NotSow) => {
                let _ = self.board.claim(AgricolaTile::Sow_BakeBread, cp, false);
                self.turn_work(1);
            },
            Some(AgricolaAction::Sow_BakeBread) => {
                let _ = self.board.claim(AgricolaTile::Sow_BakeBread, cp, false);
                self.turn_work(0);
                self.turn_work(1);
            },
            Some(AgricolaAction::BuildRoom) => {
                let _ = self.board.claim(AgricolaTile::BuildRoom_BuildStables, cp, false);
                self.turn_work(2);
            },
            Some(AgricolaAction::BuildStables) => {
                let _ = self.board.claim(AgricolaTile::BuildRoom_BuildStables, cp, false);
                self.turn_work(3);
            },
            Some(AgricolaAction::BuildRoom_BuildStables) => {
                let _ = self.board.claim(AgricolaTile::BuildRoom_BuildStables, cp, false);
                self.turn_work(2);
                self.turn_work(3);
            },
            Some(AgricolaAction::StartingPlayer_Food) => {
                let t = self.board.claim(AgricolaTile::StartingPlayer_Food, cp, true);
                self.turn_gain(0, t);
                self.starting_player_token = Some(cp);
            },
            Some(AgricolaAction::Plow) => {
                let _ = self.board.claim(AgricolaTile::Plow, cp, false);
                self.turn_work(5);
            },
            Some(AgricolaAction::BuildStable) => {
                let _ = self.board.claim(AgricolaTile::BuildStable_BakeBread, cp, false);
                self.turn_work(4);
            },
            Some(AgricolaAction::BakeBread_NoStable) => {
                let _ = self.board.claim(AgricolaTile::BuildStable_BakeBread, cp, false);
                self.turn_work(1);
            },
            Some(AgricolaAction::BuildStable_BakeBread) => {
                let _ = self.board.claim(AgricolaTile::BuildStable_BakeBread, cp, false);
                self.turn_work(4);
                self.turn_work(1);
            },
            Some(AgricolaAction::Sheep) => {
                let t = self.board.claim(AgricolaTile::Sheep, cp, true);
                self.turn_gain(7, t);
                self.turn_work(7);
            },
            Some(AgricolaAction::Boar) => {
                let t = self.board.claim(AgricolaTile::Boar, cp, true);
                self.turn_gain(8, t);
                self.turn_work(7);
            },
            Some(AgricolaAction::Cattle) => {
                let t = self.board.claim(AgricolaTile::Cattle, cp, true);
                self.turn_gain(9, t);
                self.turn_work(7);
            },
            Some(AgricolaAction::Vegetable) => {
                let _ = self.board.claim(AgricolaTile::Vegetable, cp, false);
                self.turn_gain(6, 1);
            },
            Some(AgricolaAction::Stone_1) => {
                let t = self.board.claim(AgricolaTile::Stone_1, cp, true);
                self.turn_gain(4, t);
            },
            Some(AgricolaAction::Stone_2) => {
                let t = self.board.claim(AgricolaTile::Stone_2, cp, true);
                self.turn_gain(4, t);
            },
            Some(AgricolaAction::Fences) => {
                let _ = self.board.claim(AgricolaTile::Fences, cp, false);
                self.turn_work(6);
            },
            Some(AgricolaAction::FamilyGrowth) => {
                let _ = self.board.claim(AgricolaTile::FamilyGrowth, cp, false);
                self.turn_family_growth(true);
            },
            Some(AgricolaAction::FamilyGrowth_NoSpace) => {
                let _ = self.board.claim(AgricolaTile::FamilyGrowth_NoSpace, cp, false);
                self.turn_family_growth(false);
            },
            Some(AgricolaAction::Plow_NoSow) => {
                let _ = self.board.claim(AgricolaTile::Plow_Sow, cp, false);
                self.turn_work(5);
            },
            Some(AgricolaAction::Sow_NoPlow) => {
                let _ = self.board.claim(AgricolaTile::Plow_Sow, cp, false);
                self.turn_work(0);
            },
            Some(AgricolaAction::Plow_Sow) => {
                let _ = self.board.claim(AgricolaTile::Plow_Sow, cp, false);
                self.turn_work(5);
                self.turn_work(0);
            },
            Some(AgricolaAction::Renovation_Fences) => {
                let _ = self.board.claim(AgricolaTile::Renovation_Fences, cp, false);
                self.turn_renovate();
                self.turn_work(6);
            },
            Some(AgricolaAction::MajorImprovement_Fireplace_2) => {
                let _ = self.board.claim(AgricolaTile::MajorImprovement, cp, false);
                self.purchase_card(MajorImprovement::Fireplace_2);
            },
            Some(AgricolaAction::MajorImprovement_Fireplace_3) => {
                let _ = self.board.claim(AgricolaTile::MajorImprovement, cp, false);
                self.purchase_card(MajorImprovement::Fireplace_3);
            },
            Some(AgricolaAction::MajorImprovement_CookingHearth_4) => {
                let _ = self.board.claim(AgricolaTile::MajorImprovement, cp, false);
                self.purchase_card(MajorImprovement::CookingHearth_4);
            },
            Some(AgricolaAction::MajorImprovement_CookingHearth_5) => {
                let _ = self.board.claim(AgricolaTile::MajorImprovement, cp, false);
                self.purchase_card(MajorImprovement::CookingHearth_5);
            },
            Some(AgricolaAction::MajorImprovement_ClayOven) => {
                let _ = self.board.claim(AgricolaTile::MajorImprovement, cp, false);
                self.purchase_card(MajorImprovement::ClayOven);
            },
            Some(AgricolaAction::MajorImprovement_StoneOven) => {
                let _ = self.board.claim(AgricolaTile::MajorImprovement, cp, false);
                self.purchase_card(MajorImprovement::StoneOven);
            },
            Some(AgricolaAction::MajorImprovement_Pottery) => {
                let _ = self.board.claim(AgricolaTile::MajorImprovement, cp, false);
                self.purchase_card(MajorImprovement::Pottery);
            },
            Some(AgricolaAction::MajorImprovement_Joinery) => {
                let _ = self.board.claim(AgricolaTile::MajorImprovement, cp, false);
                self.purchase_card(MajorImprovement::Joinery);
            },
            Some(AgricolaAction::MajorImprovement_BasketmakersWorkshop) => {
                let _ = self.board.claim(AgricolaTile::MajorImprovement, cp, false);
                self.purchase_card(MajorImprovement::BasketmakersWorkshop);
            },
            Some(AgricolaAction::MajorImprovement_Well) => {
                let _ = self.board.claim(AgricolaTile::MajorImprovement, cp, false);
                self.purchase_card(MajorImprovement::Well);
            },
            Some(AgricolaAction::Renovation_MajorImprovement_Fireplace_2) => {
                let _ = self.board.claim(AgricolaTile::Renovation_MajorImprovement, cp, false);
                self.turn_renovate();
                self.purchase_card(MajorImprovement::Fireplace_2);
            },
            Some(AgricolaAction::Renovation_MajorImprovement_Fireplace_3) => {
                let _ = self.board.claim(AgricolaTile::Renovation_MajorImprovement, cp, false);
                self.turn_renovate();
                self.purchase_card(MajorImprovement::Fireplace_3);
            },
            Some(AgricolaAction::Renovation_MajorImprovement_CookingHearth_4) => {
                let _ = self.board.claim(AgricolaTile::Renovation_MajorImprovement, cp, false);
                self.turn_renovate();
                self.purchase_card(MajorImprovement::CookingHearth_4);
            },
            Some(AgricolaAction::Renovation_MajorImprovement_CookingHearth_5) => {
                let _ = self.board.claim(AgricolaTile::Renovation_MajorImprovement, cp, false);
                self.turn_renovate();
                self.purchase_card(MajorImprovement::CookingHearth_5);
            },
            Some(AgricolaAction::Renovation_MajorImprovement_ClayOven) => {
                let _ = self.board.claim(AgricolaTile::Renovation_MajorImprovement, cp, false);
                self.turn_renovate();
                self.purchase_card(MajorImprovement::ClayOven);
            },
            Some(AgricolaAction::Renovation_MajorImprovement_StoneOven) => {
                let _ = self.board.claim(AgricolaTile::Renovation_MajorImprovement, cp, false);
                self.turn_renovate();
                self.purchase_card(MajorImprovement::StoneOven);
            },
            Some(AgricolaAction::Renovation_MajorImprovement_Pottery) => {
                let _ = self.board.claim(AgricolaTile::Renovation_MajorImprovement, cp, false);
                self.turn_renovate();
                self.purchase_card(MajorImprovement::Pottery);
            },
            Some(AgricolaAction::Renovation_MajorImprovement_Joinery) => {
                let _ = self.board.claim(AgricolaTile::Renovation_MajorImprovement, cp, false);
                self.turn_renovate();
                self.purchase_card(MajorImprovement::Joinery);
            },
            Some(AgricolaAction::Renovation_MajorImprovement_BasketmakersWorkshop) => {
                let _ = self.board.claim(AgricolaTile::Renovation_MajorImprovement, cp, false);
                self.turn_renovate();
                self.purchase_card(MajorImprovement::BasketmakersWorkshop);
            },
            Some(AgricolaAction::Renovation_MajorImprovement_Well) => {
                let _ = self.board.claim(AgricolaTile::Renovation_MajorImprovement, cp, false);
                self.turn_renovate();
                self.purchase_card(MajorImprovement::Well);
            },
            Some(AgricolaAction::MajorImprovement) => {},
            Some(AgricolaAction::Renovation_MajorImprovement) => {},
            None => {},
        }
        let label = match parsed {
            Some(a) => a.name(),
            None => "Unknown",
        };
        proof {
            assert forall|j: int| 0 <= j < self.players@.len()
                implies (#[trigger] self.players@[j]).actions
                    == old(self).players@[j].actions by {}
            lemma_actions_sum_congruent(old(self).players@, self.players@);
        }
        let ghost mid = *self;
        self.finish_turn(label);
        proof {
            if self.rounds == mid.rounds {
                assert(actions_sum(self.players@) < actions_sum(old(self).players@));
            }
        }
        Ok(())
    }

    /// Ends the acting player's turn: spends one worker, records who just
    /// moved and what was done, and passes the turn to the next player
    /// with workers left, ending the round when nobody has any.
    fn finish_turn(&mut self, label: &str)
        requires
            old(self).inv_core(),
            old(self).rounds <= 14,
            old(self).players@[old(self).current_player as int].actions >= 1,
        ensures
            final(self).inv(),
            final(self).players@.len() == old(self).players@.len(),
            (final(self).rounds == old(self).rounds + 1
                || (final(self).rounds == old(self).rounds
                    && actions_sum(final(self).players@) < actions_sum(old(self).players@))),
            final(self).rounds == old(self).rounds ==> {
                &&& final(self).board == old(self).board
                &&& final(self).starting_player_token == old(self).starting_player_token
                &&& forall|j: int| 0 <= j < old(self).players@.len()
                    ==> same_but_turn(
                        old(self).players@[j]@,
                        (#[trigger] final(self).players@[j])@,
                    )
            },
    {
        let cp = self.current_player;
        let ghost ps_pre_spend = self.players@;
        {
            let p = &mut self.players[cp];
            p.actions = p.actions - 1;
        }
        proof {
            assert(player_props(ps_pre_spend[cp as int], self.rounds));
            assert(self.players@[cp as int].wf()) by {
                assert(self.players@[cp as int].player_mat@
                    == ps_pre_spend[cp as int].player_mat@);
                assert(self.players@[cp as int].pastures@
                    == ps_pre_spend[cp as int].pastures@);
            }
            lemma_player_frame(ps_pre_spend, self.players@, cp as int, self.rounds);
            lemma_actions_sum_spend(ps_pre_spend, self.players@, cp as int);
        }
        self.player_just_moved = cp;
        let ghost ps_post_spend = self.players@;
        self.add_action(cp, label.to_owned());
        proof {
            lemma_actions_sum_congruent(ps_post_spend, self.players@);
        }
        let ghost ps_rot = self.players@;
        // Hand the turn on; if nobody has a worker left, the round ends.
        let n = self.players.len();
        let mut found: Option<usize> = None;
        let mut step: usize = 1;
        while step < n
            invariant
                n == self.players@.len(),
                self.inv_core(),
                cp < n,
                self.rounds <= 14,
                step <= n,
                self.players@ == ps_rot,
                (match found {
                    Some(f) => f < n && self.players@[f as int].actions >= 1,
                    None => true,
                }),
            decreases n - step,
        {
            let idx = if step < n - cp {
                cp + step
            } else {
                step - (n - cp)
            };
            if self.players[idx].actions > 0 && found.is_none() {
                found = Some(idx);
            }
            step = step + 1;
        }
        match found {
            Some(k) => {
                self.current_player = k;
            },
            None => {
                self.end_round();
            },
        }
    }

    /// The participant who made the last move.
    pub fn get_player_just_moved(&self) -> (p: usize)
        ensures
            p == self.player_just_moved,
    {
        self.player_just_moved
    }

    /// Records an action in the game log and in the acting player's log.
    pub fn add_action(&mut self, player: usize, action: String)
        requires
            old(self).inv_core(),
            player < old(self).players@.len(),
        ensures
            final(self).inv_core(),
            final(self).actions_taken@ == old(self).actions_taken@.push(action),
            final(self).players@.len() == old(self).players@.len(),
            final(self).players@[player as int]@ == (crate::player::PlayerV {
                actions_taken: old(self).players@[player as int]@.actions_taken.push(action),
                ..old(self).players@[player as int]@
            }),
            forall|j: int| 0 <= j < old(self).players@.len() && j != player
                ==> final(self).players@[j] == old(self).players@[j],
            final(self).board == old(self).board,
            final(self).rounds == old(self).rounds,
            final(self).total_rounds == old(self).total_rounds,
            final(self).current_player == old(self).current_player,
            final(self).player_just_moved == old(self).player_just_moved,
            final(self).starting_player_token == old(self).starting_player_token,
            final(self).well_player == old(self).well_player,
            final(self).well_food == old(self).well_food,
            forall|j: int| 0 <= j < old(self).players@.len()
                ==> (#[trigger] final(self).players@[j]).actions
                    == old(self).players@[j].actions,
    {
        self.actions_taken.push(action.clone());
        let ghost ps0 = self.players@;
        let p = &mut self.players[player];
        p.actions_taken.push(action);
        proof {
            assert forall|i: int| 0 <= i < self.players@.len()
                implies player_props(#[trigger] self.players@[i], self.rounds) by {
                if i == player {
                    assert(self.players@[i].player_mat@ == ps0[i].player_mat@);
                    assert(self.players@[i].pastures@ == ps0[i].pastures@);
                } else {
                    assert(self.players@[i] == ps0[i]);
                }
            }
        }
    }

    /// One when `player`'s score ties the best score at the table, zero
    /// otherwise, in thousandths of a win.
    pub fn get_result(&self, player: usize) -> (r: u64)
        requires
            self.inv(),
            player < self.players@.len(),
        ensures
            r == REWARD_UNIT || r == 0,
    {
        let mut best: i32 = i32::MIN;
        let mut k: usize = 0;
        while k < self.players.len()
            invariant
                self.inv(),
                k <= self.players@.len(),
            decreases self.players@.len() - k,
        {
            let s = self.players[k].score();
            if s > best {
                best = s;
            }
            k = k + 1;
        }
        let mine = self.players[player].score();
        if mine >= best {
            REWARD_UNIT
        } else {
            0
        }
    }

    /// The legal action identifiers of this position, in board order.
    pub fn get_actions(&self) -> (r: Vec<u32>)
        requires
            self.inv(),
        ensures
            r@ == self.spec_actions(),
    {
        let mut actions: Vec<u32> = Vec::new();
        if self.rounds > self.total_rounds {
            proof {
                assert(actions@ =~= self.spec_actions());
            }
            return actions;
        }
        let ghost spots = self.board@.tiles;
        let ghost impr = self.available_improvements@;
        let n = self.board.tiles.len();
        let mut k: usize = 0;
        while k < n
            invariant
                self.inv(),
                n == spots.len(),
                spots == self.board@.tiles,
                impr == self.available_improvements@,
                k <= n,
                actions_from(spots, impr, 0) == actions@ + actions_from(spots, impr, k as int),
            decreases n - k,
        {
            let ghost pre = actions@;
            let entry = self.board.tiles[k];
            self.push_tile_actions(&mut actions, entry);
            proof {
                assert(actions_from(spots, impr, k as int) == tile_actions(
                    spots[k as int].0,
                    spots[k as int].1.occupied is Some,
                    impr,
                ) + actions_from(spots, impr, k + 1));
                assert(actions_from(spots, impr, 0) =~= actions@ + actions_from(
                    spots,
                    impr,
                    k + 1,
                ));
            }
            k = k + 1;
        }
        proof {
            assert(actions_from(spots, impr, n as int) =~= Seq::<u32>::empty());
            assert(actions@ =~= self.spec_actions());
        }
        actions
    }

    /// Pushes the actions one open space offers onto `actions`.
    fn push_tile_actions(&self, actions: &mut Vec<u32>, entry: (AgricolaTile, BoardTile))
        ensures
            final(actions)@ == old(actions)@ + tile_actions(
                entry.0,
                entry.1.occupied is Some,
                self.available_improvements@,
            ),
    {
        let ghost pre = actions@;
        if entry.1.occupied.is_none() {
            match entry.0 {
                AgricolaTile::DayLaborer | AgricolaTile::BuildRoom_BuildStables
                | AgricolaTile::StartingPlayer_Food | AgricolaTile::Grain | AgricolaTile::Plow
                | AgricolaTile::BuildStable_BakeBread | AgricolaTile::Sow_BakeBread
                | AgricolaTile::Wood => {
                    self.push_tile_actions_a(actions, entry.0);
                },
                AgricolaTile::Clay | AgricolaTile::Reed | AgricolaTile::Fishing
                | AgricolaTile::Fences | AgricolaTile::Sheep | AgricolaTile::FamilyGrowth
                | AgricolaTile::Stone_1 | AgricolaTile::Vegetable => {
                    self.push_tile_actions_b(actions, entry.0);
                },
                AgricolaTile::Boar | AgricolaTile::Cattle | AgricolaTile::Stone_2
                | AgricolaTile::Plow_Sow | AgricolaTile::FamilyGrowth_NoSpace
                | AgricolaTile::Renovation_Fences | AgricolaTile::MajorImprovement
                | AgricolaTile::Renovation_MajorImprovement => {
                    self.push_tile_actions_c(actions, entry.0);
                },
            }
        } else {
            proof {
                assert(actions@ =~= pre + tile_actions(
                    entry.0,
                    entry.1.occupied is Some,
                    self.available_improvements@,
                ));
            }
        }
    }

    /// The choices of the first group of action spaces.
    fn push_tile_actions_a(&self, actions: &mut Vec<u32>, t: AgricolaTile)
        requires
            t == AgricolaTile::DayLaborer || t == AgricolaTile::BuildRoom_BuildStables
                || t == AgricolaTile::StartingPlayer_Food || t == AgricolaTile::Grain
                || t == AgricolaTile::Plow || t == AgricolaTile::BuildStable_BakeBread
                || t == AgricolaTile::Sow_BakeBread || t == AgricolaTile::Wood,
        ensures
            final(actions)@ == old(actions)@ + tile_actions(t, false, self.available_improvements@),
    {
        let ghost pre = actions@;
        match t {
            AgricolaTile::DayLaborer => {
                actions.push(6);
                actions.push(7);
                actions.push(8);
                actions.push(9);
                proof {
                    assert(actions@ =~= pre + seq![6u32, 7u32, 8u32, 9u32]);
                }
            },
            AgricolaTile::BuildRoom_BuildStables => {
                actions.push(15);
                actions.push(16);
                actions.push(1);
                proof {
                    assert(actions@ =~= pre + seq![15u32, 16u32, 1u32]);
                }
            },
            AgricolaTile::StartingPlayer_Food => {
                actions.push(2);
                proof {
                    assert(actions@ =~= pre + seq![2u32]);
                }
            },
            AgricolaTile::Grain => {
                actions.push(3);
                proof {
                    assert(actions@ =~= pre + seq![3u32]);
                }
            },
            AgricolaTile::Plow => {
                actions.push(4);
                proof {
                    assert(actions@ =~= pre + seq![4u32]);
                }
            },
            AgricolaTile::BuildStable_BakeBread => {
                actions.push(5);
                actions.push(19);
                actions.push(20);
                proof {
                    assert(actions@ =~= pre + seq![5u32, 19u32, 20u32]);
                }
            },
            AgricolaTile::Sow_BakeBread => {
                actions.push(10);
                actions.push(18);
                actions.push(17);
                proof {
                    assert(actions@ =~= pre + seq![10u32, 18u32, 17u32]);
                }
            },
            _ => {
                actions.push(11);
                proof {
                    assert(t == AgricolaTile::Wood);
                    assert(actions@ =~= pre + seq![11u32]);
                }
            },
        }
    }

    /// The choices of the second group of action spaces.
    fn push_tile_actions_b(&self, actions: &mut Vec<u32>, t: AgricolaTile)
        requires
            t == AgricolaTile::Clay || t == AgricolaTile::Reed || t == AgricolaTile::Fishing
                || t == AgricolaTile::Fences || t == AgricolaTile::Sheep
                || t == AgricolaTile::FamilyGrowth || t == AgricolaTile::Stone_1
                || t == AgricolaTile::Vegetable,
        ensures
            final(actions)@ == old(actions)@ + tile_actions(t, false, self.available_improvements@),
    {
        let ghost pre = actions@;
        let code: u32 = match t {
            AgricolaTile::Clay => 12,
            AgricolaTile::Reed => 13,
            AgricolaTile::Fishing => 14,
            AgricolaTile::Fences => 21,
            AgricolaTile::Sheep => 23,
            AgricolaTile::FamilyGrowth => 24,
            AgricolaTile::Stone_1 => 25,
            _ => 27,
        };
        actions.push(code);
        proof {
            assert(actions@ =~= pre + seq![code]);
            assert(seq![code] == tile_actions(t, false, self.available_improvements@));
        }
    }

    /// The choices of the third group of action spaces, including the two
    /// improvement stalls.
    fn push_tile_actions_c(&self, actions: &mut Vec<u32>, t: AgricolaTile)
        requires
            t == AgricolaTile::Boar || t == AgricolaTile::Cattle || t == AgricolaTile::Stone_2
                || t == AgricolaTile::Plow_Sow || t == AgricolaTile::FamilyGrowth_NoSpace
                || t == AgricolaTile::Renovation_Fences || t == AgricolaTile::MajorImprovement
                || t == AgricolaTile::Renovation_MajorImprovement,
        ensures
            final(actions)@ == old(actions)@ + tile_actions(t, false, self.available_improvements@),
    {
        let ghost pre = actions@;
        match t {
            AgricolaTile::Boar => {
                actions.push(28);
                proof {
                    assert(actions@ =~= pre + seq![28u32]);
                }
            },
            AgricolaTile::Cattle => {
                actions.push(29);
                proof {
                    assert(actions@ =~= pre + seq![29u32]);
                }
            },
            AgricolaTile::Stone_2 => {
                actions.push(30);
                proof {
                    assert(actions@ =~= pre + seq![30u32]);
                }
            },
            AgricolaTile::Plow_Sow => {
                actions.push(31);
                actions.push(34);
                actions.push(35);
                proof {
                    assert(actions@ =~= pre + seq![31u32, 34u32, 35u32]);
                }
            },
            AgricolaTile::FamilyGrowth_NoSpace => {
                actions.push(32);
                proof {
                    assert(actions@ =~= pre + seq![32u32]);
                }
            },
            AgricolaTile::Renovation_Fences => {
                actions.push(33);
                proof {
                    assert(actions@ =~= pre + seq![33u32]);
                }
            },
            AgricolaTile::MajorImprovement => {
                self.push_improvement_actions(actions, 36);
            },
            _ => {
                self.push_improvement_actions(actions, 46);
                let ghost mid = actions@;
                if crate::majorimprovement::has_improvement(
                    &self.available_improvements,
                    MajorImprovement::Well,
                ) {
                    actions.push(55);
                }
                proof {
                    assert(t == AgricolaTile::Renovation_MajorImprovement);
                    assert(actions@ =~= mid + opt_act(
                        self.available_improvements@.contains(MajorImprovement::Well),
                        55,
                    ));
                    assert(actions@ =~= pre + (stall_actions(self.available_improvements@, 46)
                        + opt_act(self.available_improvements@.contains(MajorImprovement::Well), 55)));
                }
            },
        }
    }

    /// Pushes one purchase choice if its card is still for sale.
    fn push_if_available(&self, actions: &mut Vec<u32>, card: MajorImprovement, code: u32)
        ensures
            final(actions)@ == old(actions)@ + opt_act(
                self.available_improvements@.contains(card),
                code,
            ),
    {
        let ghost pre = actions@;
        if crate::majorimprovement::has_improvement(&self.available_improvements, card) {
            actions.push(code);
        }
        proof {
            assert(actions@ =~= pre + opt_act(self.available_improvements@.contains(card), code));
        }
    }

    /// Pushes the nine purchase choices of the improvement stall that are
    /// still for sale, with codes starting at `base`.
    #[verifier::rlimit(100)]
    #[verifier::spinoff_prover]
    fn push_improvement_actions(&self, actions: &mut Vec<u32>, base: u32)
        requires
            base == 36 || base == 46,
        ensures
            final(actions)@ == old(actions)@ + stall_actions(self.available_improvements@, base),
    {
        let ghost impr = self.available_improvements@;
        let ghost g0 = actions@;
        self.push_if_available(actions, MajorImprovement::Fireplace_2, base);
        self.push_if_available(actions, MajorImprovement::Fireplace_3, base + 1);
        self.push_if_available(actions, MajorImprovement::CookingHearth_4, base + 2);
        self.push_if_available(actions, MajorImprovement::CookingHearth_5, base + 3);
        self.push_if_available(actions, MajorImprovement::ClayOven, base + 4);
        self.push_if_available(actions, MajorImprovement::StoneOven, base + 5);
        self.push_if_available(actions, MajorImprovement::Pottery, base + 6);
        self.push_if_available(actions, MajorImprovement::Joinery, base + 7);
        self.push_if_available(actions, MajorImprovement::BasketmakersWorkshop, base + 8);
        proof {
            let o1 = opt_act(impr.contains(MajorImprovement::Fireplace_2), base);
            let o2 = opt_act(impr.contains(MajorImprovement::Fireplace_3), (base + 1) as u32);
            let o3 = opt_act(impr.contains(MajorImprovement::CookingHearth_4), (base + 2) as u32);
            let o4 = opt_act(impr.contains(MajorImprovement::CookingHearth_5), (base + 3) as u32);
            let o5 = opt_act(impr.contains(MajorImprovement::ClayOven), (base + 4) as u32);
            let o6 = opt_act(impr.contains(MajorImprovement::StoneOven), (base + 5) as u32);
            let o7 = opt_act(impr.contains(MajorImprovement::Pottery), (base + 6) as u32);
            let o8 = opt_act(impr.contains(MajorImprovement::Joinery), (base + 7) as u32);
            let o9 = opt_act(impr.contains(MajorImprovement::BasketmakersWorkshop), (base + 8) as u32);
            lemma_stall_shift(g0, o1, o2, o3, o4, o5, o6, o7, o8, o9);
        }
    }

    /// Human labels, one per legal action, in the same order.
    pub fn get_action_strings(&self) -> (r: Vec<String>)
        requires
            self.inv(),
        ensures
            r@.len() == self.spec_actions().len(),
    {
        let actions = self.get_actions();
        let mut strings: Vec<String> = Vec::new();
        let mut k: usize = 0;
        while k < actions.len()
            invariant
                strings@.len() == k,
                k <= actions@.len(),
            decreases actions@.len() - k,
        {
            let label = match AgricolaAction::from_u32(actions[k]) {
                Some(a) => a.name(),
                None => "Unknown",
            };
            strings.push(label.to_owned());
            k = k + 1;
        }
        strings
    }
}

/// Appending nine segments one after another equals appending their
/// left-to-right concatenation once.
proof fn lemma_stall_shift(
    g0: Seq<u32>,
    o1: Seq<u32>,
    o2: Seq<u32>,
    o3: Seq<u32>,
    o4: Seq<u32>,
    o5: Seq<u32>,
    o6: Seq<u32>,
    o7: Seq<u32>,
    o8: Seq<u32>,
    o9: Seq<u32>,
)
    ensures
        g0 + o1 + o2 + o3 + o4 + o5 + o6 + o7 + o8 + o9
            == g0 + (o1 + o2 + o3 + o4 + o5 + o6 + o7 + o8 + o9),
{
    vstd::seq_lib::lemma_concat_associative(g0, o1, o2);
    vstd::seq_lib::lemma_concat_associative(g0, o1 + o2, o3);
    vstd::seq_lib::lemma_concat_associative(g0, o1 + o2 + o3, o4);
    vstd::seq_lib::lemma_concat_associative(g0, o1 + o2 + o3 + o4, o5);
    vstd::seq_lib::lemma_concat_associative(g0, o1 + o2 + o3 + o4 + o5, o6);
    vstd::seq_lib::lemma_concat_associative(g0, o1 + o2 + o3 + o4 + o5 + o6, o7);
    vstd::seq_lib::lemma_concat_associative(g0, o1 + o2 + o3 + o4 + o5 + o6 + o7, o8);
    vstd::seq_lib::lemma_concat_associative(g0, o1 + o2 + o3 + o4 + o5 + o6 + o7 + o8, o9);
}

impl crate::state::State for AgricolaState {
    open spec fn inv(&self) -> bool {
        AgricolaState::inv(self)
    }

    open spec fn spec_player_just_moved(&self) -> usize {
        self.player_just_moved
    }

    open spec fn spec_actions(&self) -> Seq<u32> {
        AgricolaState::spec_actions(self)
    }

    open spec fn moves_left(&self) -> nat {
        if self.rounds > self.total_rounds {
            0
        } else {
            (((15 - self.rounds) * (21 * self.players@.len() + 1) + actions_sum(self.players@)
                + 1) as nat)
        }
    }

    fn clone_state(&self) -> (r: Self) {
        let r = self.clone();
        proof {
            assert(r.rounds == self.rounds && r.total_rounds == self.total_rounds);
            assert(r.board@ == self.board@);
            assert(r.available_improvements@ == self.available_improvements@);
            assert(AgricolaState::spec_actions(&r) == AgricolaState::spec_actions(self));
            assert forall|j: int| 0 <= j < r.players@.len()
                implies (#[trigger] r.players@[j]).actions == self.players@[j].actions by {
                assert(r.players@[j]@ == self.players@[j]@);
            }
            lemma_actions_sum_congruent(r.players@, self.players@);
        }
        r
    }

    fn get_player_just_moved(&self) -> (p: usize) {
        self.player_just_moved
    }

    fn get_actions(&self) -> (r: Vec<u32>) {
        AgricolaState::get_actions(self)
    }

    fn get_action_strings(&self) -> (r: Vec<String>) {
        AgricolaState::get_action_strings(self)
    }

    fn do_action(&mut self, action: u32) -> (r: Result<(), crate::state::IllegalMove>) {
        let ghost pre = *self;
        let r = AgricolaState::do_action(self, action);
        proof {
            if r is Ok {
                assert(self.players@.len() == pre.players@.len());
                assert(self.total_rounds == 14);
                let len = pre.players@.len() as int;
                let k = 21 * len + 1;
                assert(21 * self.players@.len() + 1 == k);
                assert forall|j: int| 0 <= j < pre.players@.len()
                    implies player_props(#[trigger] pre.players@[j], pre.rounds) by {}
                lemma_actions_sum_bounds(pre.players@, pre.rounds);
                assert(pre.rounds <= 14) by {
                    assert(pre.spec_actions().len() > 0);
                }
                if self.rounds == pre.rounds {
                    assert(actions_sum(self.players@) < actions_sum(pre.players@));
                    assert forall|j: int| 0 <= j < self.players@.len()
                        implies player_props(#[trigger] self.players@[j], self.rounds) by {}
                    lemma_actions_sum_bounds(self.players@, self.rounds);
                    assert((15 - self.rounds) * (21 * self.players@.len() + 1)
                        == (15 - pre.rounds) * (21 * pre.players@.len() + 1));
                    assert((15 - pre.rounds) * k >= 0) by (nonlinear_arith)
                        requires
                            pre.rounds <= 14,
                            k >= 1,
                    ;
                    assert(self.moves_left() < pre.moves_left());
                } else {
                    assert(self.rounds == pre.rounds + 1);
                    if self.rounds <= 14 {
                        assert forall|j: int| 0 <= j < self.players@.len()
                            implies player_props(#[trigger] self.players@[j], self.rounds) by {}
                        lemma_actions_sum_bounds(self.players@, self.rounds);
                        assert((15 - self.rounds) * k + actions_sum(self.players@) + 1
                            <= (15 - self.rounds) * k + k) by {
                            assert(actions_sum(self.players@) + 1 <= k);
                        }
                        assert((15 - self.rounds) * k + k == (15 - pre.rounds) * k)
                            by (nonlinear_arith)
                            requires
                                self.rounds == pre.rounds + 1,
                                pre.rounds <= 14,
                        ;
                        assert((15 - pre.rounds) * k
                            < (15 - pre.rounds) * k + actions_sum(pre.players@) + 1);
                        assert(self.moves_left() < pre.moves_left());
                    } else {
                        assert(self.rounds == 15);
                        assert(self.moves_left() == 0);
                        assert((15 - pre.rounds) * k >= k) by (nonlinear_arith)
                            requires
                                pre.rounds <= 14,
                                k >= 1,
                        ;
                        assert(pre.moves_left() >= 1);
                        assert(self.moves_left() < pre.moves_left());
                    }
                }
            }
        }
        r
    }

    fn get_result(&self, player: usize) -> (r: u64) {
        if player < self.players.len() {
            AgricolaState::get_result(self, player)
        } else {
            0
        }
    }
}

} // verus!
