//! One farmer: resources, family, farm grid, pastures and improvement
//! cards, and the farm work an action can trigger.

use vstd::prelude::*;
use crate::farmtile::FarmTileV;
use crate::majorimprovement::{has_improvement, MajorImprovement};
use crate::misc::{contains_usize, copy_strings, copy_vec, Animal, Crop, HouseType};
use crate::pasture::{Pasture, PastureV};
use crate::playermat::{
    lemma_pastured_count_le_len, lemma_pastured_count_monotone, lemma_pastured_count_same,
    pastured_count, PlayerMat,
};
use crate::rng::{RandomSource, SeededRng};

verus! {

/// Addition on machine words capped at the largest representable value.
pub open spec fn sat_addu(a: usize, b: usize) -> usize {
    if a + b <= usize::MAX {
        (a + b) as usize
    } else {
        usize::MAX
    }
}

/// Addition capped at the largest representable value.
pub open spec fn sat_add(a: usize, b: int) -> int {
    if a + b <= usize::MAX {
        a + b
    } else {
        usize::MAX as int
    }
}

/// The seed every fresh farm draws its placements from.
pub const FARM_SEED: u64 = 0x9e3779b97f4a7c15;

/// The mathematical image of a player.
pub ghost struct PlayerV {
    pub food: usize,
    pub fields: usize,
    pub grains: usize,
    pub vegetables: usize,
    pub wood: usize,
    pub clay: usize,
    pub reed: usize,
    pub stone: usize,
    pub sheep: usize,
    pub cattle: usize,
    pub boar: usize,
    pub actions: usize,
    pub total_actions: usize,
    pub actions_taken: Seq<String>,
    pub player_mat: Seq<FarmTileV>,
    pub house_type: HouseType,
    pub beggers: usize,
    pub children: usize,
    pub stables: usize,
    pub fences: usize,
    pub pastures: Seq<PastureV>,
    pub pet: Option<Animal>,
    pub improvements: Seq<MajorImprovement>,
    pub rng: SeededRng,
}

/// One farmer and everything on their farm.
#[derive(Debug)]
pub struct Player {
    pub food: usize,
    pub fields: usize,
    pub grains: usize,
    pub vegetables: usize,
    pub wood: usize,
    pub clay: usize,
    pub reed: usize,
    pub stone: usize,
    pub sheep: usize,
    pub cattle: usize,
    pub boar: usize,
    pub actions: usize,
    pub total_actions: usize,
    pub actions_taken: Vec<String>,
    pub player_mat: PlayerMat,
    pub house_type: HouseType,
    pub beggers: usize,
    pub children: usize,
    pub stables: usize,
    pub fences: usize,
    pub pastures: Vec<Pasture>,
    pub pet: Option<Animal>,
    pub improvements: Vec<MajorImprovement>,
    /// The farm's own deterministic source for its random placements, so
    /// that applying an action is a function of the position alone.
    pub rng: SeededRng,
}

impl View for Player {
    type V = PlayerV;

    open spec fn view(&self) -> PlayerV {
        PlayerV {
            food: self.food,
            fields: self.fields,
            grains: self.grains,
            vegetables: self.vegetables,
            wood: self.wood,
            clay: self.clay,
            reed: self.reed,
            stone: self.stone,
            sheep: self.sheep,
            cattle: self.cattle,
            boar: self.boar,
            actions: self.actions,
            total_actions: self.total_actions,
            actions_taken: self.actions_taken@,
            player_mat: self.player_mat@,
            house_type: self.house_type,
            beggers: self.beggers,
            children: self.children,
            stables: self.stables,
            fences: self.fences,
            pastures: self.pastures@.map_values(|p: Pasture| p@),
            pet: self.pet,
            improvements: self.improvements@,
            rng: self.rng,
        }
    }
}

impl Clone for Player {
    fn clone(&self) -> (r: Self)
        ensures
            r@ == self@,
    {
        let mut pastures: Vec<Pasture> = Vec::new();
        let mut k: usize = 0;
        while k < self.pastures.len()
            invariant
                k <= self.pastures@.len(),
                pastures@.len() == k,
                forall|m: int| 0 <= m < k ==> (#[trigger] pastures@[m])@ == self.pastures@[m]@,
            decreases self.pastures@.len() - k,
        {
            pastures.push(self.pastures[k].clone());
            k = k + 1;
        }
        let r = Player {
            food: self.food,
            fields: self.fields,
            grains: self.grains,
            vegetables: self.vegetables,
            wood: self.wood,
            clay: self.clay,
            reed: self.reed,
            stone: self.stone,
            sheep: self.sheep,
            cattle: self.cattle,
            boar: self.boar,
            actions: self.actions,
            total_actions: self.total_actions,
            actions_taken: copy_strings(&self.actions_taken),
            player_mat: self.player_mat.clone(),
            house_type: self.house_type,
            beggers: self.beggers,
            children: self.children,
            stables: self.stables,
            fences: self.fences,
            pastures,
            pet: self.pet,
            improvements: copy_vec(&self.improvements),
            rng: self.rng,
        };
        proof {
            assert(r@.pastures =~= self@.pastures);
            assert(r@ == self@);
        }
        r
    }
}

impl Player {
    /// A sound farm: the grid is usable, counters respect the board's
    /// physical limits, and there are never more pastures than pastured
    /// tiles.
    pub open spec fn wf(&self) -> bool {
        &&& self.player_mat.wf()
        &&& self.stables <= 4
        &&& self.fences <= 15
        &&& forall|j: int| 0 <= j < 15 ==> (match (#[trigger] self.player_mat@[j]).field {
            Some(f) => f.count <= 3,
            None => true,
        })
        &&& forall|m: int| 0 <= m < self.pastures@.len() ==> {
            &&& 1 <= (#[trigger] self.pastures@[m])@.tiles.len() <= 15
            &&& self.pastures@[m]@.stables <= 15
            &&& forall|t: int| 0 <= t < self.pastures@[m]@.tiles.len()
                ==> #[trigger] self.pastures@[m]@.tiles[t] < 15
        }
        &&& self.pastures@.len() <= pastured_count(self.player_mat@)
    }

    /// A fresh farmer with the given starting food: two family members,
    /// an empty farm with two wooden rooms, and nothing else.
    pub fn new(food: usize) -> (r: Player)
        ensures
            r.wf(),
            r.food == food,
            r.fields == 0 && r.grains == 0 && r.vegetables == 0,
            r.wood == 0 && r.clay == 0 && r.reed == 0 && r.stone == 0,
            r.sheep == 0 && r.boar == 0 && r.cattle == 0,
            r.actions == 2 && r.total_actions == 2,
            r.house_type == HouseType::Wood,
            r.beggers == 0 && r.children == 0 && r.stables == 0 && r.fences == 0,
            r.pastures@.len() == 0,
            r.pet is None,
            r.improvements@.len() == 0,
            r.actions_taken@.len() == 1,
            r.actions_taken@[0]@ == "Init"@,
            forall|i: int| 0 <= i < 15 ==> (#[trigger] r.player_mat@[i]).house
                == (if i == 5 || i == 10 { Some(HouseType::Wood) } else { None }),
            forall|i: int| 0 <= i < 15 ==> (#[trigger] r.player_mat@[i]).field is None
                && !r.player_mat@[i].pasture && !r.player_mat@[i].stable,
    {
        let mut actions_taken: Vec<String> = Vec::new();
        actions_taken.push("Init".to_owned());
        let r = Player {
            food,
            fields: 0,
            grains: 0,
            vegetables: 0,
            wood: 0,
            clay: 0,
            reed: 0,
            stone: 0,
            sheep: 0,
            boar: 0,
            cattle: 0,
            actions: 2,
            total_actions: 2,
            actions_taken,
            player_mat: PlayerMat::new(),
            house_type: HouseType::Wood,
            beggers: 0,
            children: 0,
            fences: 0,
            pastures: Vec::new(),
            stables: 0,
            pet: None,
            improvements: Vec::new(),
            rng: SeededRng::new(FARM_SEED),
        };
        proof {
            lemma_pastured_count_le_len(r.player_mat@);
        }
        r
    }

    /// The victory-point total of this farm, by the scoring card: fields,
    /// crops, animals, rooms, family, improvements, minus empty tiles and
    /// beggars.
    /// The victory-point total of this farm, by the scoring card: fields,
    /// crops, animals, rooms, family, improvements, minus empty tiles and
    /// beggars.
    pub fn score(&self) -> (r: i32)
        requires
            self.wf(),
            self.total_actions <= 21,
            self.beggers <= 1000,
        ensures
            -4000 <= r <= 4000,
    {
        let mut result: i64 = 0;
        result = result + bracket_fields(self.fields) as i64;
        proof {
            lemma_pastured_count_le_len(self.player_mat@);
            assert(self.pastures@.map_values(|p: Pasture| p@).len() == self.pastures@.len());
            assert(self.pastures@.len() <= 15);
        }
        result = result + self.pastures.len() as i64;
        let (grain_in_fields, veg_in_fields, empty_spaces, num_rooms) = self.farm_counts();
        result = result + bracket_grain(self.grains.saturating_add(grain_in_fields)) as i64;
        result = result + bracket_veg(self.vegetables.saturating_add(veg_in_fields)) as i64;
        result = result + bracket_grain(self.sheep) as i64;
        result = result + bracket_boar(self.boar) as i64;
        // The cattle bracket is tallied for the score sheet but never
        // added to the total: the game ships that way.
        let _cattle_bracket = bracket_cattle(self.cattle);
        result = result - empty_spaces as i64;
        result = result + (match self.house_type {
            HouseType::Wood => 0,
            HouseType::Clay => num_rooms as i64,
            HouseType::Stone => 2 * num_rooms as i64,
        });
        result = result - 3 * self.beggers as i64;
        result = result + self.fenced_stables_total() as i64;
        result = result + 3 * self.total_actions as i64;
        result = result + self.improvement_points() as i64;
        result as i32
    }

    /// Grain and vegetables still on the fields, empty tiles, and rooms.
    fn farm_counts(&self) -> (r: (usize, usize, usize, usize))
        requires
            self.wf(),
        ensures
            r.0 <= 45 && r.1 <= 45 && r.2 <= 15 && r.3 <= 15,
    {
        let mut grain_in_fields: usize = 0;
        let mut veg_in_fields: usize = 0;
        let mut empty_spaces: usize = 0;
        let mut num_rooms: usize = 0;
        let mut i: usize = 0;
        while i < 15
            invariant
                self.wf(),
                i <= 15,
                grain_in_fields <= 3 * i,
                veg_in_fields <= 3 * i,
                empty_spaces <= i,
                num_rooms <= i,
            decreases 15 - i,
        {
            match self.tile_field(i) {
                Some(f) => {
                    proof {
                        assert(self.player_mat@[i as int].field == Some(f));
                    }
                    if f.crop == Some(Crop::Grain) {
                        grain_in_fields = grain_in_fields + f.count;
                    }
                    if f.crop == Some(Crop::Vegetable) {
                        veg_in_fields = veg_in_fields + f.count;
                    }
                },
                None => {},
            }
            if self.player_mat.tiles[i].is_empty() {
                empty_spaces = empty_spaces + 1;
            }
            if self.player_mat.tiles[i].house.is_some() {
                num_rooms = num_rooms + 1;
            }
            i = i + 1;
        }
        (grain_in_fields, veg_in_fields, empty_spaces, num_rooms)
    }

    /// Stables standing inside fenced pastures.
    fn fenced_stables_total(&self) -> (r: usize)
        requires
            self.wf(),
        ensures
            r <= 225,
    {
        proof {
            lemma_pastured_count_le_len(self.player_mat@);
            assert(self.pastures@.map_values(|p: Pasture| p@).len() == self.pastures@.len());
            assert(self.pastures@.len() <= 15);
        }
        let mut total: usize = 0;
        let mut k: usize = 0;
        while k < self.pastures.len()
            invariant
                self.wf(),
                k <= self.pastures@.len(),
                self.pastures@.len() <= 15,
                total <= 15 * k,
            decreases self.pastures@.len() - k,
        {
            proof {
                assert(self.pastures@[k as int]@.stables <= 15);
            }
            total = total + self.pastures[k].stables;
            k = k + 1;
        }
        total
    }

    /// Points from the improvement cards on hand, including their
    /// stored-goods bonuses.
    #[verifier::rlimit(60)]
    fn improvement_points(&self) -> (r: i64)
        ensures
            0 <= r <= 40,
    {
        let mut pts: i64 = 0;
        if has_improvement(&self.improvements, MajorImprovement::Fireplace_2) {
            pts = pts + 1;
        }
        if has_improvement(&self.improvements, MajorImprovement::Fireplace_3) {
            pts = pts + 1;
        }
        if has_improvement(&self.improvements, MajorImprovement::CookingHearth_4) {
            pts = pts + 1;
        }
        if has_improvement(&self.improvements, MajorImprovement::CookingHearth_5) {
            pts = pts + 1;
        }
        if has_improvement(&self.improvements, MajorImprovement::ClayOven) {
            pts = pts + 2;
        }
        if has_improvement(&self.improvements, MajorImprovement::StoneOven) {
            pts = pts + 3;
        }
        if has_improvement(&self.improvements, MajorImprovement::Pottery) {
            pts = pts + 2 + bonus_stored(self.clay) as i64;
        }
        if has_improvement(&self.improvements, MajorImprovement::Joinery) {
            pts = pts + 2 + bonus_stored(self.wood) as i64;
        }
        if has_improvement(&self.improvements, MajorImprovement::BasketmakersWorkshop) {
            pts = pts + 2 + bonus_reed(self.reed) as i64;
        }
        if has_improvement(&self.improvements, MajorImprovement::Well) {
            pts = pts + 4;
        }
        pts
    }

    /// The victory-point total, for callers that cannot establish the
    /// farm's invariants beforehand: every bound is checked at run time,
    /// and a farm outside them scores `None`.
    pub fn try_score(&self) -> (r: Option<i32>)
        ensures
            (match r {
                Some(v) => -4000 <= v <= 4000,
                None => true,
            }),
    {
        if self.player_mat.tiles.len() != 15 {
            return None;
        }
        if self.stables > 4 || self.fences > 15 || self.total_actions > 21
            || self.beggers > 1000 {
            return None;
        }
        let mut i: usize = 0;
        let mut pastured: usize = 0;
        while i < 15
            invariant
                self.player_mat@.len() == 15,
                i <= 15,
                forall|m: int| 0 <= m < i ==> (#[trigger] self.player_mat@[m]).index == m,
                forall|m: int, j: int| 0 <= m < i
                    && 0 <= j < self.player_mat@[m].surrounding_tiles.len()
                    ==> #[trigger] self.player_mat@[m].surrounding_tiles[j] < 15,
                forall|m: int| 0 <= m < i ==> (match (#[trigger] self.player_mat@[m]).field {
                    Some(f) => f.count <= 3,
                    None => true,
                }),
                pastured == crate::playermat::pastured_count(self.player_mat@.take(i as int)),
                pastured <= i,
            decreases 15 - i,
        {
            proof {
                assert(self.player_mat@[i as int] == self.player_mat.tiles@[i as int]@);
            }
            if self.player_mat.tiles[i].index != i {
                return None;
            }
            let mut j: usize = 0;
            let n = self.player_mat.tiles[i].surrounding_tiles.len();
            while j < n
                invariant
                    self.player_mat@.len() == 15,
                    self.player_mat.tiles@.len() == 15,
                    i < 15,
                    self.player_mat@[i as int] == self.player_mat.tiles@[i as int]@,
                    n == self.player_mat@[i as int].surrounding_tiles.len(),
                    j <= n,
                    forall|m: int| 0 <= m < j
                        ==> #[trigger] self.player_mat@[i as int].surrounding_tiles[m] < 15,
                decreases n - j,
            {
                if self.player_mat.tiles[i].surrounding_tiles[j] >= 15 {
                    return None;
                }
                j = j + 1;
            }
            match self.player_mat.tiles[i].field {
                Some(f) => {
                    if f.count > 3 {
                        return None;
                    }
                },
                None => {},
            }
            if self.player_mat.tiles[i].pasture {
                pastured = pastured + 1;
            }
            proof {
                assert(self.player_mat@.take(i + 1).drop_last()
                    =~= self.player_mat@.take(i as int));
                assert(self.player_mat@.take(i + 1).last() == self.player_mat@[i as int]);
            }
            i = i + 1;
        }
        let mut p: usize = 0;
        while p < self.pastures.len()
            invariant
                p <= self.pastures@.len(),
                forall|m: int| 0 <= m < p ==> {
                    &&& 1 <= (#[trigger] self.pastures@[m])@.tiles.len() <= 15
                    &&& self.pastures@[m]@.stables <= 15
                    &&& forall|t: int| 0 <= t < self.pastures@[m]@.tiles.len()
                        ==> #[trigger] self.pastures@[m]@.tiles[t] < 15
                },
            decreases self.pastures@.len() - p,
        {
            if self.pastures[p].tiles.len() == 0 || self.pastures[p].tiles.len() > 15
                || self.pastures[p].stables > 15 {
                return None;
            }
            let mut t: usize = 0;
            let tn = self.pastures[p].tiles.len();
            while t < tn
                invariant
                    p < self.pastures@.len(),
                    tn == self.pastures@[p as int].tiles@.len(),
                    t <= tn,
                    forall|m: int| 0 <= m < t
                        ==> #[trigger] self.pastures@[p as int].tiles@[m] < 15,
                decreases tn - t,
            {
                if self.pastures[p].tiles[t] >= 15 {
                    return None;
                }
                t = t + 1;
            }
            p = p + 1;
        }
        if self.pastures.len() > pastured {
            return None;
        }
        proof {
            assert(self.player_mat@.take(15) =~= self.player_mat@);
            assert(self.wf());
        }
        Some(self.score())
    }

    /// The field on tile `i`, if any.
    fn tile_field(&self, i: usize) -> (r: Option<crate::fieldtile::FieldTile>)
        requires
            self.wf(),
            i < 15,
        ensures
            (match r {
                Some(f) => self.player_mat@[i as int].field == Some(f),
                None => self.player_mat@[i as int].field is None,
            }),
    {
        self.player_mat.tiles[i].field
    }

    /// Plows one tile: a random empty unfenced tile for the first field,
    /// afterwards a random empty tile adjacent to an existing field.
    pub fn plow(&mut self)
        requires
            old(self).wf(),
        ensures
            final(self).wf(),
            scalars_but_fields_same(*old(self), *final(self)),
    {
        let ghost m0 = self.player_mat@;
        let mut unfenced_empties: Vec<usize> = Vec::new();
        let mut empties: Vec<usize> = Vec::new();
        let mut k: usize = 0;
        while k < 15
            invariant
                self.wf(),
                k <= 15,
                forall|m: int| 0 <= m < empties@.len() ==> #[trigger] empties@[m] < 15,
                unfenced_empties@.len() <= empties@.len(),
            decreases 15 - k,
        {
            let t = &self.player_mat.tiles[k];
            if t.is_empty() {
                empties.push(k);
                if !t.north_fence && !t.south_fence && !t.west_fence && !t.east_fence {
                    unfenced_empties.push(k);
                }
            }
            k = k + 1;
        }
        if unfenced_empties.len() == 0 {
            return;
        }
        if self.fields == 0 {
            let pick = empties[self.rng.next_below(empties.len())];
            self.player_mat.plow_tile(pick);
            proof {
                lemma_pastured_count_same(m0, self.player_mat@);
            }
        } else {
            let mut farm_rng = self.rng;
            self.player_mat.plow_random_field(&mut farm_rng);
            self.rng = farm_rng;
            proof {
                lemma_pastured_count_same(m0, self.player_mat@);
            }
        }
        self.fields = self.fields.saturating_add(1);
    }

    /// Whether the room price (two reed, five of the house material) is on
    /// hand.
    pub fn can_build_room(&self) -> (r: bool)
        ensures
            r == (self.reed >= 2 && (match self.house_type {
                HouseType::Wood => self.wood >= 5,
                HouseType::Clay => self.clay >= 5,
                HouseType::Stone => self.stone >= 5,
            })),
    {
        if self.reed < 2 {
            return false;
        }
        match self.house_type {
            HouseType::Wood => {
                if self.wood < 5 {
                    return false;
                }
            },
            HouseType::Clay => {
                if self.clay < 5 {
                    return false;
                }
            },
            HouseType::Stone => {
                if self.stone < 5 {
                    return false;
                }
            },
        }
        true
    }

    /// Pays the five building-material cost of one room.
    pub fn pay_for_room(&mut self)
        requires
            (match old(self).house_type {
                HouseType::Wood => old(self).wood >= 5,
                HouseType::Clay => old(self).clay >= 5,
                HouseType::Stone => old(self).stone >= 5,
            }),
        ensures
            *final(self) == (match old(self).house_type {
                HouseType::Wood => (Player { wood: (old(self).wood - 5) as usize, ..*old(self) }),
                HouseType::Clay => (Player { clay: (old(self).clay - 5) as usize, ..*old(self) }),
                HouseType::Stone => (Player { stone: (old(self).stone - 5) as usize, ..*old(self) }),
            }),
    {
        match self.house_type {
            HouseType::Wood => {
                self.wood = self.wood - 5;
            },
            HouseType::Clay => {
                self.clay = self.clay - 5;
            },
            HouseType::Stone => {
                self.stone = self.stone - 5;
            },
        }
    }

    /// Builds one room on a random empty unfenced tile adjacent to an
    /// existing room, paying its cost; does nothing if the price is not on
    /// hand or no such tile exists.
    pub fn build_room(&mut self)
        requires
            old(self).wf(),
        ensures
            final(self).wf(),
            scalars_but_resources_same(*old(self), *final(self)),
    {
        if !self.can_build_room() {
            return;
        }
        let ghost m0 = self.player_mat@;
        let mut possible_rooms: Vec<usize> = Vec::new();
        let mut k: usize = 0;
        while k < 15
            invariant
                self.wf(),
                k <= 15,
                forall|m: int| 0 <= m < possible_rooms@.len() ==> #[trigger] possible_rooms@[m] < 15,
            decreases 15 - k,
        {
            if self.player_mat.tiles[k].house.is_some() {
                let n = self.player_mat.tiles[k].surrounding_tiles.len();
                let mut j: usize = 0;
                while j < n
                    invariant
                        self.wf(),
                        k < 15,
                        n == self.player_mat@[k as int].surrounding_tiles.len(),
                        j <= n,
                        forall|m: int| 0 <= m < possible_rooms@.len()
                            ==> #[trigger] possible_rooms@[m] < 15,
                    decreases n - j,
                {
                    let cand = self.player_mat.tiles[k].surrounding_tiles[j];
                    proof {
                        assert(self.player_mat@[k as int].surrounding_tiles[j as int] < 15);
                    }
                    let c = &self.player_mat.tiles[cand];
                    if c.house.is_none() && c.field.is_none() && !c.pasture && !c.stable
                        && !c.north_fence && !c.south_fence && !c.west_fence && !c.east_fence {
                        possible_rooms.push(cand);
                    }
                    j = j + 1;
                }
            }
            k = k + 1;
        }
        if possible_rooms.len() == 0 {
            return;
        }
        let pick = possible_rooms[self.rng.next_below(possible_rooms.len())];
        let house = self.house_type;
        self.player_mat.build_room_tile(pick, house);
        proof {
            lemma_pastured_count_same(m0, self.player_mat@);
        }
        self.pay_for_room();
    }

    /// Builds up to a random number of stables at two wood each, on random
    /// empty tiles.
    pub fn build_stables(&mut self)
        requires
            old(self).wf(),
        ensures
            final(self).wf(),
            scalars_but_stables_same(*old(self), *final(self)),
    {
        let available_stables = 4 - self.stables;
        let max_stables = if available_stables < self.wood / 2 {
            available_stables
        } else {
            self.wood / 2
        };
        if max_stables == 0 {
            return;
        }
        let num_stables = self.rng.next_below(max_stables) + 1;
        let mut done: usize = 0;
        while done < num_stables
            invariant
                self.wf(),
                done <= num_stables,
                num_stables <= 4,
                self.stables + (num_stables - done) <= 4,
                self.wood >= 2 * (num_stables - done),
                scalars_but_stables_same(*old(self), *self),
            decreases num_stables - done,
        {
            let ghost m0 = self.player_mat@;
            let mut possibles: Vec<usize> = Vec::new();
            let mut k: usize = 0;
            while k < 15
                invariant
                    self.wf(),
                    k <= 15,
                    forall|m: int| 0 <= m < possibles@.len() ==> #[trigger] possibles@[m] < 15,
                decreases 15 - k,
            {
                if self.player_mat.tiles[k].is_empty() {
                    possibles.push(k);
                }
                k = k + 1;
            }
            if possibles.len() == 0 {
                return;
            }
            let pick = possibles[self.rng.next_below(possibles.len())];
            self.player_mat.stable_tile(pick);
            proof {
                lemma_pastured_count_same(m0, self.player_mat@);
            }
            self.wood = self.wood - 2;
            self.stables = self.stables + 1;
            done = done + 1;
        }
    }

    /// Builds one stable at one wood, on a random empty tile.
    pub fn build_stable(&mut self)
        requires
            old(self).wf(),
        ensures
            final(self).wf(),
            scalars_but_stables_same(*old(self), *final(self)),
    {
        if self.wood == 0 || self.stables == 4 {
            return;
        }
        let ghost m0 = self.player_mat@;
        let mut possibles: Vec<usize> = Vec::new();
        let mut k: usize = 0;
        while k < 15
            invariant
                self.wf(),
                k <= 15,
                forall|m: int| 0 <= m < possibles@.len() ==> #[trigger] possibles@[m] < 15,
            decreases 15 - k,
        {
            if self.player_mat.tiles[k].is_empty() {
                possibles.push(k);
            }
            k = k + 1;
        }
        if possibles.len() == 0 {
            return;
        }
        let pick = possibles[self.rng.next_below(possibles.len())];
        self.player_mat.stable_tile(pick);
        proof {
            lemma_pastured_count_same(m0, self.player_mat@);
        }
        self.wood = self.wood - 1;
        self.stables = self.stables + 1;
    }

    /// Sows the empty fields: vegetables first while they last, then
    /// grain.
    pub fn sow(&mut self)
        requires
            old(self).wf(),
        ensures
            final(self).wf(),
            final(self).vegetables <= old(self).vegetables,
            final(self).grains <= old(self).grains,
            scalars_but_crops_same(*old(self), *final(self)),
    {
        let mut empty_fields: Vec<usize> = Vec::new();
        let mut k: usize = 0;
        while k < 15
            invariant
                self.wf(),
                k <= 15,
                forall|m: int| 0 <= m < empty_fields@.len() ==> #[trigger] empty_fields@[m] < 15,
            decreases 15 - k,
        {
            match self.tile_field(k) {
                Some(f) => {
                    if f.count == 0 {
                        empty_fields.push(k);
                    }
                },
                None => {},
            }
            k = k + 1;
        }
        while empty_fields.len() > 0 && self.vegetables > 0
            invariant
                self.wf(),
                forall|m: int| 0 <= m < empty_fields@.len() ==> #[trigger] empty_fields@[m] < 15,
                self.vegetables <= old(self).vegetables,
                self.grains <= old(self).grains,
                scalars_but_crops_same(*old(self), *self),
            decreases empty_fields@.len(),
        {
            let idx = empty_fields[empty_fields.len() - 1];
            empty_fields.pop();
            self.sow_veg(idx);
            self.vegetables = self.vegetables - 1;
        }
        while empty_fields.len() > 0 && self.grains > 0
            invariant
                self.wf(),
                forall|m: int| 0 <= m < empty_fields@.len() ==> #[trigger] empty_fields@[m] < 15,
                self.vegetables <= old(self).vegetables,
                self.grains <= old(self).grains,
                scalars_but_crops_same(*old(self), *self),
            decreases empty_fields@.len(),
        {
            let idx = empty_fields[empty_fields.len() - 1];
            empty_fields.pop();
            self.sow_grain(idx);
            self.grains = self.grains - 1;
        }
    }

    /// Sows two vegetables on tile `index`, if it holds a field.
    pub fn sow_veg(&mut self, index: usize)
        requires
            old(self).wf(),
            index < 15,
        ensures
            final(self).wf(),
            final(self).player_mat@.len() == 15,
            same_player_but_mat(*old(self), *final(self)),
    {
        let ghost m0 = self.player_mat@;
        self.player_mat.sow_veg_tile(index);
        proof {
            lemma_pastured_count_same(m0, self.player_mat@);
        }
    }

    /// Sows three grain on tile `index`, if it holds a field.
    pub fn sow_grain(&mut self, index: usize)
        requires
            old(self).wf(),
            index < 15,
        ensures
            final(self).wf(),
            final(self).player_mat@.len() == 15,
            same_player_but_mat(*old(self), *final(self)),
    {
        let ghost m0 = self.player_mat@;
        self.player_mat.sow_grain_tile(index);
        proof {
            lemma_pastured_count_same(m0, self.player_mat@);
        }
    }

    /// Renovates the whole house one material step.
    pub fn upgrade_house(&mut self)
        requires
            old(self).wf(),
        ensures
            final(self).wf(),
            same_player_but_mat_house(*old(self), *final(self)),
            final(self).house_type == (match old(self).house_type {
                HouseType::Wood => HouseType::Clay,
                HouseType::Clay => HouseType::Stone,
                HouseType::Stone => HouseType::Stone,
            }),
            forall|j: int| 0 <= j < 15 ==> {
                &&& (#[trigger] final(self).player_mat@[j]).house
                    == (match old(self).player_mat@[j].house {
                    Some(HouseType::Wood) => Some(HouseType::Clay),
                    Some(HouseType::Clay) => Some(HouseType::Stone),
                    h => h,
                })
                &&& final(self).player_mat@[j] == (FarmTileV {
                    house: final(self).player_mat@[j].house,
                    ..old(self).player_mat@[j]
                })
            },
    {
        let ghost m0 = self.player_mat@;
        self.player_mat.upgrade_rooms();
        proof {
            lemma_pastured_count_same(m0, self.player_mat@);
        }
        match self.house_type {
            HouseType::Wood => self.house_type = HouseType::Clay,
            HouseType::Clay => self.house_type = HouseType::Stone,
            HouseType::Stone => {},
        }
    }

    /// Tries up to twenty times to grow a random connected group of
    /// fenceable tiles and fence it into a pasture, spending wood for the
    /// missing fences. Returns how many fences were built.
    pub fn make_pastures(&mut self) -> (r: usize)
        requires
            old(self).wf(),
        ensures
            final(self).wf(),
            r <= 300,
            r <= old(self).wood,
            final(self).wood == old(self).wood - r,
            final(self).fences == old(self).fences + r,
            scalars_but_pastures_same(*old(self), *final(self)),
    {
        let mut fences_built: usize = 0;
        let mut round: usize = 0;
        while round < 20
            invariant
                self.wf(),
                round <= 20,
                fences_built <= 15 * round,
                fences_built <= old(self).wood,
                self.wood == old(self).wood - fences_built,
                self.fences == old(self).fences + fences_built,
                scalars_but_pastures_same(*old(self), *self),
            decreases 20 - round,
        {
            let mut curr_pasture: Vec<usize> = Vec::new();
            let mut fenceable: Vec<usize> = Vec::new();
            let mut k: usize = 0;
            while k < 15
                invariant
                    self.wf(),
                    k <= 15,
                    forall|m: int| 0 <= m < fenceable@.len() ==> {
                        &&& #[trigger] fenceable@[m] < 15
                        &&& self.player_mat@[fenceable@[m] as int].house is None
                        &&& self.player_mat@[fenceable@[m] as int].field is None
                        &&& !self.player_mat@[fenceable@[m] as int].pasture
                    },
                decreases 15 - k,
            {
                if self.player_mat.tiles[k].can_be_fenced() {
                    fenceable.push(k);
                }
                k = k + 1;
            }
            if fenceable.len() > 0 {
                let mut curr_space = fenceable[self.rng.next_below(fenceable.len())];
                curr_pasture.push(curr_space);
                let mut grow: usize = 0;
                while grow < 30
                    invariant
                        self.wf(),
                        scalars_but_pastures_same(*old(self), *self),
                        self.wood == old(self).wood - fences_built,
                        self.fences == old(self).fences + fences_built,
                        fences_built <= old(self).wood,
                        curr_space < 15,
                        1 <= curr_pasture@.len() <= 15,
                        forall|m: int| 0 <= m < curr_pasture@.len() ==> {
                            &&& #[trigger] curr_pasture@[m] < 15
                            &&& self.player_mat@[curr_pasture@[m] as int].house is None
                            &&& self.player_mat@[curr_pasture@[m] as int].field is None
                            &&& !self.player_mat@[curr_pasture@[m] as int].pasture
                        },
                    decreases 30 - grow,
                {
                    if self.rng.next_below(100) < 20 {
                        break;
                    }
                    let mut neighbours: Vec<usize> = Vec::new();
                    let n = self.player_mat.tiles[curr_space].surrounding_tiles.len();
                    let mut j: usize = 0;
                    while j < n
                        invariant
                            self.wf(),
                            curr_space < 15,
                            n == self.player_mat@[curr_space as int].surrounding_tiles.len(),
                            j <= n,
                            forall|m: int| 0 <= m < neighbours@.len() ==> {
                                &&& #[trigger] neighbours@[m] < 15
                                &&& self.player_mat@[neighbours@[m] as int].house is None
                                &&& self.player_mat@[neighbours@[m] as int].field is None
                                &&& !self.player_mat@[neighbours@[m] as int].pasture
                            },
                        decreases n - j,
                    {
                        let cand = self.player_mat.tiles[curr_space].surrounding_tiles[j];
                        proof {
                            assert(self.player_mat@[curr_space as int].surrounding_tiles[j as int]
                                < 15);
                        }
                        if self.player_mat.tiles[cand].can_be_fenced() {
                            neighbours.push(cand);
                        }
                        j = j + 1;
                    }
                    if neighbours.len() == 0 {
                        break;
                    }
                    let next = neighbours[self.rng.next_below(neighbours.len())];
                    if !contains_usize(&curr_pasture, next) {
                        if curr_pasture.len() >= 15 {
                            break;
                        }
                        curr_pasture.push(next);
                    }
                    curr_space = next;
                    grow = grow + 1;
                }
            }
            let max_fences = if 15 - self.fences < self.wood {
                15 - self.fences
            } else {
                self.wood
            };
            if curr_pasture.len() > 0 {
                let ghost m0 = self.player_mat@;
                let pasture_tiles = copy_vec(&curr_pasture);
                match self.player_mat.make_pasture(curr_pasture, max_fences) {
                    Some(wood_used) => {
                        let ghost keep = pasture_tiles@;
                        proof {
                            assert(crate::playermat::pasture_step(m0, self.player_mat@, keep));
                            assert(keep.contains(keep[0]));
                            assert(!m0[keep[0] as int].pasture);
                            assert(self.player_mat@[keep[0] as int].pasture);
                            assert forall|j: int| 0 <= j < 15 && (#[trigger] m0[j]).pasture
                                implies self.player_mat@[j].pasture by {
                                if keep.contains(j as usize) {
                                } else {
                                }
                            }
                            lemma_pastured_count_monotone(m0, self.player_mat@, keep[0] as int);
                        }
                        let mut stables_count: usize = 0;
                        let mut t: usize = 0;
                        while t < pasture_tiles.len()
                            invariant
                                self.wf(),
                                t <= pasture_tiles@.len(),
                                pasture_tiles@.len() <= 15,
                                stables_count <= t,
                                forall|m: int| 0 <= m < pasture_tiles@.len()
                                    ==> #[trigger] pasture_tiles@[m] < 15,
                            decreases pasture_tiles@.len() - t,
                        {
                            if self.player_mat.tiles[pasture_tiles[t]].stable {
                                stables_count = stables_count + 1;
                            }
                            t = t + 1;
                        }
                        self.wood = self.wood - wood_used;
                        self.fences = self.fences + wood_used;
                        self.pastures.push(Pasture::new(pasture_tiles, stables_count));
                        fences_built = fences_built + wood_used;
                        proof {
                            assert(self.pastures@.len()
                                <= pastured_count(self.player_mat@));
                        }
                    },
                    None => {},
                }
            }
            round = round + 1;
        }
        fences_built
    }

    /// Clears all animals from pastures, lone stables and the pet slot.
    fn animal_reset(&mut self)
        requires
            old(self).wf(),
        ensures
            final(self).wf(),
            scalars_but_pet_same(*old(self), *final(self)),
            animals_only_step(old(self).player_mat@, final(self).player_mat@),
    {
        self.pet = None;
        let mut p: usize = 0;
        proof {
            assert(self.pastures@.map_values(|q: Pasture| q@).len() == self.pastures@.len());
        }
        while p < self.pastures.len()
            invariant
                self.wf(),
                p <= self.pastures@.len(),
                self.pastures@.len() == old(self).pastures@.len(),
                scalars_but_pet_same(*old(self), *self),
                animals_only_step(old(self).player_mat@, self.player_mat@),
            decreases self.pastures@.len() - p,
        {
            let n = self.pastures[p].tiles.len();
            let mut t: usize = 0;
            while t < n
                invariant
                    self.wf(),
                    p < self.pastures@.len(),
                    self.pastures@.len() == old(self).pastures@.len(),
                    n == self.pastures@[p as int]@.tiles.len(),
                    t <= n,
                    scalars_but_pet_same(*old(self), *self),
                    animals_only_step(old(self).player_mat@, self.player_mat@),
                decreases n - t,
            {
                let idx = self.pastures[p].tiles[t];
                proof {
                    assert(self.pastures@[p as int]@.tiles[t as int] < 15);
                }
                let ghost m0 = self.player_mat@;
                self.player_mat.set_animals_tile(idx, None, 0);
                proof {
                    lemma_pastured_count_same(m0, self.player_mat@);
                }
                t = t + 1;
            }
            p = p + 1;
        }
        let mut k: usize = 0;
        while k < 15
            invariant
                self.wf(),
                k <= 15,
                scalars_but_pet_same(*old(self), *self),
                animals_only_step(old(self).player_mat@, self.player_mat@),
            decreases 15 - k,
        {
            let t = &self.player_mat.tiles[k];
            if t.stable && !t.pasture && t.animal_type.is_none() {
            } else if t.stable && !t.pasture {
                let c = t.animal_count;
                let ghost m0 = self.player_mat@;
                self.player_mat.set_animals_tile(k, None, c);
                proof {
                    lemma_pastured_count_same(m0, self.player_mat@);
                }
            }
            k = k + 1;
        }
        let ghost m0 = self.player_mat@;
        self.player_mat.set_animals_tile(10, None, 0);
        proof {
            lemma_pastured_count_same(m0, self.player_mat@);
        }
    }

    /// Fills one pasture's tiles with `remaining` animals of one kind, a
    /// capacity's worth at a time; returns how many were placed and how
    /// many are left over.
    fn fill_pasture(
        &mut self,
        tiles: &Vec<usize>,
        cap: usize,
        anim: Animal,
        remaining: usize,
    ) -> (r: (usize, usize))
        requires
            old(self).wf(),
            forall|m: int| 0 <= m < tiles@.len() ==> #[trigger] tiles@[m] < 15,
        ensures
            final(self).wf(),
            same_player_but_mat(*old(self), *final(self)),
            animals_only_step(old(self).player_mat@, final(self).player_mat@),
            r.0 + r.1 == remaining,
    {
        let mut placed: usize = 0;
        let mut left: usize = remaining;
        let mut t: usize = 0;
        while t < tiles.len()
            invariant
                self.wf(),
                t <= tiles@.len(),
                forall|m: int| 0 <= m < tiles@.len() ==> #[trigger] tiles@[m] < 15,
                placed + left == remaining,
                same_player_but_mat(*old(self), *self),
                animals_only_step(old(self).player_mat@, self.player_mat@),
            decreases tiles@.len() - t,
        {
            let idx = tiles[t];
            if anim == Animal::Sheep && self.player_mat.tiles[idx].animal_count > 0 {
                t = t + 1;
                continue;
            }
            let ghost m0 = self.player_mat@;
            if left >= cap {
                self.player_mat.set_animals_tile(idx, Some(anim), cap);
                left = left - cap;
                placed = placed + cap;
            } else {
                self.player_mat.set_animals_tile(idx, Some(anim), left);
                placed = placed + left;
                left = 0;
            }
            proof {
                lemma_pastured_count_same(m0, self.player_mat@);
            }
            t = t + 1;
        }
        (placed, left)
    }

    /// Adds animals of the given kind to the ones on hand.
    fn add_to_herd(&mut self, anim: Animal, n: usize)
        ensures
            *final(self) == (match anim {
                Animal::Sheep => (Player { sheep: old(self).sheep.saturating_add(n) as usize, ..*old(self) }),
                Animal::Boar => (Player { boar: old(self).boar.saturating_add(n) as usize, ..*old(self) }),
                Animal::Cattle => (Player { cattle: old(self).cattle.saturating_add(n) as usize, ..*old(self) }),
            }),
    {
        match anim {
            Animal::Sheep => {
                self.sheep = self.sheep.saturating_add(n);
            },
            Animal::Boar => {
                self.boar = self.boar.saturating_add(n);
            },
            Animal::Cattle => {
                self.cattle = self.cattle.saturating_add(n);
            },
        }
    }

    /// Tries twenty random placements of the animals on hand into the
    /// pastures, the lone stables and the pet slot, keeping the placement
    /// with the best score; unplaceable animals may be cooked for food
    /// where a fireplace or cooking hearth allows it.
    pub fn place_animals(&mut self)
        requires
            old(self).wf(),
            old(self).total_actions <= 21,
            old(self).beggers <= 1000,
        ensures
            final(self).wf(),
            final(self).total_actions == old(self).total_actions,
            final(self).beggers == old(self).beggers,
            final(self).actions == old(self).actions,
            scalars_but_animals_same(*old(self), *final(self)),
            final(self).pet == old(self).pet,
            final(self).sheep <= old(self).sheep,
            final(self).boar <= old(self).boar,
            final(self).cattle <= old(self).cattle,
    {
        let mut best_state = self.clone();
        proof {
            lemma_wf_from_view(*self, best_state);
            assert(best_state.player_mat@ == self.player_mat@);
            assert(animals_only_step(self.player_mat@, best_state.player_mat@));
        }
        let mut best_score: i32 = -999;
        let mut round: usize = 0;
        while round < 20
            invariant
                self.wf(),
                self.total_actions <= 21,
                self.beggers <= 1000,
                scalars_but_animals_same(*old(self), *self),
                self.pet == old(self).pet,
                self.sheep == old(self).sheep,
                self.boar == old(self).boar,
                self.cattle == old(self).cattle,
                self.player_mat@ == old(self).player_mat@,
                best_state.wf(),
                best_state.total_actions == self.total_actions,
                best_state.beggers == self.beggers,
                best_state.actions == self.actions,
                best_state.sheep <= self.sheep,
                best_state.boar <= self.boar,
                best_state.cattle <= self.cattle,
                scalars_but_animals_same(*self, best_state),
                animals_only_step(self.player_mat@, best_state.player_mat@),
                round <= 20,
            decreases 20 - round,
        {
            let salt = self.rng.next_below(0x4000_0000);
            let mut temp = self.clone();
            proof {
                lemma_wf_from_view(*self, temp);
            }
            temp.rng = SeededRng::new(salt as u64);
            let ghost temp_mat0 = temp.player_mat@;
            proof {
                assert(temp_mat0 == self.player_mat@);
            }
            temp.animal_reset();
            let mut animals: Vec<Animal> = Vec::new();
            if temp.sheep > 0 {
                animals.push(Animal::Sheep);
            }
            if temp.boar > 0 {
                animals.push(Animal::Boar);
            }
            if temp.cattle > 0 {
                animals.push(Animal::Cattle);
            }
            let mut sheep_count = temp.sheep;
            let mut boar_count = temp.boar;
            let mut cattle_count = temp.cattle;
            temp.sheep = 0;
            temp.boar = 0;
            temp.cattle = 0;
            proof {
                assert(animals_only_step(self.player_mat@, temp.player_mat@));
                assert(temp.sheep + sheep_count == self.sheep);
                assert(temp.boar + boar_count == self.boar);
                assert(temp.cattle + cattle_count == self.cattle);
            }
            // One pass over a random free pasture for a random herd.
            if animals.len() > 0 {
                let mut avail: Vec<usize> = Vec::new();
                let mut p: usize = 0;
                while p < temp.pastures.len()
                    invariant
                        temp.wf(),
                        p <= temp.pastures@.len(),
                        forall|m: int| 0 <= m < avail@.len()
                            ==> #[trigger] avail@[m] < temp.pastures@.len(),
                    decreases temp.pastures@.len() - p,
                {
                    let first_tile = temp.pastures[p].tiles[0];
                    proof {
                        assert(temp.pastures@[p as int]@.tiles[0] < 15);
                    }
                    if temp.player_mat.tiles[first_tile].animal_type.is_none() {
                        avail.push(p);
                    }
                    p = p + 1;
                }
                if avail.len() > 0 {
                    let pi = avail[temp.rng.next_below(avail.len())];
                    let anim = animals[temp.rng.next_below(animals.len())];
                    let ptiles = copy_vec(&temp.pastures[pi].tiles);
                    let cap = temp.pastures[pi].capacity;
                    let remaining = match anim {
                        Animal::Sheep => sheep_count,
                        Animal::Boar => boar_count,
                        Animal::Cattle => cattle_count,
                    };
                    proof {
                        assert(forall|m: int| 0 <= m < ptiles@.len()
                            ==> #[trigger] ptiles@[m] < 15);
                    }
                    let (placed, left) = temp.fill_pasture(&ptiles, cap, anim, remaining);
                    temp.add_to_herd(anim, placed);
                    match anim {
                        Animal::Sheep => {
                            sheep_count = left;
                        },
                        Animal::Boar => {
                            boar_count = left;
                        },
                        Animal::Cattle => {
                            cattle_count = left;
                        },
                    }
                    proof {
                        assert(temp.sheep + sheep_count == self.sheep);
                        assert(temp.boar + boar_count == self.boar);
                        assert(temp.cattle + cattle_count == self.cattle);
                    }
                    if left == 0 {
                        let mut w: usize = 0;
                        let mut found: Option<usize> = None;
                        while w < animals.len()
                            invariant
                                w <= animals@.len(),
                                (match found {
                                    Some(f) => f < animals@.len(),
                                    None => true,
                                }),
                            decreases animals@.len() - w,
                        {
                            if animals[w] == anim && found.is_none() {
                                found = Some(w);
                            }
                            w = w + 1;
                        }
                        if let Some(wi) = found {
                            animals.remove(wi);
                        }
                    }
                }
            }
            // Lone stables take one animal each.
            let mut k: usize = 0;
            while k < 15
                invariant
                    temp.wf(),
                    k <= 15,
                    animals_only_step(self.player_mat@, temp.player_mat@),
                    scalars_but_animals_same(*self, temp),
                    temp.total_actions == self.total_actions,
                    temp.beggers == self.beggers,
                    temp.actions == self.actions,
                    temp.sheep + sheep_count == self.sheep,
                    temp.boar + boar_count == self.boar,
                    temp.cattle + cattle_count == self.cattle,
                decreases 15 - k,
            {
                let tl = &self_tile(&temp, k);
                let lone = tl.0 && !tl.1 && tl.2;
                if lone && animals.len() > 0 {
                    let anim = animals[temp.rng.next_below(animals.len())];
                    let have = match anim {
                        Animal::Sheep => sheep_count,
                        Animal::Boar => boar_count,
                        Animal::Cattle => cattle_count,
                    };
                    if have >= 1 {
                        let ghost m0 = temp.player_mat@;
                        temp.player_mat.set_animals_tile(k, Some(anim), 1);
                        proof {
                            lemma_pastured_count_same(m0, temp.player_mat@);
                        }
                        temp.add_to_herd(anim, 1);
                        match anim {
                            Animal::Sheep => {
                                sheep_count = sheep_count - 1;
                            },
                            Animal::Boar => {
                                boar_count = boar_count - 1;
                            },
                            Animal::Cattle => {
                                cattle_count = cattle_count - 1;
                            },
                        }
                        if have == 1 {
                            let mut w: usize = 0;
                            let mut found: Option<usize> = None;
                            while w < animals.len()
                                invariant
                                    w <= animals@.len(),
                                    (match found {
                                        Some(f) => f < animals@.len(),
                                        None => true,
                                    }),
                                decreases animals@.len() - w,
                            {
                                if animals[w] == anim && found.is_none() {
                                    found = Some(w);
                                }
                                w = w + 1;
                            }
                            if let Some(wi) = found {
                                animals.remove(wi);
                            }
                        }
                    }
                }
                k = k + 1;
            }
            // The house can keep one pet.
            if temp.pet.is_none() && animals.len() > 0 {
                let anim = animals[temp.rng.next_below(animals.len())];
                let have = match anim {
                    Animal::Sheep => sheep_count,
                    Animal::Boar => boar_count,
                    Animal::Cattle => cattle_count,
                };
                if have >= 1 {
                    let ghost m0 = temp.player_mat@;
                    temp.player_mat.set_animals_tile(10, Some(anim), 1);
                    proof {
                        lemma_pastured_count_same(m0, temp.player_mat@);
                    }
                    temp.pet = Some(anim);
                    temp.add_to_herd(anim, 1);
                    match anim {
                        Animal::Sheep => {
                            sheep_count = sheep_count - 1;
                        },
                        Animal::Boar => {
                            boar_count = boar_count - 1;
                        },
                        Animal::Cattle => {
                            cattle_count = cattle_count - 1;
                        },
                    }
                }
            }
            // Leftover animals can be cooked where the hearth allows it.
            let leftover = sheep_count > 0 || boar_count > 0 || cattle_count > 0;
            if has_improvement(&temp.improvements, MajorImprovement::CookingHearth_4)
                || (has_improvement(&temp.improvements, MajorImprovement::CookingHearth_5)
                    && leftover) {
                temp.food = temp.food.saturating_add(mul_capped(sheep_count, 2));
                temp.food = temp.food.saturating_add(mul_capped(boar_count, 3));
                temp.food = temp.food.saturating_add(mul_capped(cattle_count, 4));
            } else if has_improvement(&temp.improvements, MajorImprovement::Fireplace_2)
                || (has_improvement(&temp.improvements, MajorImprovement::Fireplace_3)
                    && leftover) {
                temp.food = temp.food.saturating_add(mul_capped(sheep_count, 2));
                temp.food = temp.food.saturating_add(mul_capped(boar_count, 2));
                temp.food = temp.food.saturating_add(mul_capped(cattle_count, 3));
            }
            let s = temp.score();
            if s > best_score {
                best_score = s;
                best_state = temp;
            }
            round = round + 1;
        }
        self.sheep = best_state.sheep;
        self.boar = best_state.boar;
        self.cattle = best_state.cattle;
        self.food = best_state.food;
        let ghost m_old = self.player_mat@;
        self.player_mat = best_state.player_mat;
        proof {
            lemma_pastured_count_same(m_old, self.player_mat@);
        }
    }

    /// Collects the per-round income of the storage improvements: clay to
    /// the pottery, wood to the joinery, reed to the basket maker.
    pub fn harvest_income(&mut self)
        requires
            old(self).wf(),
        ensures
            final(self).wf(),
            non_goods_same(*old(self), *final(self)),
            final(self).beggers == old(self).beggers,
    {
        if has_improvement(&self.improvements, MajorImprovement::Pottery) && self.clay > 0 {
            self.clay = self.clay - 1;
            self.food = self.food.saturating_add(2);
        }
        if has_improvement(&self.improvements, MajorImprovement::Joinery) && self.wood > 0 {
            self.wood = self.wood - 1;
            self.food = self.food.saturating_add(2);
        }
        if has_improvement(&self.improvements, MajorImprovement::BasketmakersWorkshop)
            && self.reed > 0 {
            self.reed = self.reed - 1;
            self.food = self.food.saturating_add(3);
        }
    }

    /// The field phase: every sown field yields one crop to the hand and
    /// loses one counter; an exhausted field keeps no crop.
    pub fn harvest_fields(&mut self)
        requires
            old(self).wf(),
        ensures
            final(self).wf(),
            final(self).beggers == old(self).beggers,
            final(self).total_actions == old(self).total_actions,
            final(self).actions == old(self).actions,
            final(self).children == old(self).children,
            final(self).improvements@ == old(self).improvements@,
            final(self).pastures@.map_values(|p: Pasture| p@)
                == old(self).pastures@.map_values(|p: Pasture| p@),
    {
        let mut k: usize = 0;
        while k < 15
            invariant
                self.wf(),
                k <= 15,
                self.beggers == old(self).beggers,
                self.total_actions == old(self).total_actions,
                self.actions == old(self).actions,
                self.children == old(self).children,
                self.improvements@ == old(self).improvements@,
                self.pastures@.map_values(|p: Pasture| p@)
                    == old(self).pastures@.map_values(|p: Pasture| p@),
            decreases 15 - k,
        {
            match self.tile_field(k) {
                Some(f) => {
                    match f.crop {
                        Some(Crop::Grain) => {
                            self.grains = self.grains.saturating_add(1);
                        },
                        Some(Crop::Vegetable) => {
                            self.vegetables = self.vegetables.saturating_add(1);
                        },
                        None => {
                            k = k + 1;
                            continue;
                        },
                    }
                    let new_count = if f.count >= 1 {
                        f.count - 1
                    } else {
                        0
                    };
                    let new_field = if new_count == 0 {
                        crate::fieldtile::FieldTile { crop: None, count: 0 }
                    } else {
                        crate::fieldtile::FieldTile { crop: f.crop, count: new_count }
                    };
                    let ghost m0 = self.player_mat@;
                    self.player_mat.set_field_tile(k, Some(new_field));
                    proof {
                        lemma_pastured_count_same(m0, self.player_mat@);
                    }
                },
                None => {},
            }
            k = k + 1;
        }
    }

    /// The feeding phase: pays `required` food, eating raw crops and, at a
    /// fireplace, trying a hundred random slaughter plans and keeping the
    /// best-scoring one; whatever stays unpaid becomes beggars.
    pub fn feed_family(&mut self, required: usize)
        requires
            old(self).wf(),
            old(self).total_actions <= 21,
            old(self).beggers <= 1000,
            required <= 45,
        ensures
            final(self).wf(),
            final(self).beggers <= old(self).beggers + required,
            final(self).total_actions == old(self).total_actions,
            final(self).actions == old(self).actions,
            final(self).children == old(self).children,
            final(self).improvements@ == old(self).improvements@,
            final(self).pastures@.map_values(|p: Pasture| p@)
                == old(self).pastures@.map_values(|p: Pasture| p@),
    {
        if self.food >= required {
            self.food = self.food - required;
            return;
        }
        let mut needed = required - self.food;
        self.food = 0;
        if !(has_improvement(&self.improvements, MajorImprovement::Fireplace_2)
            || has_improvement(&self.improvements, MajorImprovement::Fireplace_3)) {
            while needed > 0 && (self.grains > 0 || self.vegetables > 0)
                invariant
                    self.wf(),
                    needed <= required,
                    self.beggers == old(self).beggers,
                    self.total_actions == old(self).total_actions,
                    self.actions == old(self).actions,
                    self.children == old(self).children,
                    self.improvements@ == old(self).improvements@,
                    self.pastures@.map_values(|p: Pasture| p@)
                        == old(self).pastures@.map_values(|p: Pasture| p@),
                    self.player_mat@ == old(self).player_mat@,
                decreases needed,
            {
                if self.grains > 0 {
                    self.grains = self.grains - 1;
                } else {
                    self.vegetables = self.vegetables - 1;
                }
                needed = needed - 1;
            }
        }
        if needed > 0 && (has_improvement(&self.improvements, MajorImprovement::Fireplace_2)
            || has_improvement(&self.improvements, MajorImprovement::Fireplace_3)) {
            let base = self.score();
            let mut best_score: i32 = base - 3 * needed as i32;
            let mut best_state = self.clone();
            proof {
                lemma_wf_from_view(*self, best_state);
            }
            let mut a: usize = 0;
            while a < 100
                invariant
                    self.wf(),
                    self.total_actions <= 21,
                    self.beggers <= 1000,
                    self.beggers == old(self).beggers,
                    self.total_actions == old(self).total_actions,
                    self.actions == old(self).actions,
                    self.children == old(self).children,
                    self.improvements@ == old(self).improvements@,
                    self.pastures@.map_values(|p: Pasture| p@)
                        == old(self).pastures@.map_values(|p: Pasture| p@),
                    self.player_mat@ == old(self).player_mat@,
                    best_state.wf(),
                    best_state.beggers == self.beggers,
                    best_state.total_actions == self.total_actions,
                    best_state.actions == self.actions,
                    best_state.children == self.children,
                    best_state.improvements@ == self.improvements@,
                    best_state.pastures@.map_values(|p: Pasture| p@)
                        == self.pastures@.map_values(|p: Pasture| p@),
                    best_state.player_mat@ == self.player_mat@,
                    a <= 100,
                decreases 100 - a,
            {
                let salt = self.rng.next_below(0x4000_0000);
                let mut temp = self.clone();
                proof {
                    lemma_wf_from_view(*self, temp);
                }
                temp.rng = SeededRng::new(salt as u64);
                let mut fneed = needed;
                while fneed > 0 && (temp.sheep > 0 || temp.boar > 0 || temp.cattle > 0
                    || temp.vegetables > 0)
                    invariant
                        temp.wf(),
                        temp.beggers == self.beggers,
                        temp.total_actions == self.total_actions,
                        temp.actions == self.actions,
                        temp.children == self.children,
                        temp.improvements@ == self.improvements@,
                        temp.pastures@.map_values(|p: Pasture| p@)
                            == self.pastures@.map_values(|p: Pasture| p@),
                        temp.player_mat@ == self.player_mat@,
                    decreases temp.sheep + temp.boar + temp.cattle + temp.vegetables
                        + temp.grains,
                {
                    let mut candidates: Vec<u8> = Vec::new();
                    if temp.sheep > 0 {
                        candidates.push(1);
                    }
                    if temp.boar > 0 {
                        candidates.push(2);
                    }
                    if temp.cattle > 0 {
                        candidates.push(3);
                    }
                    if temp.vegetables > 0 {
                        candidates.push(4);
                    }
                    if temp.grains > 0 {
                        candidates.push(5);
                    }
                    let pick = candidates[temp.rng.next_below(candidates.len())];
                    if pick == 1 && temp.sheep > 0 {
                        temp.sheep = temp.sheep - 1;
                        if fneed == 1 {
                            fneed = 0;
                            temp.food = 1;
                        } else {
                            fneed = fneed - 2;
                        }
                    } else if pick == 2 && temp.boar > 0 {
                        temp.boar = temp.boar - 1;
                        if fneed == 1 {
                            fneed = 0;
                            temp.food = 1;
                        } else {
                            fneed = fneed - 2;
                        }
                    } else if pick == 3 && temp.cattle > 0 {
                        temp.cattle = temp.cattle - 1;
                        if fneed >= 3 {
                            fneed = fneed - 3;
                        } else {
                            fneed = 0;
                            temp.food = 3;
                        }
                    } else if pick == 4 && temp.vegetables > 0 {
                        temp.vegetables = temp.vegetables - 1;
                        if fneed == 1 {
                            fneed = 0;
                            temp.food = 1;
                        } else {
                            fneed = fneed - 2;
                        }
                    } else if pick == 5 && temp.grains > 0 {
                        temp.grains = temp.grains - 1;
                        fneed = fneed - 1;
                    } else {
                        break;
                    }
                }
                let s = temp.score();
                if s > best_score {
                    best_score = s;
                    best_state = temp;
                }
                a = a + 1;
            }
            self.sheep = best_state.sheep;
            self.boar = best_state.boar;
            self.cattle = best_state.cattle;
            self.food = best_state.food;
            self.grains = best_state.grains;
        }
        self.beggers = self.beggers.saturating_add(needed);
    }

    /// The breeding phase: each herd of at least two animals grows by one,
    /// and the newborn animals are placed.
    pub fn breed_animals(&mut self)
        requires
            old(self).wf(),
            old(self).total_actions <= 21,
            old(self).beggers <= 1000,
        ensures
            final(self).wf(),
            final(self).beggers == old(self).beggers,
            final(self).total_actions == old(self).total_actions,
            final(self).actions == old(self).actions,
            final(self).children == old(self).children,
            final(self).improvements@ == old(self).improvements@,
            final(self).pastures@.map_values(|p: Pasture| p@)
                == old(self).pastures@.map_values(|p: Pasture| p@),
    {
        if self.sheep >= 2 {
            self.sheep = self.sheep.saturating_add(1);
        }
        if self.boar >= 2 {
            self.boar = self.boar.saturating_add(1);
        }
        if self.cattle >= 2 {
            self.cattle = self.cattle.saturating_add(1);
        }
        self.place_animals();
    }

    /// One whole harvest for this farm: improvement income, the field
    /// phase, feeding the family, then breeding.
    pub fn run_harvest(&mut self)
        requires
            old(self).wf(),
            old(self).total_actions <= 21,
            old(self).children <= 1,
            old(self).beggers <= 955,
        ensures
            final(self).wf(),
            final(self).beggers <= old(self).beggers + 2 * old(self).total_actions
                + old(self).children,
            final(self).total_actions == old(self).total_actions,
            final(self).actions == old(self).actions,
            final(self).children == old(self).children,
            final(self).improvements@ == old(self).improvements@,
    {
        self.harvest_income();
        self.harvest_fields();
        let required = self.total_actions * 2 + self.children;
        let capped = if required <= 45 {
            required
        } else {
            45
        };
        proof {
            assert(self.children == old(self).children);
        }
        self.feed_family(capped);
        self.breed_animals();
    }

    /// Converts grain to food in the best oven or hearth on hand; returns
    /// the food gained.
    pub fn bake_bread(&mut self) -> (r: usize)
        requires
            old(self).wf(),
        ensures
            final(self).wf(),
            scalars_but_baking_same(*old(self), *final(self)),
            old(self).grains == 0 ==> r == 0 && *final(self) == *old(self),
            ({
                let imp = old(self).improvements@;
                let g = old(self).grains;
                &&& (g > 0 && imp.contains(MajorImprovement::ClayOven)
                    ==> r == 5 && final(self).grains == g - 1
                        && final(self).food == sat_add(old(self).food, 5))
                &&& (g > 0 && !imp.contains(MajorImprovement::ClayOven)
                    && imp.contains(MajorImprovement::StoneOven) ==> {
                    &&& (2 <= g < 100 ==> r == 8 && final(self).grains == g - 2
                        && final(self).food == sat_add(old(self).food, 8))
                    &&& (g == 1 ==> r == 4 && final(self).grains == 0
                        && final(self).food == sat_add(old(self).food, 4))
                    &&& (g >= 100 ==> r == 0 && *final(self) == *old(self))
                })
                &&& (g > 0 && !imp.contains(MajorImprovement::ClayOven)
                    && !imp.contains(MajorImprovement::StoneOven)
                    && (imp.contains(MajorImprovement::CookingHearth_4)
                        || imp.contains(MajorImprovement::CookingHearth_5))
                    ==> r == (if g <= usize::MAX as int / 3 { 3 * g } else { usize::MAX as int })
                        && final(self).grains == 0
                        && final(self).food == sat_add(old(self).food, r as int))
                &&& (g > 0 && !imp.contains(MajorImprovement::ClayOven)
                    && !imp.contains(MajorImprovement::StoneOven)
                    && !imp.contains(MajorImprovement::CookingHearth_4)
                    && !imp.contains(MajorImprovement::CookingHearth_5)
                    && (imp.contains(MajorImprovement::Fireplace_2)
                        || imp.contains(MajorImprovement::Fireplace_3))
                    ==> r == (if g <= usize::MAX as int / 2 { 2 * g } else { usize::MAX as int })
                        && final(self).grains == 0
                        && final(self).food == sat_add(old(self).food, r as int))
                &&& (g > 0 && !imp.contains(MajorImprovement::ClayOven)
                    && !imp.contains(MajorImprovement::StoneOven)
                    && !imp.contains(MajorImprovement::CookingHearth_4)
                    && !imp.contains(MajorImprovement::CookingHearth_5)
                    && !imp.contains(MajorImprovement::Fireplace_2)
                    && !imp.contains(MajorImprovement::Fireplace_3)
                    ==> r == 0 && *final(self) == *old(self))
            }),
    {
        if self.grains == 0 {
            return 0;
        }
        let mut food_gained: usize = 0;
        if has_improvement(&self.improvements, MajorImprovement::ClayOven) {
            self.grains = self.grains - 1;
            self.food = self.food.saturating_add(5);
            food_gained = 5;
        } else if has_improvement(&self.improvements, MajorImprovement::StoneOven) {
            // The stone oven handles at most ninety-nine grain at once; a
            // larger store bakes nothing, as the game ships.
            if 2 <= self.grains && self.grains < 100 {
                self.grains = self.grains - 2;
                self.food = self.food.saturating_add(8);
                food_gained = 8;
            } else if self.grains == 1 {
                self.grains = self.grains - 1;
                self.food = self.food.saturating_add(4);
                food_gained = 4;
            }
        } else if has_improvement(&self.improvements, MajorImprovement::CookingHearth_4)
            || has_improvement(&self.improvements, MajorImprovement::CookingHearth_5) {
            food_gained = if self.grains <= usize::MAX / 3 {
                self.grains * 3
            } else {
                usize::MAX
            };
            self.food = self.food.saturating_add(food_gained);
            self.grains = 0;
        } else if has_improvement(&self.improvements, MajorImprovement::Fireplace_2)
            || has_improvement(&self.improvements, MajorImprovement::Fireplace_3) {
            food_gained = if self.grains <= usize::MAX / 2 {
                self.grains * 2
            } else {
                usize::MAX
            };
            self.food = self.food.saturating_add(food_gained);
            self.grains = 0;
        }
        food_gained
    }
}

/// Scoring bracket for fields.
fn bracket_fields(n: usize) -> (r: i32)
    ensures
        -1 <= r <= 4,
{
    match n {
        0 | 1 => -1,
        2 => 1,
        3 => 2,
        4 => 3,
        _ => 4,
    }
}

/// Scoring bracket for grain and for sheep.
fn bracket_grain(n: usize) -> (r: i32)
    ensures
        -1 <= r <= 4,
{
    match n {
        0 => -1,
        1 | 2 | 3 => 1,
        4 | 5 => 2,
        6 | 7 => 3,
        _ => 4,
    }
}

/// Scoring bracket for vegetables.
fn bracket_veg(n: usize) -> (r: i32)
    ensures
        -1 <= r <= 4,
{
    match n {
        0 => -1,
        1 => 1,
        2 => 2,
        3 => 3,
        _ => 4,
    }
}

/// Scoring bracket for boar.
fn bracket_boar(n: usize) -> (r: i32)
    ensures
        -1 <= r <= 4,
{
    match n {
        0 => -1,
        1 | 2 => 1,
        3 | 4 => 2,
        5 | 6 => 3,
        _ => 4,
    }
}

/// Scoring bracket for cattle.
fn bracket_cattle(n: usize) -> (r: i32)
    ensures
        -1 <= r <= 4,
{
    match n {
        0 => -1,
        1 => 1,
        2 | 3 => 2,
        4 | 5 => 3,
        _ => 4,
    }
}

/// Bonus points for stored clay or wood.
fn bonus_stored(n: usize) -> (r: i32)
    ensures
        0 <= r <= 3,
{
    match n {
        0 | 1 | 2 => 0,
        3 | 4 => 1,
        5 | 6 => 2,
        _ => 3,
    }
}

/// Bonus points for stored reed.
fn bonus_reed(n: usize) -> (r: i32)
    ensures
        0 <= r <= 3,
{
    match n {
        0 | 1 => 0,
        2 | 3 => 1,
        4 => 2,
        _ => 3,
    }
}

/// Two players with the same mathematical image are equally well-formed.
pub proof fn lemma_wf_from_view(a: Player, b: Player)
    requires
        a@ == b@,
    ensures
        a.wf() == b.wf(),
{
    assert(a.player_mat@ == b.player_mat@);
    assert(a.pastures@.map_values(|p: Pasture| p@) == b.pastures@.map_values(|p: Pasture| p@));
    assert(a.pastures@.len() == b.pastures@.len()) by {
        assert(a.pastures@.map_values(|p: Pasture| p@).len() == a.pastures@.len());
        assert(b.pastures@.map_values(|p: Pasture| p@).len() == b.pastures@.len());
    }
    assert forall|m: int| 0 <= m < a.pastures@.len()
        implies (#[trigger] a.pastures@[m])@ == b.pastures@[m]@ by {
        assert(a.pastures@.map_values(|p: Pasture| p@)[m] == a.pastures@[m]@);
        assert(b.pastures@.map_values(|p: Pasture| p@)[m] == b.pastures@[m]@);
    }
    assert forall|m: int| 0 <= m < b.pastures@.len()
        implies (#[trigger] b.pastures@[m])@ == a.pastures@[m]@ by {
        assert(a.pastures@.map_values(|p: Pasture| p@)[m] == a.pastures@[m]@);
        assert(b.pastures@.map_values(|p: Pasture| p@)[m] == b.pastures@[m]@);
    }
    if a.wf() {
        assert(b.wf());
    }
    if b.wf() {
        assert(a.wf());
    }
}

/// Whether tile `k` of the farm has a stable outside any pasture, and no
/// animal yet: (stable, pasture, animal free).
fn self_tile(p: &Player, k: usize) -> (r: (bool, bool, bool))
    requires
        p.wf(),
        k < 15,
    ensures
        r.0 == p.player_mat@[k as int].stable,
        r.1 == p.player_mat@[k as int].pasture,
        r.2 == (p.player_mat@[k as int].animal_type is None),
{
    let t = &p.player_mat.tiles[k];
    (t.stable, t.pasture, t.animal_type.is_none())
}

/// `a * b` capped at the largest representable value.
fn mul_capped(a: usize, b: usize) -> (r: usize)
    requires
        1 <= b <= 4,
    ensures
        a * b <= usize::MAX ==> r == a * b,
{
    if a <= usize::MAX / b {
        proof {
            assert(a * b <= (usize::MAX / b) * b) by (nonlinear_arith)
                requires
                    a <= usize::MAX / b,
                    b >= 1,
            ;
            assert((usize::MAX / b) * b <= usize::MAX) by (nonlinear_arith)
                requires
                    b >= 1,
            ;
        }
        a * b
    } else {
        proof {
            assert(a * b > usize::MAX) by (nonlinear_arith)
                requires
                    a > usize::MAX / b,
                    1 <= b <= 4,
            ;
        }
        usize::MAX
    }
}

/// Everything except the goods stores (food, crops, materials, animals)
/// is unchanged; the farm grid too.
pub open spec fn non_goods_same(a: Player, b: Player) -> bool {
    &&& b.fields == a.fields
    &&& b.actions == a.actions
    &&& b.total_actions == a.total_actions
    &&& b.actions_taken@ == a.actions_taken@
    &&& b.player_mat@ == a.player_mat@
    &&& b.house_type == a.house_type
    &&& b.children == a.children
    &&& b.stables == a.stables
    &&& b.fences == a.fences
    &&& b.pastures@.map_values(|p: Pasture| p@) == a.pastures@.map_values(|p: Pasture| p@)
    &&& b.pet == a.pet
    &&& b.improvements@ == a.improvements@
}

/// Only the farm grid's animal fields, the animal and food stores and the
/// pet slot may change.
pub open spec fn scalars_but_animals_same(a: Player, b: Player) -> bool {
    &&& b.fields == a.fields
    &&& b.grains == a.grains
    &&& b.vegetables == a.vegetables
    &&& b.wood == a.wood
    &&& b.clay == a.clay
    &&& b.reed == a.reed
    &&& b.stone == a.stone
    &&& b.actions == a.actions
    &&& b.total_actions == a.total_actions
    &&& b.house_type == a.house_type
    &&& b.beggers == a.beggers
    &&& b.children == a.children
    &&& b.stables == a.stables
    &&& b.fences == a.fences
    &&& b.pastures@.map_values(|p: Pasture| p@) == a.pastures@.map_values(|p: Pasture| p@)
    &&& b.improvements@ == a.improvements@
}

/// The two farm grids differ at most in their animal fields.
pub open spec fn animals_only_step(m0: Seq<FarmTileV>, m1: Seq<FarmTileV>) -> bool {
    &&& m1.len() == m0.len()
    &&& forall|j: int| 0 <= j < m1.len() ==> {
        &&& (#[trigger] m1[j]).house == m0[j].house
        &&& m1[j].field == m0[j].field
        &&& m1[j].stable == m0[j].stable
        &&& m1[j].pasture == m0[j].pasture
        &&& m1[j].north_fence == m0[j].north_fence
        &&& m1[j].south_fence == m0[j].south_fence
        &&& m1[j].east_fence == m0[j].east_fence
        &&& m1[j].west_fence == m0[j].west_fence
        &&& m1[j].surrounding_tiles == m0[j].surrounding_tiles
        &&& m1[j].index == m0[j].index
    }
}

/// Everything of the player except the farm grid is unchanged.
pub open spec fn same_player_but_mat(a: Player, b: Player) -> bool {
    &&& b.food == a.food
    &&& b.fields == a.fields
    &&& b.grains == a.grains
    &&& b.vegetables == a.vegetables
    &&& b.wood == a.wood
    &&& b.clay == a.clay
    &&& b.reed == a.reed
    &&& b.stone == a.stone
    &&& b.sheep == a.sheep
    &&& b.cattle == a.cattle
    &&& b.boar == a.boar
    &&& b.actions == a.actions
    &&& b.total_actions == a.total_actions
    &&& b.actions_taken@ == a.actions_taken@
    &&& b.house_type == a.house_type
    &&& b.beggers == a.beggers
    &&& b.children == a.children
    &&& b.stables == a.stables
    &&& b.fences == a.fences
    &&& b.pastures@.map_values(|p: Pasture| p@) == a.pastures@.map_values(|p: Pasture| p@)
    &&& b.pet == a.pet
    &&& b.improvements@ == a.improvements@
}

/// Like [`same_player_but_mat`], with the house material also free.
pub open spec fn same_player_but_mat_house(a: Player, b: Player) -> bool {
    &&& b.food == a.food
    &&& b.fields == a.fields
    &&& b.grains == a.grains
    &&& b.vegetables == a.vegetables
    &&& b.wood == a.wood
    &&& b.clay == a.clay
    &&& b.reed == a.reed
    &&& b.stone == a.stone
    &&& b.sheep == a.sheep
    &&& b.cattle == a.cattle
    &&& b.boar == a.boar
    &&& b.actions == a.actions
    &&& b.total_actions == a.total_actions
    &&& b.actions_taken@ == a.actions_taken@
    &&& b.beggers == a.beggers
    &&& b.children == a.children
    &&& b.stables == a.stables
    &&& b.fences == a.fences
    &&& b.pastures@.map_values(|p: Pasture| p@) == a.pastures@.map_values(|p: Pasture| p@)
    &&& b.pet == a.pet
    &&& b.improvements@ == a.improvements@
}

/// Only the farm grid and the field counter may change.
pub open spec fn scalars_but_fields_same(a: Player, b: Player) -> bool {
    &&& b.food == a.food
    &&& b.grains == a.grains
    &&& b.vegetables == a.vegetables
    &&& b.wood == a.wood
    &&& b.clay == a.clay
    &&& b.reed == a.reed
    &&& b.stone == a.stone
    &&& b.sheep == a.sheep
    &&& b.cattle == a.cattle
    &&& b.boar == a.boar
    &&& b.actions == a.actions
    &&& b.total_actions == a.total_actions
    &&& b.house_type == a.house_type
    &&& b.beggers == a.beggers
    &&& b.children == a.children
    &&& b.stables == a.stables
    &&& b.fences == a.fences
    &&& b.pastures@.map_values(|p: Pasture| p@) == a.pastures@.map_values(|p: Pasture| p@)
    &&& b.pet == a.pet
    &&& b.improvements@ == a.improvements@
}

/// Only the farm grid and the building materials may change.
pub open spec fn scalars_but_resources_same(a: Player, b: Player) -> bool {
    &&& b.food == a.food
    &&& b.fields == a.fields
    &&& b.grains == a.grains
    &&& b.vegetables == a.vegetables
    &&& b.sheep == a.sheep
    &&& b.cattle == a.cattle
    &&& b.boar == a.boar
    &&& b.actions == a.actions
    &&& b.total_actions == a.total_actions
    &&& b.house_type == a.house_type
    &&& b.beggers == a.beggers
    &&& b.children == a.children
    &&& b.stables == a.stables
    &&& b.fences == a.fences
    &&& b.pastures@.map_values(|p: Pasture| p@) == a.pastures@.map_values(|p: Pasture| p@)
    &&& b.pet == a.pet
    &&& b.improvements@ == a.improvements@
}

/// Only the farm grid, the wood count and the stable count may change.
pub open spec fn scalars_but_stables_same(a: Player, b: Player) -> bool {
    &&& b.food == a.food
    &&& b.fields == a.fields
    &&& b.grains == a.grains
    &&& b.vegetables == a.vegetables
    &&& b.clay == a.clay
    &&& b.reed == a.reed
    &&& b.stone == a.stone
    &&& b.sheep == a.sheep
    &&& b.cattle == a.cattle
    &&& b.boar == a.boar
    &&& b.actions == a.actions
    &&& b.total_actions == a.total_actions
    &&& b.house_type == a.house_type
    &&& b.beggers == a.beggers
    &&& b.children == a.children
    &&& b.fences == a.fences
    &&& b.pastures@.map_values(|p: Pasture| p@) == a.pastures@.map_values(|p: Pasture| p@)
    &&& b.pet == a.pet
    &&& b.improvements@ == a.improvements@
}

/// Only the farm grid and the crop stores may change.
pub open spec fn scalars_but_crops_same(a: Player, b: Player) -> bool {
    &&& b.food == a.food
    &&& b.fields == a.fields
    &&& b.wood == a.wood
    &&& b.clay == a.clay
    &&& b.reed == a.reed
    &&& b.stone == a.stone
    &&& b.sheep == a.sheep
    &&& b.cattle == a.cattle
    &&& b.boar == a.boar
    &&& b.actions == a.actions
    &&& b.total_actions == a.total_actions
    &&& b.house_type == a.house_type
    &&& b.beggers == a.beggers
    &&& b.children == a.children
    &&& b.stables == a.stables
    &&& b.fences == a.fences
    &&& b.pastures@.map_values(|p: Pasture| p@) == a.pastures@.map_values(|p: Pasture| p@)
    &&& b.pet == a.pet
    &&& b.improvements@ == a.improvements@
}

/// Only the farm grid, wood, fences and the pasture list may change.
pub open spec fn scalars_but_pastures_same(a: Player, b: Player) -> bool {
    &&& b.food == a.food
    &&& b.fields == a.fields
    &&& b.grains == a.grains
    &&& b.vegetables == a.vegetables
    &&& b.clay == a.clay
    &&& b.reed == a.reed
    &&& b.stone == a.stone
    &&& b.sheep == a.sheep
    &&& b.cattle == a.cattle
    &&& b.boar == a.boar
    &&& b.actions == a.actions
    &&& b.total_actions == a.total_actions
    &&& b.house_type == a.house_type
    &&& b.beggers == a.beggers
    &&& b.children == a.children
    &&& b.stables == a.stables
    &&& b.pet == a.pet
    &&& b.improvements@ == a.improvements@
}

/// Only the farm grid and the pet slot may change.
pub open spec fn scalars_but_pet_same(a: Player, b: Player) -> bool {
    &&& b.food == a.food
    &&& b.fields == a.fields
    &&& b.grains == a.grains
    &&& b.vegetables == a.vegetables
    &&& b.wood == a.wood
    &&& b.clay == a.clay
    &&& b.reed == a.reed
    &&& b.stone == a.stone
    &&& b.sheep == a.sheep
    &&& b.cattle == a.cattle
    &&& b.boar == a.boar
    &&& b.actions == a.actions
    &&& b.total_actions == a.total_actions
    &&& b.house_type == a.house_type
    &&& b.beggers == a.beggers
    &&& b.children == a.children
    &&& b.stables == a.stables
    &&& b.fences == a.fences
    &&& b.pastures@.map_values(|p: Pasture| p@) == a.pastures@.map_values(|p: Pasture| p@)
    &&& b.improvements@ == a.improvements@
}

/// Only grain and food may change.
pub open spec fn scalars_but_baking_same(a: Player, b: Player) -> bool {
    &&& b.fields == a.fields
    &&& b.vegetables == a.vegetables
    &&& b.wood == a.wood
    &&& b.clay == a.clay
    &&& b.reed == a.reed
    &&& b.stone == a.stone
    &&& b.sheep == a.sheep
    &&& b.cattle == a.cattle
    &&& b.boar == a.boar
    &&& b.actions == a.actions
    &&& b.total_actions == a.total_actions
    &&& b.house_type == a.house_type
    &&& b.beggers == a.beggers
    &&& b.children == a.children
    &&& b.stables == a.stables
    &&& b.fences == a.fences
    &&& b.player_mat@ == a.player_mat@
    &&& b.pastures@.map_values(|p: Pasture| p@) == a.pastures@.map_values(|p: Pasture| p@)
    &&& b.pet == a.pet
    &&& b.improvements@ == a.improvements@
}

} // verus!
