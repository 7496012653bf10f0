//! The three-by-five farm grid of one player, and the fence geometry that
//! turns groups of tiles into pastures.

use vstd::prelude::*;
use crate::farmtile::{FarmTile, FarmTileV};
use crate::fieldtile::FieldTile;
use crate::misc::{contains_usize, HouseType};
use crate::rng::{RandomSource, SeededRng};

verus! {

/// The farm grid; tile `i` sits at row `i / 5`, column `i % 5`.
#[derive(Debug)]
pub struct PlayerMat {
    pub tiles: Vec<FarmTile>,
}

impl View for PlayerMat {
    type V = Seq<FarmTileV>;

    open spec fn view(&self) -> Seq<FarmTileV> {
        self.tiles@.map_values(|t: FarmTile| t@)
    }
}

impl Clone for PlayerMat {
    fn clone(&self) -> (r: Self)
        ensures
            r@ == self@,
    {
        let mut tiles: Vec<FarmTile> = Vec::new();
        let mut k: usize = 0;
        while k < self.tiles.len()
            invariant
                k <= self.tiles@.len(),
                tiles@.len() == k,
                forall|m: int| 0 <= m < k ==> (#[trigger] tiles@[m])@ == self.tiles@[m]@,
            decreases self.tiles@.len() - k,
        {
            tiles.push(self.tiles[k].clone());
            k = k + 1;
        }
        let r = PlayerMat { tiles };
        proof {
            assert(r@ =~= self@);
        }
        r
    }
}

/// All tiles of `m` other than those listed in `keep` agree with `m0` on
/// everything but fences; listed tiles additionally became pastures. No
/// tile changes its buildings, fields, animals or neighbours.
pub open spec fn pasture_step(m0: Seq<FarmTileV>, m: Seq<FarmTileV>, keep: Seq<usize>) -> bool {
    &&& m.len() == m0.len()
    &&& forall|j: int| 0 <= j < m.len() ==> {
        let a = m0[j];
        let b = #[trigger] m[j];
        &&& b.house == a.house
        &&& b.field == a.field
        &&& b.stable == a.stable
        &&& b.animal_type == a.animal_type
        &&& b.animal_count == a.animal_count
        &&& b.surrounding_tiles == a.surrounding_tiles
        &&& b.index == a.index
        &&& (keep.contains(j as usize) ==> b.pasture)
        &&& (!keep.contains(j as usize) ==> b.pasture == a.pasture)
    }
}

/// How many tiles of the farm are marked as pasture.
pub open spec fn pastured_count(m: Seq<FarmTileV>) -> int
    decreases m.len(),
{
    if m.len() == 0 {
        0
    } else {
        pastured_count(m.drop_last()) + if m.last().pasture { 1int } else { 0int }
    }
}

pub proof fn lemma_pastured_count_le_len(m: Seq<FarmTileV>)
    ensures
        0 <= pastured_count(m) <= m.len(),
    decreases m.len(),
{
    if m.len() > 0 {
        lemma_pastured_count_le_len(m.drop_last());
    }
}

/// Pasture marks only ever spread, and the count grows with them; if some
/// tile is newly marked, the count grows strictly.
pub proof fn lemma_pastured_count_monotone(a: Seq<FarmTileV>, b: Seq<FarmTileV>, w: int)
    requires
        a.len() == b.len(),
        forall|j: int| 0 <= j < a.len() && (#[trigger] a[j]).pasture ==> b[j].pasture,
        -1 <= w < a.len(),
        w >= 0 ==> !a[w].pasture && b[w].pasture,
    ensures
        pastured_count(a) + (if w >= 0 { 1int } else { 0int }) <= pastured_count(b),
    decreases a.len(),
{
    if a.len() > 0 {
        let n = a.len() - 1;
        assert(a.drop_last().len() == b.drop_last().len());
        assert forall|j: int| 0 <= j < a.drop_last().len() && (#[trigger] a.drop_last()[j]).pasture
            implies b.drop_last()[j].pasture by {
            assert(a.drop_last()[j] == a[j]);
            assert(b.drop_last()[j] == b[j]);
        }
        if w == n {
            lemma_pastured_count_monotone(a.drop_last(), b.drop_last(), -1);
        } else if w >= 0 {
            assert(a.drop_last()[w] == a[w]);
            assert(b.drop_last()[w] == b[w]);
            lemma_pastured_count_monotone(a.drop_last(), b.drop_last(), w);
        } else {
            lemma_pastured_count_monotone(a.drop_last(), b.drop_last(), -1);
        }
    }
}

/// Equal pasture marks give equal counts.
pub proof fn lemma_pastured_count_same(a: Seq<FarmTileV>, b: Seq<FarmTileV>)
    requires
        a.len() == b.len(),
        forall|j: int| 0 <= j < a.len() ==> (#[trigger] a[j]).pasture == b[j].pasture,
    ensures
        pastured_count(a) == pastured_count(b),
{
    lemma_pastured_count_monotone(a, b, -1);
    lemma_pastured_count_monotone(b, a, -1);
}

/// The entry pairs its tile with the name of a side whose fence truly
/// stands there.
pub open spec fn fence_entry_ok(m: Seq<FarmTileV>, e: (usize, &str)) -> bool {
    &&& e.0 < 15
    &&& {
        ||| (e.1@ == "north"@ && m[e.0 as int].north_fence)
        ||| (e.1@ == "west"@ && m[e.0 as int].west_fence)
        ||| (e.1@ == "south"@ && m[e.0 as int].south_fence)
        ||| (e.1@ == "east"@ && m[e.0 as int].east_fence)
    }
}

/// Some listed entry pairs tile `i` with the side named `side`.
pub open spec fn fence_listed(r: Seq<(usize, &str)>, i: int, side: Seq<char>) -> bool {
    exists|m: int| 0 <= m < r.len() && (#[trigger] r[m]).0 == i && r[m].1@ == side
}

/// A listing survives appending more entries.
proof fn lemma_fence_listed_grows(
    pre: Seq<(usize, &str)>,
    post: Seq<(usize, &str)>,
    i: int,
    side: Seq<char>,
)
    requires
        fence_listed(pre, i, side),
        pre.len() <= post.len(),
        forall|m: int| 0 <= m < pre.len() ==> #[trigger] post[m] == pre[m],
    ensures
        fence_listed(post, i, side),
{
    let m = choose|m: int| 0 <= m < pre.len() && (#[trigger] pre[m]).0 == i && pre[m].1@ == side;
    assert(post[m].0 == i && post[m].1@ == side);
}

/// The neighbours of grid position `i`, in the order the farm records
/// them: right, left, up, down, skipping whatever falls off the board.
pub open spec fn grid_neighbours(i: int) -> Seq<usize> {
    (if !(i == 4 || i == 9 || i == 14) {
        seq![(i + 1) as usize]
    } else {
        seq![]
    }) + (if !(i == 0 || i == 5 || i == 10) {
        seq![(i - 1) as usize]
    } else {
        seq![]
    }) + (if i >= 5 {
        seq![(i - 5) as usize]
    } else {
        seq![]
    }) + (if i < 10 {
        seq![(i + 5) as usize]
    } else {
        seq![]
    })
}

impl PlayerMat {
    /// A usable farm grid: fifteen tiles, each knowing its own position,
    /// with every recorded neighbour inside the grid.
    pub open spec fn wf(&self) -> bool {
        &&& self@.len() == 15
        &&& forall|i: int| 0 <= i < 15 ==> (#[trigger] self@[i]).index == i
        &&& forall|i: int, j: int| 0 <= i < 15 && 0 <= j < self@[i].surrounding_tiles.len()
            ==> #[trigger] self@[i].surrounding_tiles[j] < 15
    }

    /// The starting farm: two wooden rooms at tiles 5 and 10, everything
    /// else bare, with the four-neighbour lists filled in.
    pub fn new() -> (r: PlayerMat)
        ensures
            r.wf(),
            forall|i: int| 0 <= i < 15 ==> (#[trigger] r@[i]).house
                == (if i == 5 || i == 10 { Some(HouseType::Wood) } else { None }),
            forall|i: int| 0 <= i < 15
                ==> (#[trigger] r@[i]).surrounding_tiles == grid_neighbours(i),
            forall|i: int| 0 <= i < 15 ==> {
                let t = #[trigger] r@[i];
                &&& t.field is None
                &&& !t.stable
                &&& !t.pasture
                &&& t.animal_type is None
                &&& t.animal_count == 0
                &&& !t.north_fence
                &&& !t.south_fence
                &&& !t.east_fence
                &&& !t.west_fence
            },
    {
        let mut player_mat: Vec<FarmTile> = Vec::new();
        let mut i: usize = 0;
        while i < 15
            invariant
                i <= 15,
                player_mat@.len() == i,
                forall|m: int| 0 <= m < i ==> (#[trigger] player_mat@[m])@.index == m,
                forall|m: int, j: int| 0 <= m < i
                    && 0 <= j < player_mat@[m]@.surrounding_tiles.len()
                    ==> #[trigger] player_mat@[m]@.surrounding_tiles[j] < 15,
                forall|m: int| 0 <= m < i
                    ==> (#[trigger] player_mat@[m])@.surrounding_tiles == grid_neighbours(m),
                forall|m: int| 0 <= m < i ==> (#[trigger] player_mat@[m])@.house
                    == (if m == 5 || m == 10 { Some(HouseType::Wood) } else { None }),
                forall|m: int| 0 <= m < i ==> {
                    let t = (#[trigger] player_mat@[m])@;
                    &&& t.field is None
                    &&& !t.stable
                    &&& !t.pasture
                    &&& t.animal_type is None
                    &&& t.animal_count == 0
                    &&& !t.north_fence
                    &&& !t.south_fence
                    &&& !t.east_fence
                    &&& !t.west_fence
                },
            decreases 15 - i,
        {
            let mut new_tile = FarmTile::new(i);
            if i == 5 || i == 10 {
                new_tile.house = Some(HouseType::Wood);
            }
            if !(i == 4 || i == 9 || i == 14) {
                new_tile.surrounding_tiles.push(i + 1);
            }
            if !(i == 0 || i == 5 || i == 10) {
                new_tile.surrounding_tiles.push(i - 1);
            }
            if i >= 5 {
                new_tile.surrounding_tiles.push(i - 5);
            }
            if i < 10 {
                new_tile.surrounding_tiles.push(i + 5);
            }
            proof {
                assert(new_tile@.surrounding_tiles =~= grid_neighbours(i as int));
            }
            player_mat.push(new_tile);
            i = i + 1;
        }
        let r = PlayerMat { tiles: player_mat };
        proof {
            assert(r@.len() == 15);
        }
        r
    }

    /// Plows a random empty tile adjacent to an existing field; does
    /// nothing when no field has an empty neighbour.
    pub fn plow_random_field(&mut self, rng: &mut SeededRng)
        requires
            old(self).wf(),
        ensures
            final(self).wf(),
            forall|j: int| 0 <= j < 15 ==> (#[trigger] final(self)@[j]).pasture
                == old(self)@[j].pasture,
            final(self)@ == old(self)@ || (exists|i: int| {
                &&& 0 <= i < 15
                &&& (#[trigger] old(self)@[i]).house is None
                &&& old(self)@[i].field is None
                &&& !old(self)@[i].pasture
                &&& !old(self)@[i].stable
                &&& final(self)@ == old(self)@.update(i, FarmTileV {
                    field: Some(FieldTile { crop: None, count: 0 }),
                    ..old(self)@[i]
                })
            }),
    {
        let ghost m0 = self@;
        let mut possible_fields: Vec<usize> = Vec::new();
        let mut k: usize = 0;
        while k < 15
            invariant
                old(self) == self,
                self.wf(),
                k <= 15,
                forall|m: int| 0 <= m < possible_fields@.len()
                    ==> {
                        let t = self@[#[trigger] possible_fields@[m] as int];
                        &&& possible_fields@[m] < 15
                        &&& t.house is None
                        &&& t.field is None
                        &&& !t.pasture
                        &&& !t.stable
                    },
            decreases 15 - k,
        {
            if self.tiles[k].field.is_some() {
                let mut j: usize = 0;
                let n = self.tiles[k].surrounding_tiles.len();
                while j < n
                    invariant
                        old(self) == self,
                        self.wf(),
                        k < 15,
                        n == self@[k as int].surrounding_tiles.len(),
                        j <= n,
                        forall|m: int| 0 <= m < possible_fields@.len()
                            ==> {
                                let t = self@[#[trigger] possible_fields@[m] as int];
                                &&& possible_fields@[m] < 15
                                &&& t.house is None
                                &&& t.field is None
                                &&& !t.pasture
                                &&& !t.stable
                            },
                    decreases n - j,
                {
                    let cand = self.tiles[k].surrounding_tiles[j];
                    proof {
                        assert(self@[k as int].surrounding_tiles[j as int] < 15);
                    }
                    if self.tiles[cand].is_empty() {
                        possible_fields.push(cand);
                    }
                    j = j + 1;
                }
            }
            k = k + 1;
        }
        if possible_fields.len() == 0 {
            return;
        }
        let pick = possible_fields[rng.next_below(possible_fields.len())];
        let ghost i = pick as int;
        let tile = &mut self.tiles[pick];
        tile.plow();
        proof {
            assert(final(self)@ =~= m0.update(i, FarmTileV {
                field: Some(FieldTile { crop: None, count: 0 }),
                ..m0[i]
            }));
        }
    }

    /// Every fence currently standing, as pairs of tile index and side:
    /// each listed pair names a fence that is truly set, and every set
    /// fence is listed.
    pub fn current_fences(&self) -> (r: Vec<(usize, &str)>)
        requires
            self.wf(),
        ensures
            forall|m: int| 0 <= m < r@.len() ==> fence_entry_ok(self@, #[trigger] r@[m]),
            forall|i: int| 0 <= i < 15 ==> {
                &&& ((#[trigger] self@[i]).north_fence ==> fence_listed(r@, i, "north"@))
                &&& (self@[i].west_fence ==> fence_listed(r@, i, "west"@))
                &&& (self@[i].south_fence ==> fence_listed(r@, i, "south"@))
                &&& (self@[i].east_fence ==> fence_listed(r@, i, "east"@))
            },
    {
        let mut current_fences: Vec<(usize, &str)> = Vec::new();
        let mut i: usize = 0;
        while i < 15
            invariant
                self.wf(),
                i <= 15,
                forall|m: int| 0 <= m < current_fences@.len()
                    ==> fence_entry_ok(self@, #[trigger] current_fences@[m]),
                forall|t: int| 0 <= t < i ==> {
                    &&& ((#[trigger] self@[t]).north_fence
                        ==> fence_listed(current_fences@, t, "north"@))
                    &&& (self@[t].west_fence ==> fence_listed(current_fences@, t, "west"@))
                    &&& (self@[t].south_fence ==> fence_listed(current_fences@, t, "south"@))
                    &&& (self@[t].east_fence ==> fence_listed(current_fences@, t, "east"@))
                },
            decreases 15 - i,
        {
            proof {
                assert(self@[i as int] == self.tiles@[i as int]@);
            }
            let ghost pre = current_fences@;
            if self.tiles[i].north_fence {
                current_fences.push((i, "north"));
                proof {
                    assert(fence_listed(current_fences@, i as int, "north"@)) by {
                        assert(current_fences@[current_fences@.len() - 1].0 == i);
                    }
                    assert forall|m: int| 0 <= m < current_fences@.len()
                        implies fence_entry_ok(self@, #[trigger] current_fences@[m]) by {
                        if m < pre.len() {
                            assert(current_fences@[m] == pre[m]);
                        } else {
                            assert(current_fences@[m] == current_fences@.last());
                        }
                    }
                }
            }
            let ghost p1 = current_fences@;
            if self.tiles[i].west_fence {
                current_fences.push((i, "west"));
                proof {
                    assert(fence_listed(current_fences@, i as int, "west"@)) by {
                        assert(current_fences@[current_fences@.len() - 1].0 == i);
                    }
                    assert forall|m: int| 0 <= m < current_fences@.len()
                        implies fence_entry_ok(self@, #[trigger] current_fences@[m]) by {
                        if m < p1.len() {
                            assert(current_fences@[m] == p1[m]);
                        } else {
                            assert(current_fences@[m] == current_fences@.last());
                        }
                    }
                }
            }
            let ghost p2 = current_fences@;
            if self.tiles[i].south_fence {
                current_fences.push((i, "south"));
                proof {
                    assert(fence_listed(current_fences@, i as int, "south"@)) by {
                        assert(current_fences@[current_fences@.len() - 1].0 == i);
                    }
                    assert forall|m: int| 0 <= m < current_fences@.len()
                        implies fence_entry_ok(self@, #[trigger] current_fences@[m]) by {
                        if m < p2.len() {
                            assert(current_fences@[m] == p2[m]);
                        } else {
                            assert(current_fences@[m] == current_fences@.last());
                        }
                    }
                }
            }
            let ghost p3 = current_fences@;
            if self.tiles[i].east_fence {
                current_fences.push((i, "east"));
                proof {
                    assert(fence_listed(current_fences@, i as int, "east"@)) by {
                        assert(current_fences@[current_fences@.len() - 1].0 == i);
                    }
                    assert forall|m: int| 0 <= m < current_fences@.len()
                        implies fence_entry_ok(self@, #[trigger] current_fences@[m]) by {
                        if m < p3.len() {
                            assert(current_fences@[m] == p3[m]);
                        } else {
                            assert(current_fences@[m] == current_fences@.last());
                        }
                    }
                }
            }
            proof {
                let now = current_fences@;
                assert forall|m: int| 0 <= m < pre.len() implies #[trigger] now[m] == pre[m] by {}
                // Tile `i`'s set fences are all listed by now.
                if self@[i as int].north_fence {
                    lemma_fence_listed_grows(p1, now, i as int, "north"@);
                }
                if self@[i as int].west_fence {
                    lemma_fence_listed_grows(p2, now, i as int, "west"@);
                }
                if self@[i as int].south_fence {
                    lemma_fence_listed_grows(p3, now, i as int, "south"@);
                }
                // Earlier tiles' listings survive the appends.
                assert forall|t: int| 0 <= t < i implies {
                    &&& ((#[trigger] self@[t]).north_fence ==> fence_listed(now, t, "north"@))
                    &&& (self@[t].west_fence ==> fence_listed(now, t, "west"@))
                    &&& (self@[t].south_fence ==> fence_listed(now, t, "south"@))
                    &&& (self@[t].east_fence ==> fence_listed(now, t, "east"@))
                } by {
                    if self@[t].north_fence {
                        lemma_fence_listed_grows(pre, now, t, "north"@);
                    }
                    if self@[t].west_fence {
                        lemma_fence_listed_grows(pre, now, t, "west"@);
                    }
                    if self@[t].south_fence {
                        lemma_fence_listed_grows(pre, now, t, "south"@);
                    }
                    if self@[t].east_fence {
                        lemma_fence_listed_grows(pre, now, t, "east"@);
                    }
                }
            }
            i = i + 1;
        }
        current_fences
    }



    /// Turns tile `i` into an unsown field.
    pub fn plow_tile(&mut self, i: usize)
        requires
            old(self).wf(),
            i < 15,
        ensures
            final(self).wf(),
            final(self)@ == old(self)@.update(i as int, (FarmTileV {
                field: Some(FieldTile { crop: None, count: 0 }),
                ..old(self)@[i as int]
            })),
    {
        let tile = &mut self.tiles[i];
        tile.plow();
        proof {
            assert(final(self)@ =~= old(self)@.update(i as int, (FarmTileV {
                field: Some(FieldTile { crop: None, count: 0 }),
                ..old(self)@[i as int]
            })));
        }
    }

    /// Builds a room of the given material on tile `i`.
    pub fn build_room_tile(&mut self, i: usize, house: crate::misc::HouseType)
        requires
            old(self).wf(),
            i < 15,
        ensures
            final(self).wf(),
            final(self)@ == old(self)@.update(i as int, (FarmTileV {
                house: Some(house),
                ..old(self)@[i as int]
            })),
    {
        let tile = &mut self.tiles[i];
        tile.build_room(house);
        proof {
            assert(final(self)@ =~= old(self)@.update(i as int, (FarmTileV {
                house: Some(house),
                ..old(self)@[i as int]
            })));
        }
    }

    /// Puts a stable on tile `i`.
    pub fn stable_tile(&mut self, i: usize)
        requires
            old(self).wf(),
            i < 15,
        ensures
            final(self).wf(),
            final(self)@ == old(self)@.update(i as int, (FarmTileV {
                stable: true,
                ..old(self)@[i as int]
            })),
    {
        let tile = &mut self.tiles[i];
        tile.stable();
        proof {
            assert(final(self)@ =~= old(self)@.update(i as int, (FarmTileV {
                stable: true,
                ..old(self)@[i as int]
            })));
        }
    }

    /// Sows two vegetables on tile `i`, if it holds a field.
    pub fn sow_veg_tile(&mut self, i: usize)
        requires
            old(self).wf(),
            i < 15,
        ensures
            final(self).wf(),
            old(self)@[i as int].field is Some ==> final(self)@ == old(self)@.update(i as int, (FarmTileV {
                field: Some(FieldTile { crop: Some(crate::misc::Crop::Vegetable), count: 2 }),
                ..old(self)@[i as int]
            })),
            old(self)@[i as int].field is None ==> final(self)@ == old(self)@,
    {
        let tile = &mut self.tiles[i];
        tile.sow_veg();
        proof {
            if old(self)@[i as int].field is Some {
                assert(final(self)@ =~= old(self)@.update(i as int, (FarmTileV {
                    field: Some(FieldTile { crop: Some(crate::misc::Crop::Vegetable), count: 2 }),
                    ..old(self)@[i as int]
                })));
            } else {
                assert(final(self)@ =~= old(self)@);
            }
        }
    }

    /// Sows three grain on tile `i`, if it holds a field.
    pub fn sow_grain_tile(&mut self, i: usize)
        requires
            old(self).wf(),
            i < 15,
        ensures
            final(self).wf(),
            old(self)@[i as int].field is Some ==> final(self)@ == old(self)@.update(i as int, (FarmTileV {
                field: Some(FieldTile { crop: Some(crate::misc::Crop::Grain), count: 3 }),
                ..old(self)@[i as int]
            })),
            old(self)@[i as int].field is None ==> final(self)@ == old(self)@,
    {
        let tile = &mut self.tiles[i];
        tile.sow_grain();
        proof {
            if old(self)@[i as int].field is Some {
                assert(final(self)@ =~= old(self)@.update(i as int, (FarmTileV {
                    field: Some(FieldTile { crop: Some(crate::misc::Crop::Grain), count: 3 }),
                    ..old(self)@[i as int]
                })));
            } else {
                assert(final(self)@ =~= old(self)@);
            }
        }
    }

    /// Puts `count` animals of the given kind on tile `i`.
    pub fn set_animals_tile(&mut self, i: usize, kind: Option<crate::misc::Animal>, count: usize)
        requires
            old(self).wf(),
            i < 15,
        ensures
            final(self).wf(),
            final(self)@ == old(self)@.update(i as int, (FarmTileV {
                animal_type: kind,
                animal_count: count,
                ..old(self)@[i as int]
            })),
    {
        let tile = &mut self.tiles[i];
        tile.animal_type = kind;
        tile.animal_count = count;
        proof {
            assert(final(self)@ =~= old(self)@.update(i as int, (FarmTileV {
                animal_type: kind,
                animal_count: count,
                ..old(self)@[i as int]
            })));
        }
    }

    /// Upgrades every room on the farm one material step.
    pub fn upgrade_rooms(&mut self)
        requires
            old(self).wf(),
        ensures
            final(self).wf(),
            final(self)@.len() == 15,
            forall|j: int| 0 <= j < 15 ==> {
                &&& (#[trigger] final(self)@[j]).house == (match old(self)@[j].house {
                    Some(crate::misc::HouseType::Wood) => Some(crate::misc::HouseType::Clay),
                    Some(crate::misc::HouseType::Clay) => Some(crate::misc::HouseType::Stone),
                    h => h,
                })
                &&& final(self)@[j] == (FarmTileV { house: final(self)@[j].house, ..old(self)@[j] })
            },
    {
        let mut i: usize = 0;
        while i < 15
            invariant
                self.wf(),
                i <= 15,
                old(self)@.len() == 15,
                forall|j: int| 0 <= j < i ==> {
                    &&& (#[trigger] self@[j]).house == (match old(self)@[j].house {
                        Some(crate::misc::HouseType::Wood) => Some(crate::misc::HouseType::Clay),
                        Some(crate::misc::HouseType::Clay) => Some(crate::misc::HouseType::Stone),
                        h => h,
                    })
                    &&& self@[j] == (FarmTileV { house: self@[j].house, ..old(self)@[j] })
                },
                forall|j: int| i <= j < 15 ==> #[trigger] self@[j] == old(self)@[j],
            decreases 15 - i,
        {
            let ghost msnap = self@;
            if self.tiles[i].house.is_some() {
                let tile = &mut self.tiles[i];
                tile.upgrade();
            }
            proof {
                assert forall|j: int| 0 <= j < 15 && j != i implies #[trigger] self@[j] == msnap[j] by {}
                assert(self@[i as int].index == msnap[i as int].index);
                assert(self@[i as int].surrounding_tiles == msnap[i as int].surrounding_tiles);
                assert(self@.len() == 15);
                assert forall|a: int, b: int| 0 <= a < 15 && 0 <= b < self@[a].surrounding_tiles.len()
                    implies #[trigger] self@[a].surrounding_tiles[b] < 15 by {
                    if a == i {
                        assert(self@[a].surrounding_tiles == msnap[a].surrounding_tiles);
                    }
                }
            }
            i = i + 1;
        }
    }

    /// Replaces the field of tile `i`, changing nothing else.
    pub fn set_field_tile(&mut self, i: usize, f: Option<FieldTile>)
        requires
            old(self).wf(),
            i < 15,
        ensures
            final(self).wf(),
            final(self)@ == old(self)@.update(i as int, (FarmTileV {
                field: f,
                ..old(self)@[i as int]
            })),
    {
        let tile = &mut self.tiles[i];
        tile.field = f;
        proof {
            assert(final(self)@ =~= old(self)@.update(i as int, (FarmTileV {
                field: f,
                ..old(self)@[i as int]
            })));
        }
    }

    /// Marks tile `i` as pasture and raises the requested fences on it.
    fn mark_pasture_tile(&mut self, i: usize, east: bool, west: bool, north: bool, south: bool)
        requires
            old(self).wf(),
            i < 15,
        ensures
            final(self).wf(),
            final(self)@ == old(self)@.update(i as int, (FarmTileV {
                pasture: true,
                east_fence: old(self)@[i as int].east_fence || east,
                west_fence: old(self)@[i as int].west_fence || west,
                north_fence: old(self)@[i as int].north_fence || north,
                south_fence: old(self)@[i as int].south_fence || south,
                ..old(self)@[i as int]
            })),
    {
        let tile = &mut self.tiles[i];
        tile.pasture = true;
        if east {
            tile.east_fence = true;
        }
        if west {
            tile.west_fence = true;
        }
        if north {
            tile.north_fence = true;
        }
        if south {
            tile.south_fence = true;
        }
        proof {
            assert(final(self)@ =~= old(self)@.update(i as int, (FarmTileV {
                pasture: true,
                east_fence: old(self)@[i as int].east_fence || east,
                west_fence: old(self)@[i as int].west_fence || west,
                north_fence: old(self)@[i as int].north_fence || north,
                south_fence: old(self)@[i as int].south_fence || south,
                ..old(self)@[i as int]
            })));
        }
    }

    /// Raises the requested fences on tile `i`, changing nothing else.
    fn raise_fences(&mut self, i: usize, east: bool, west: bool, north: bool, south: bool)
        requires
            old(self).wf(),
            i < 15,
        ensures
            final(self).wf(),
            final(self)@ == old(self)@.update(i as int, (FarmTileV {
                east_fence: old(self)@[i as int].east_fence || east,
                west_fence: old(self)@[i as int].west_fence || west,
                north_fence: old(self)@[i as int].north_fence || north,
                south_fence: old(self)@[i as int].south_fence || south,
                ..old(self)@[i as int]
            })),
    {
        let tile = &mut self.tiles[i];
        if east {
            tile.east_fence = true;
        }
        if west {
            tile.west_fence = true;
        }
        if north {
            tile.north_fence = true;
        }
        if south {
            tile.south_fence = true;
        }
        proof {
            assert(final(self)@ =~= old(self)@.update(i as int, (FarmTileV {
                east_fence: old(self)@[i as int].east_fence || east,
                west_fence: old(self)@[i as int].west_fence || west,
                north_fence: old(self)@[i as int].north_fence || north,
                south_fence: old(self)@[i as int].south_fence || south,
                ..old(self)@[i as int]
            })));
        }
    }

    /// Prices and, if affordable, builds the pasture over `curr_pasture`:
    /// marks its tiles as pasture and raises the missing fences around
    /// them, sharing each raised fence with the bordering tile. Returns
    /// the wood spent, or `None` (leaving the farm untouched) when more
    /// than `available_wood` would be needed.
    #[verifier::rlimit(90)]
    pub fn make_pasture(&mut self, curr_pasture: Vec<usize>, available_wood: usize) -> (r: Option<
        usize,
    >)
        requires
            old(self).wf(),
            curr_pasture@.len() <= 15,
            forall|m: int| 0 <= m < curr_pasture@.len() ==> #[trigger] curr_pasture@[m] < 15,
            forall|m: int| 0 <= m < curr_pasture@.len() ==> {
                let t = old(self)@[#[trigger] curr_pasture@[m] as int];
                t.house is None && t.field is None && !t.pasture
            },
        ensures
            final(self).wf(),
            r is None ==> final(self)@ == old(self)@,
            (r matches Some(w) ==> w <= available_wood
                && pasture_step(old(self)@, final(self)@, curr_pasture@)),
    {
        let ghost m0 = self@;
        // First pass: price the pasture without touching the farm.
        let mut wood_needed: usize = 0;
        let mut k: usize = 0;
        while k < curr_pasture.len()
            invariant
                old(self) == self,
                self.wf(),
                k <= curr_pasture@.len(),
                curr_pasture@.len() <= 15,
                wood_needed <= 4 * k,
                forall|m: int| 0 <= m < curr_pasture@.len() ==> #[trigger] curr_pasture@[m] < 15,
            decreases curr_pasture@.len() - k,
        {
            if wood_needed > available_wood {
                return None;
            }
            let ti = curr_pasture[k];
            proof {
                assert(curr_pasture@[k as int] < 15);
            }
            if ti == 4 || ti == 9 || ti == 14 {
                if !self.tiles[ti].west_fence {
                    wood_needed = wood_needed + 1;
                }
            } else {
                if !contains_usize(&curr_pasture, ti + 1) && !self.tiles[ti].west_fence {
                    wood_needed = wood_needed + 1;
                }
            }
            if ti == 0 || ti == 5 || ti == 10 {
                if !self.tiles[ti].east_fence {
                    wood_needed = wood_needed + 1;
                }
            } else {
                if !contains_usize(&curr_pasture, ti - 1) && !self.tiles[ti].east_fence {
                    wood_needed = wood_needed + 1;
                }
            }
            if ti <= 4 {
                if !self.tiles[ti].north_fence {
                    wood_needed = wood_needed + 1;
                }
            } else {
                if !contains_usize(&curr_pasture, ti - 5) && !self.tiles[ti].north_fence {
                    wood_needed = wood_needed + 1;
                }
            }
            if ti >= 10 {
                if !self.tiles[ti].south_fence {
                    wood_needed = wood_needed + 1;
                }
            } else {
                if !contains_usize(&curr_pasture, ti + 5) && !self.tiles[ti].south_fence {
                    wood_needed = wood_needed + 1;
                }
            }
            k = k + 1;
        }
        if wood_needed > available_wood {
            return None;
        }
        // Second pass: the wood suffices, so set the pasture and fences.
        let mut k: usize = 0;
        while k < curr_pasture.len()
            invariant
                self.wf(),
                k <= curr_pasture@.len(),
                curr_pasture@.len() <= 15,
                forall|m: int| 0 <= m < curr_pasture@.len() ==> #[trigger] curr_pasture@[m] < 15,
                forall|m: int| 0 <= m < curr_pasture@.len() ==> {
                    let t = m0[#[trigger] curr_pasture@[m] as int];
                    t.house is None && t.field is None && !t.pasture
                },
                pasture_step(m0, self@, curr_pasture@.subrange(0, k as int)),
            decreases curr_pasture@.len() - k,
        {
            let ti = curr_pasture[k];
            proof {
                assert(curr_pasture@[k as int] < 15);
            }
            let ghost msnap = self@;
            let right_edge = ti == 4 || ti == 9 || ti == 14;
            let left_edge = ti == 0 || ti == 5 || ti == 10;
            let top_edge = ti <= 4;
            let bottom_edge = ti >= 10;
            let share_right = !right_edge && !contains_usize(&curr_pasture, ti + 1);
            let share_left = !left_edge && !contains_usize(&curr_pasture, ti - 1);
            let share_up = !top_edge && !contains_usize(&curr_pasture, ti - 5);
            let share_down = !bottom_edge && !contains_usize(&curr_pasture, ti + 5);
            self.mark_pasture_tile(
                ti,
                right_edge || share_right,
                left_edge || share_left,
                top_edge || share_up,
                bottom_edge || share_down,
            );
            if share_right {
                self.raise_fences(ti + 1, false, true, false, false);
            }
            if share_left {
                self.raise_fences(ti - 1, true, false, false, false);
            }
            if share_up {
                self.raise_fences(ti - 5, false, false, false, true);
            }
            if share_down {
                self.raise_fences(ti + 5, false, false, true, false);
            }
            proof {
                assert forall|j: int| 0 <= j < 15 implies {
                    &&& (#[trigger] self@[j]).house == msnap[j].house
                    &&& self@[j].field == msnap[j].field
                    &&& self@[j].stable == msnap[j].stable
                    &&& self@[j].animal_type == msnap[j].animal_type
                    &&& self@[j].animal_count == msnap[j].animal_count
                    &&& self@[j].surrounding_tiles == msnap[j].surrounding_tiles
                    &&& self@[j].index == msnap[j].index
                    &&& (j != ti ==> self@[j].pasture == msnap[j].pasture)
                } by {}
                assert(self@[ti as int].pasture);
                assert(curr_pasture@.subrange(0, k + 1)
                    =~= curr_pasture@.subrange(0, k as int).push(curr_pasture@[k as int]));
                assert forall|x: usize| #[trigger] curr_pasture@.subrange(0, k + 1).contains(x)
                    implies curr_pasture@.subrange(0, k as int).contains(x) || x == ti by {}
                assert(curr_pasture@.subrange(0, k + 1)[k as int] == ti);
                assert(curr_pasture@.subrange(0, k + 1).contains(ti));
                assert forall|x: usize| #[trigger] curr_pasture@.subrange(0, k as int).contains(x)
                    implies curr_pasture@.subrange(0, k + 1).contains(x) by {
                    let i = choose|i: int| 0 <= i < k && curr_pasture@.subrange(0, k as int)[i] == x;
                    assert(curr_pasture@.subrange(0, k + 1)[i] == x);
                }
            }
            k = k + 1;
        }
        proof {
            assert(curr_pasture@.subrange(0, curr_pasture@.len() as int) =~= curr_pasture@);
        }
        Some(wood_needed)
    }
}

} // verus!
