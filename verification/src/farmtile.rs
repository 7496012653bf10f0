//! One of the fifteen tiles of a farm: it can hold a room, a field, a
//! stable, fences and animals, and knows which tiles border it.

use vstd::prelude::*;
use crate::fieldtile::FieldTile;
use crate::misc::{copy_vec, Animal, Crop, HouseType};

verus! {

/// The mathematical image of a farm tile.
pub ghost struct FarmTileV {
    pub house: Option<HouseType>,
    pub stable: bool,
    pub pasture: bool,
    pub animal_type: Option<Animal>,
    pub animal_count: usize,
    pub north_fence: bool,
    pub south_fence: bool,
    pub east_fence: bool,
    pub west_fence: bool,
    pub field: Option<FieldTile>,
    pub surrounding_tiles: Seq<usize>,
    pub index: usize,
}

/// One tile of the three-by-five farm grid.
#[derive(Debug)]
pub struct FarmTile {
    pub house: Option<HouseType>,
    pub stable: bool,
    pub pasture: bool,
    pub animal_type: Option<Animal>,
    pub animal_count: usize,
    pub north_fence: bool,
    pub south_fence: bool,
    pub east_fence: bool,
    pub west_fence: bool,
    pub field: Option<FieldTile>,
    pub surrounding_tiles: Vec<usize>,
    pub index: usize,
}

impl View for FarmTile {
    type V = FarmTileV;

    open spec fn view(&self) -> FarmTileV {
        FarmTileV {
            house: self.house,
            stable: self.stable,
            pasture: self.pasture,
            animal_type: self.animal_type,
            animal_count: self.animal_count,
            north_fence: self.north_fence,
            south_fence: self.south_fence,
            east_fence: self.east_fence,
            west_fence: self.west_fence,
            field: self.field,
            surrounding_tiles: self.surrounding_tiles@,
            index: self.index,
        }
    }
}

impl Clone for FarmTile {
    fn clone(&self) -> (r: Self)
        ensures
            r@ == self@,
    {
        FarmTile {
            house: self.house,
            stable: self.stable,
            pasture: self.pasture,
            animal_type: self.animal_type,
            animal_count: self.animal_count,
            north_fence: self.north_fence,
            south_fence: self.south_fence,
            east_fence: self.east_fence,
            west_fence: self.west_fence,
            field: self.field,
            surrounding_tiles: copy_vec(&self.surrounding_tiles),
            index: self.index,
        }
    }
}

impl FarmTile {
    /// A bare tile at grid position `index`, with no neighbours recorded
    /// yet.
    pub fn new(index: usize) -> (r: FarmTile)
        ensures
            r@ == (FarmTileV {
                house: None,
                stable: false,
                pasture: false,
                animal_type: None,
                animal_count: 0,
                north_fence: false,
                south_fence: false,
                east_fence: false,
                west_fence: false,
                field: None,
                surrounding_tiles: Seq::empty(),
                index,
            }),
    {
        let r = FarmTile {
            house: None,
            stable: false,
            pasture: false,
            animal_type: None,
            animal_count: 0,
            north_fence: false,
            south_fence: false,
            east_fence: false,
            west_fence: false,
            field: None,
            surrounding_tiles: Vec::new(),
            index,
        };
        proof {
            assert(r@.surrounding_tiles =~= Seq::<usize>::empty());
        }
        r
    }

    /// Whether nothing at all stands on the tile.
    pub fn is_empty(&self) -> (r: bool)
        ensures
            r == (self.house is None && self.field is None && !self.pasture && !self.stable),
    {
        self.house.is_none() && self.field.is_none() && !self.pasture && !self.stable
    }

    /// Whether the tile may become part of a pasture.
    pub fn can_be_fenced(&self) -> (r: bool)
        ensures
            r == (self.house is None && self.field is None && !self.pasture),
    {
        self.house.is_none() && self.field.is_none() && !self.pasture
    }

    /// Turns the tile into an unsown field.
    pub fn plow(&mut self)
        ensures
            final(self)@ == (FarmTileV { field: Some(FieldTile { crop: None, count: 0 }), ..old(self)@ }),
    {
        self.field = Some(FieldTile::new());
    }

    /// Builds a room of the given material on the tile.
    pub fn build_room(&mut self, house_type: HouseType)
        ensures
            final(self)@ == (FarmTileV { house: Some(house_type), ..old(self)@ }),
    {
        self.house = Some(house_type);
    }

    /// Puts a stable on the tile.
    pub fn stable(&mut self)
        ensures
            final(self)@ == (FarmTileV { stable: true, ..old(self)@ }),
    {
        self.stable = true;
    }

    /// Sows two vegetables, if the tile holds a field.
    pub fn sow_veg(&mut self)
        ensures
            old(self).field is Some ==> final(self)@ == (FarmTileV {
                field: Some(FieldTile { crop: Some(Crop::Vegetable), count: 2 }),
                ..old(self)@
            }),
            old(self).field is None ==> final(self)@ == old(self)@,
    {
        if self.field.is_some() {
            self.field = Some(FieldTile { crop: Some(Crop::Vegetable), count: 2 });
        }
    }

    /// Sows three grain, if the tile holds a field.
    pub fn sow_grain(&mut self)
        ensures
            old(self).field is Some ==> final(self)@ == (FarmTileV {
                field: Some(FieldTile { crop: Some(Crop::Grain), count: 3 }),
                ..old(self)@
            }),
            old(self).field is None ==> final(self)@ == old(self)@,
    {
        if self.field.is_some() {
            self.field = Some(FieldTile { crop: Some(Crop::Grain), count: 3 });
        }
    }

    /// Upgrades the room one material step: wood to clay, clay to stone.
    pub fn upgrade(&mut self)
        ensures
            old(self).house == Some(HouseType::Wood)
                ==> final(self)@ == (FarmTileV { house: Some(HouseType::Clay), ..old(self)@ }),
            old(self).house == Some(HouseType::Clay)
                ==> final(self)@ == (FarmTileV { house: Some(HouseType::Stone), ..old(self)@ }),
            (old(self).house == Some(HouseType::Stone) || old(self).house is None)
                ==> final(self)@ == old(self)@,
    {
        match self.house {
            Some(HouseType::Wood) => self.house = Some(HouseType::Clay),
            Some(HouseType::Clay) => self.house = Some(HouseType::Stone),
            _ => {},
        }
    }
}

} // verus!
