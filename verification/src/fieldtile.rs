//! A plowed field on a farm tile: what grows on it and how much remains.

use vstd::prelude::*;
use crate::misc::Crop;

verus! {

/// A field and its remaining crop counters.
#[derive(Debug, Clone, Copy, PartialEq, Eq, Structural)]
pub struct FieldTile {
    pub crop: Option<Crop>,
    pub count: usize,
}

impl FieldTile {
    /// A freshly plowed, unsown field.
    pub fn new() -> (r: FieldTile)
        ensures
            r.crop is None,
            r.count == 0,
    {
        FieldTile { crop: None, count: 0 }
    }

    pub fn new_with_crop(crop: Crop, count: usize) -> (r: FieldTile)
        ensures
            r.crop == Some(crop),
            r.count == count,
    {
        FieldTile { crop: Some(crop), count }
    }

    /// A printable label for what grows here.
    pub fn crop(&self) -> (r: String)
        ensures
            self.crop == Some(Crop::Grain) ==> r@ == "Grain"@,
            self.crop == Some(Crop::Vegetable) ==> r@ == "Veg  "@,
            self.crop is None ==> r@ == "     "@,
    {
        match self.crop {
            Some(Crop::Grain) => "Grain".to_owned(),
            Some(Crop::Vegetable) => "Veg  ".to_owned(),
            None => "     ".to_owned(),
        }
    }

    pub fn count(&self) -> (r: usize)
        ensures
            r == self.count,
    {
        self.count
    }

    /// Whether something grows here (note the inverted sense: a field with
    /// a crop reports `true`).
    pub fn is_empty(&self) -> (r: bool)
        ensures
            r == (self.crop is Some),
    {
        match self.crop {
            None => false,
            Some(_) => true,
        }
    }

    pub fn is_vegetable(&self) -> (r: bool)
        ensures
            r == (self.crop == Some(Crop::Vegetable)),
    {
        if let Some(crop) = self.crop {
            return crop == Crop::Vegetable;
        }
        false
    }

    pub fn is_grain(&self) -> (r: bool)
        ensures
            r == (self.crop == Some(Crop::Grain)),
    {
        if let Some(crop) = self.crop {
            return crop == Crop::Grain;
        }
        false
    }
}

} // verus!
