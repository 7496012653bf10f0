//! A fenced pasture: the tiles it spans, its stables, and its animal
//! capacity.

use vstd::prelude::*;
use crate::misc::{copy_vec, Animal};

verus! {

/// The mathematical image of a pasture.
pub ghost struct PastureV {
    pub tiles: Seq<usize>,
    pub stables: usize,
    pub capacity: usize,
    pub kind: Option<Animal>,
}

/// A fenced group of tiles holding one kind of animal.
#[derive(Debug)]
pub struct Pasture {
    pub tiles: Vec<usize>,
    pub stables: usize,
    pub capacity: usize,
    pub kind: Option<Animal>,
}

impl View for Pasture {
    type V = PastureV;

    open spec fn view(&self) -> PastureV {
        PastureV {
            tiles: self.tiles@,
            stables: self.stables,
            capacity: self.capacity,
            kind: self.kind,
        }
    }
}

impl Clone for Pasture {
    fn clone(&self) -> (r: Self)
        ensures
            r@ == self@,
    {
        Pasture {
            tiles: copy_vec(&self.tiles),
            stables: self.stables,
            capacity: self.capacity,
            kind: self.kind,
        }
    }
}

impl Pasture {
    /// A pasture over `tiles` with `stables` stables in it: each tile
    /// holds two animals, and each stable doubles its tile once.
    pub fn new(tiles: Vec<usize>, stables: usize) -> (r: Pasture)
        requires
            tiles@.len() <= 15,
            stables <= 60,
        ensures
            r@.tiles == tiles@,
            r@.stables == stables,
            r@.capacity == tiles@.len() * (2 + stables),
            r@.kind is None,
    {
        proof {
            assert(tiles@.len() * (2 + stables) <= 15 * 62) by (nonlinear_arith)
                requires
                    tiles@.len() <= 15,
                    stables <= 60,
            ;
        }
        let capacity = tiles.len() * (2 + stables);
        Pasture { stables, capacity, tiles, kind: None }
    }
}

} // verus!
