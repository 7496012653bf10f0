//! The major improvement cards a farm can buy, each at most once per game.

use vstd::prelude::*;

verus! {

/// A major improvement card. The numeric suffixes are the card costs that
/// distinguish the two fireplaces and the two cooking hearths.
#[allow(non_camel_case_types)]
#[derive(Debug, Clone, Copy, PartialEq, Eq, Structural)]
pub enum MajorImprovement {
    Fireplace_2,
    Fireplace_3,
    CookingHearth_4,
    CookingHearth_5,
    ClayOven,
    StoneOven,
    Pottery,
    Joinery,
    BasketmakersWorkshop,
    Well,
}

/// Whether the card `x` is among `v`.
pub fn has_improvement(v: &Vec<MajorImprovement>, x: MajorImprovement) -> (b: bool)
    ensures
        b == v@.contains(x),
{
    let mut k: usize = 0;
    while k < v.len()
        invariant
            k <= v@.len(),
            forall|m: int| 0 <= m < k ==> v@[m] != x,
        decreases v@.len() - k,
    {
        if v[k] == x {
            return true;
        }
        k = k + 1;
    }
    false
}

/// The position of the card `x` in `v`, if it is there.
pub fn improvement_position(v: &Vec<MajorImprovement>, x: MajorImprovement) -> (r: Option<usize>)
    ensures
        (match r {
            Some(i) => 0 <= i < v@.len() && v@[i as int] == x,
            None => !v@.contains(x),
        }),
{
    let mut k: usize = 0;
    while k < v.len()
        invariant
            k <= v@.len(),
            forall|m: int| 0 <= m < k ==> v@[m] != x,
        decreases v@.len() - k,
    {
        if v[k] == x {
            return Some(k);
        }
        k = k + 1;
    }
    None
}

} // verus!
