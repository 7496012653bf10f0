//! Small shared pieces of the farming game: material, animal and crop
//! kinds, and helpers for copying plain vectors with their contents intact.

use vstd::prelude::*;

verus! {

/// What a farm house is built from.
#[derive(Debug, Clone, Copy, PartialEq, Eq, Structural)]
pub enum HouseType {
    Wood,
    Clay,
    Stone,
}

/// The livestock kinds.
#[derive(Debug, Clone, Copy, PartialEq, Eq, Structural)]
pub enum Animal {
    Sheep,
    Boar,
    Cattle,
}

/// The crop kinds.
#[derive(Debug, Clone, Copy, PartialEq, Eq, Structural)]
pub enum Crop {
    Grain,
    Vegetable,
}

/// An element-for-element copy of a vector of plain values.
pub fn copy_vec<T: Copy>(v: &Vec<T>) -> (r: Vec<T>)
    ensures
        r@ == v@,
{
    let mut r: Vec<T> = Vec::new();
    let mut k: usize = 0;
    while k < v.len()
        invariant
            k <= v@.len(),
            r@ == v@.subrange(0, k as int),
        decreases v@.len() - k,
    {
        r.push(v[k]);
        proof {
            assert(r@ =~= v@.subrange(0, k + 1));
        }
        k = k + 1;
    }
    proof {
        assert(r@ =~= v@);
    }
    r
}

/// Whether `x` occurs in `v`.
pub fn contains_usize(v: &Vec<usize>, x: usize) -> (b: bool)
    ensures
        b == v@.contains(x),
{
    let mut k: usize = 0;
    while k < v.len()
        invariant
            k <= v@.len(),
            forall|m: int| 0 <= m < k ==> v@[m] != x,
        decreases v@.len() - k,
    {
        if v[k] == x {
            return true;
        }
        k = k + 1;
    }
    false
}

/// Whether `x` occurs in `v`.
pub fn contains_u32(v: &Vec<u32>, x: u32) -> (b: bool)
    ensures
        b == v@.contains(x),
{
    let mut k: usize = 0;
    while k < v.len()
        invariant
            k <= v@.len(),
            forall|m: int| 0 <= m < k ==> v@[m] != x,
        decreases v@.len() - k,
    {
        if v[k] == x {
            return true;
        }
        k = k + 1;
    }
    false
}

/// An element-for-element copy of a vector of strings.
pub fn copy_strings(v: &Vec<String>) -> (r: Vec<String>)
    ensures
        r@ == v@,
{
    let mut r: Vec<String> = Vec::new();
    let mut k: usize = 0;
    while k < v.len()
        invariant
            k <= v@.len(),
            r@ == v@.subrange(0, k as int),
        decreases v@.len() - k,
    {
        r.push(v[k].clone());
        proof {
            assert(r@ =~= v@.subrange(0, k + 1));
        }
        k = k + 1;
    }
    proof {
        assert(r@ =~= v@);
    }
    r
}

} // verus!
