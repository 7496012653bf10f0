//! Fixed-point arithmetic for the UCT selection score.
//!
//! The engine works without floating point: statistics are kept in integer
//! thousandths (see [`crate::state::REWARD_UNIT`]), and the score
//! `wins/visits + C * sqrt(2 * ln(parent_visits) / visits)` is evaluated in
//! the same fixed-point scale, with an integer floor square root and a
//! base-two logarithm scaled by `ln 2 ~ 0.693`.

use vstd::prelude::*;
use vstd::arithmetic::power2::{pow2, lemma_pow2_strictly_increases, lemma2_to64};

verus! {

/// Thousandths of the natural logarithm of 2.
pub const LN2_MILLI: u64 = 693;

/// The floor of the square root of `x`.
pub open spec fn sqrt_floor(x: nat) -> nat
    decreases x,
{
    if x == 0 {
        0
    } else {
        let r = sqrt_floor((x - 1) as nat);
        if (r + 1) * (r + 1) <= x {
            r + 1
        } else {
            r
        }
    }
}

/// The floor of the base-two logarithm of `n`, with `log2_floor(0) == 0`.
pub open spec fn log2_floor(n: nat) -> nat
    decreases n,
{
    if n <= 1 {
        0
    } else {
        1 + log2_floor(n / 2)
    }
}

/// The natural logarithm of `n` in thousandths, approximated from below
/// through the base-two logarithm.
pub open spec fn ln_milli(n: nat) -> nat {
    log2_floor(n) * (LN2_MILLI as nat)
}

/// The UCT score of a child in thousandths: the exploitation term
/// `wins / visits` plus the exploration term
/// `c * sqrt(2 * ln(parent_visits) / visits)`, all floored fixed-point.
pub open spec fn spec_uct_score(wins: nat, visits: nat, parent_visits: nat, c_milli: nat) -> nat
    recommends
        visits >= 1,
        parent_visits >= 1,
{
    wins / visits + (c_milli * sqrt_floor((2 * ln_milli(parent_visits) * 1000) / visits)) / 1000
}

pub proof fn lemma_sqrt_floor_bounds(x: nat)
    ensures
        sqrt_floor(x) * sqrt_floor(x) <= x,
        x < (sqrt_floor(x) + 1) * (sqrt_floor(x) + 1),
    decreases x,
{
    let s = sqrt_floor(x);
    if x == 0 {
        assert(s == 0);
        assert((s + 1) * (s + 1) == 1) by (nonlinear_arith)
            requires
                s == 0,
        ;
        assert(x < (s + 1) * (s + 1));
    } else {
        lemma_sqrt_floor_bounds((x - 1) as nat);
        let r = sqrt_floor((x - 1) as nat);
        assert(r * r <= x - 1 && x - 1 < (r + 1) * (r + 1));
        if (r + 1) * (r + 1) <= x {
            assert(s == r + 1);
            assert(x == (r + 1) * (r + 1));
            assert(s * s == (r + 1) * (r + 1)) by (nonlinear_arith)
                requires
                    s == r + 1,
            ;
            assert((s + 1) * (s + 1) > x) by (nonlinear_arith)
                requires
                    s == r + 1,
                    x == (r + 1) * (r + 1),
            ;
        } else {
            assert(s == r);
            assert(s * s <= x) by (nonlinear_arith)
                requires
                    s == r,
                    r * r <= x,
            ;
            assert(x < (s + 1) * (s + 1)) by (nonlinear_arith)
                requires
                    s == r,
                    x < (r + 1) * (r + 1),
            ;
        }
    }
    assert(s * s <= x);
    assert(x < (s + 1) * (s + 1));
}

pub proof fn lemma_sqrt_floor_unique(x: nat, r: nat)
    requires
        r * r <= x,
        x < (r + 1) * (r + 1),
    ensures
        r == sqrt_floor(x),
{
    let s = sqrt_floor(x);
    lemma_sqrt_floor_bounds(x);
    if r < s {
        assert((r + 1) * (r + 1) <= s * s) by (nonlinear_arith)
            requires
                r + 1 <= s,
        ;
    }
    if s < r {
        assert((s + 1) * (s + 1) <= r * r) by (nonlinear_arith)
            requires
                s + 1 <= r,
        ;
    }
}

/// The integer floor square root, by bisection.
pub fn isqrt(x: u64) -> (r: u64)
    requires
        x < 0x4000_0000_0000_0000,
    ensures
        r == sqrt_floor(x as nat),
{
    let mut lo: u64 = 0;
    let mut hi: u64 = 0x8000_0000;
    assert(hi * hi > x);
    while lo + 1 < hi
        invariant
            lo < hi,
            lo * lo <= x,
            x < hi * hi,
            hi <= 0x8000_0000,
        decreases hi - lo,
    {
        let mid = lo + (hi - lo) / 2;
        proof {
            assert(mid < hi);
            assert(mid * mid <= 0x4000_0000_0000_0000) by (nonlinear_arith)
                requires
                    mid <= 0x8000_0000u64,
            ;
        }
        if mid * mid <= x {
            lo = mid;
        } else {
            hi = mid;
        }
    }
    proof {
        lemma_sqrt_floor_unique(x as nat, lo as nat);
    }
    lo
}

/// The integer floor base-two logarithm.
pub fn ilog2(n: u64) -> (e: u64)
    requires
        n >= 1,
    ensures
        e == log2_floor(n as nat),
        e < 64,
{
    let mut m: u64 = n;
    let mut e: u64 = 0;
    proof {
        lemma2_to64();
        assert(pow2(0) == 1);
    }
    while m > 1
        invariant
            m >= 1,
            pow2(e as nat) * m <= n,
            log2_floor(n as nat) == e + log2_floor(m as nat),
            e < 64,
        decreases m,
    {
        proof {
            assert(pow2((e + 1) as nat) == 2 * pow2(e as nat)) by {
                vstd::arithmetic::power2::lemma_pow2_unfold((e + 1) as nat);
            }
            assert(pow2((e + 1) as nat) * (m as nat / 2) <= pow2(e as nat) * m) by (nonlinear_arith)
                requires
                    m >= 2,
                    pow2((e + 1) as nat) == 2 * pow2(e as nat),
            ;
            if e + 1 >= 64 {
                if e + 1 > 64 {
                    lemma_pow2_strictly_increases(64, (e + 1) as nat);
                }
                assert(pow2((e + 1) as nat) >= pow2(64));
                assert(pow2((e + 1) as nat) * (m as nat / 2) >= pow2((e + 1) as nat)) by (nonlinear_arith)
                    requires
                        m as nat / 2 >= 1,
                        pow2((e + 1) as nat) >= 0,
                ;
                assert(pow2(64) == 0x10000000000000000) by {
                    lemma2_to64();
                }
                assert(false);
            }
        }
        m = m / 2;
        e = e + 1;
    }
    e
}

/// The UCT score of a child, in thousandths.
pub fn uct_score(wins: u64, visits: u64, parent_visits: u64, c_milli: u32) -> (s: u64)
    requires
        visits >= 1,
        parent_visits >= 1,
        wins <= visits * crate::state::REWARD_UNIT,
    ensures
        s == spec_uct_score(wins as nat, visits as nat, parent_visits as nat, c_milli as nat),
{
    let exploit = wins / visits;
    assert(exploit <= 1000) by (nonlinear_arith)
        requires
            visits >= 1,
            wins <= visits * 1000,
            exploit == wins / visits,
    ;
    let e = ilog2(parent_visits);
    let ln_scaled = e * LN2_MILLI;
    let radicand = (2 * ln_scaled * 1000) / visits;
    assert(radicand <= 2 * 63 * 693 * 1000) by (nonlinear_arith)
        requires
            visits >= 1,
            ln_scaled <= 63 * 693,
            radicand == ((2 * ln_scaled * 1000) as u64) / visits,
    ;
    let root = isqrt(radicand);
    proof {
        lemma_sqrt_floor_bounds(radicand as nat);
        assert(root * root <= radicand);
        assert(root <= 10000) by (nonlinear_arith)
            requires
                root * root <= radicand,
                radicand <= 87318000,
        ;
    }
    assert(c_milli as u64 * root <= 0xffff_ffffu64 * 10000) by (nonlinear_arith)
        requires
            root <= 10000,
            c_milli as u64 <= 0xffff_ffffu64,
    ;
    let explore = (c_milli as u64 * root) / 1000;
    exploit + explore
}

} // verus!
