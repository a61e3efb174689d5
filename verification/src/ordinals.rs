//! The Bitcoin supply schedule: block subsidies and the ordinal number of
//! the first satoshi minted at a given height.
//!
//! One halving epoch spans 210,000 blocks; the initial subsidy is
//! 5,000,000,000 satoshis and halves (rounding down) once per epoch.

use vstd::prelude::*;

verus! {

/// The block subsidy, in satoshis, during epoch `e`.
pub open spec fn spec_subsidy(e: nat) -> nat
    decreases e,
{
    if e == 0 {
        5_000_000_000
    } else {
        spec_subsidy((e - 1) as nat) / 2
    }
}

/// The ordinal number of the first satoshi minted at height `h`: the sum of
/// the subsidies of all earlier heights.
pub open spec fn spec_starting_sat(h: nat) -> nat
    decreases h,
{
    if h == 0 {
        0
    } else {
        spec_starting_sat((h - 1) as nat) + spec_subsidy((h - 1) as nat / 210_000)
    }
}

/// Walking a run of heights that all sit inside epoch `e` adds one subsidy
/// per height.
proof fn lemma_starting_sat_run(lo: nat, hi: nat, e: nat)
    requires
        lo <= hi,
        e * 210_000 <= lo,
        hi <= (e + 1) * 210_000,
    ensures
        spec_starting_sat(hi) == spec_starting_sat(lo) + (hi - lo) * spec_subsidy(e),
    decreases hi - lo,
{
    if lo < hi {
        lemma_starting_sat_run(lo, (hi - 1) as nat, e);
        assert((hi - 1) as nat / 210_000 == e) by (nonlinear_arith)
            requires
                e * 210_000 <= hi - 1,
                hi - 1 < (e + 1) * 210_000;
        assert(spec_starting_sat(hi)
            == spec_starting_sat((hi - 1) as nat) + spec_subsidy(e));
        assert((hi - lo) * spec_subsidy(e)
            == (hi - 1 - lo) * spec_subsidy(e) + spec_subsidy(e)) by (nonlinear_arith);
    } else {
        assert((hi - lo) * spec_subsidy(e) == 0) by (nonlinear_arith)
            requires
                hi == lo;
    }
}

/// The ordinal number of the first satoshi minted at height `height`.
///
/// Walks the completed epochs, adding a full epoch of each epoch's subsidy,
/// then the partial epoch that contains `height`.  Total supply is bounded,
/// so the accumulator never overflows.
pub fn starting_sat(height: u32) -> (r: u64)
    ensures
        r == spec_starting_sat(height as nat),
{
    let h: u64 = height as u64;
    let full_epochs: u64 = h / 210_000;
    let mut acc: u64 = 0;
    let mut subsidy: u64 = 5_000_000_000;
    let mut e: u64 = 0;
    while e < full_epochs
        invariant
            full_epochs == h / 210_000,
            h <= u32::MAX,
            e <= full_epochs,
            subsidy == spec_subsidy(e as nat),
            acc == spec_starting_sat((e * 210_000) as nat),
            acc + 420_000 * subsidy <= 2_100_000_000_000_000,
        decreases full_epochs - e,
    {
        proof {
            lemma_starting_sat_run(
                (e * 210_000) as nat,
                ((e + 1) * 210_000) as nat,
                e as nat,
            );
        }
        acc = acc + 210_000 * subsidy;
        subsidy = subsidy / 2;
        e = e + 1;
    }
    let rem: u64 = h % 210_000;
    proof {
        lemma_starting_sat_run(
            (full_epochs * 210_000) as nat,
            h as nat,
            full_epochs as nat,
        );
        assert(h - full_epochs * 210_000 == rem);
        assert(rem * subsidy <= 210_000 * subsidy) by (nonlinear_arith)
            requires
                rem < 210_000,
                subsidy >= 0;
    }
    acc + rem * subsidy
}

} // verus!
