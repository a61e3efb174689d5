//! Checked satoshi sums over output values and compacted inputs.

use vstd::prelude::*;
use crate::codec::CompactedTxIn;

verus! {

/// The sum of the first `k` values of `s`.
pub open spec fn sum_prefix(s: Seq<u64>, k: int) -> int
    decreases k,
{
    if k <= 0 {
        0
    } else {
        sum_prefix(s, k - 1) + s[k - 1]
    }
}

/// The sum of the `prev_value` fields of the first `k` inputs of `s`.
pub open spec fn sum_in_prefix(s: Seq<CompactedTxIn>, k: int) -> int
    decreases k,
{
    if k <= 0 {
        0
    } else {
        sum_in_prefix(s, k - 1) + s[k - 1].prev_value
    }
}

pub proof fn lemma_sum_prefix_bound(s: Seq<u64>, k: int)
    requires
        0 <= k <= s.len(),
    ensures
        0 <= sum_prefix(s, k),
        sum_prefix(s, k) <= k * 0xffff_ffff_ffff_ffff,
    decreases k,
{
    if k > 0 {
        lemma_sum_prefix_bound(s, k - 1);
        assert((k - 1) * 0xffff_ffff_ffff_ffff + 0xffff_ffff_ffff_ffff
            == k * 0xffff_ffff_ffff_ffff) by (nonlinear_arith);
    }
}

pub proof fn lemma_sum_in_prefix_bound(s: Seq<CompactedTxIn>, k: int)
    requires
        0 <= k <= s.len(),
    ensures
        0 <= sum_in_prefix(s, k),
        sum_in_prefix(s, k) <= k * 0xffff_ffff_ffff_ffff,
    decreases k,
{
    if k > 0 {
        lemma_sum_in_prefix_bound(s, k - 1);
        assert((k - 1) * 0xffff_ffff_ffff_ffff + 0xffff_ffff_ffff_ffff
            == k * 0xffff_ffff_ffff_ffff) by (nonlinear_arith);
    }
}

/// Sums of nonnegative values grow with the prefix length.
pub proof fn lemma_sum_prefix_mono(s: Seq<u64>, a: int, b: int)
    requires
        0 <= a <= b <= s.len(),
    ensures
        sum_prefix(s, a) <= sum_prefix(s, b),
    decreases b,
{
    if a < b {
        lemma_sum_prefix_mono(s, a, b - 1);
    }
}

pub proof fn lemma_sum_in_prefix_mono(s: Seq<CompactedTxIn>, a: int, b: int)
    requires
        0 <= a <= b <= s.len(),
    ensures
        sum_in_prefix(s, a) <= sum_in_prefix(s, b),
    decreases b,
{
    if a < b {
        lemma_sum_in_prefix_mono(s, a, b - 1);
    }
}

/// Sums all values, or reports that the total exceeds `u64::MAX`.
pub fn checked_sum(v: &Vec<u64>) -> (r: Option<u64>)
    ensures
        match r {
            Some(t) => t == sum_prefix(v@, v@.len() as int),
            None => sum_prefix(v@, v@.len() as int) > u64::MAX,
        },
{
    let n = v.len();
    let mut acc: u128 = 0;
    let mut k: usize = 0;
    while k < n
        invariant
            n == v@.len(),
            k <= n,
            acc == sum_prefix(v@, k as int),
        decreases n - k,
    {
        proof {
            lemma_sum_prefix_bound(v@, k as int + 1);
            assert((k as int + 1) * 0xffff_ffff_ffff_ffff
                < 0x1_0000_0000_0000_0000_0000_0000_0000_0000) by (nonlinear_arith)
                requires
                    k as int + 1 < 0x1_0000_0000_0000_0000;
        }
        acc = acc + (v[k] as u128);
        k = k + 1;
    }
    if acc > u64::MAX as u128 {
        None
    } else {
        Some(acc as u64)
    }
}

/// Sums all input values, or reports that the total exceeds `u64::MAX`.
pub fn checked_sum_inputs(v: &Vec<CompactedTxIn>) -> (r: Option<u64>)
    ensures
        match r {
            Some(t) => t == sum_in_prefix(v@, v@.len() as int),
            None => sum_in_prefix(v@, v@.len() as int) > u64::MAX,
        },
{
    let n = v.len();
    let mut acc: u128 = 0;
    let mut k: usize = 0;
    while k < n
        invariant
            n == v@.len(),
            k <= n,
            acc == sum_in_prefix(v@, k as int),
        decreases n - k,
    {
        proof {
            lemma_sum_in_prefix_bound(v@, k as int + 1);
            assert((k as int + 1) * 0xffff_ffff_ffff_ffff
                < 0x1_0000_0000_0000_0000_0000_0000_0000_0000) by (nonlinear_arith)
                requires
                    k as int + 1 < 0x1_0000_0000_0000_0000;
        }
        acc = acc + (v[k].prev_value as u128);
        k = k + 1;
    }
    if acc > u64::MAX as u128 {
        None
    } else {
        Some(acc as u64)
    }
}

} // verus!
