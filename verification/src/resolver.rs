//! The satoshi-point resolver: a backward walk over compacted blocks that
//! finds the block, offset and ordinal number of the satoshi carrying the
//! first sat of a transaction's first output.
//!
//! `resolve_from` is the algorithm as a mathematical function of the store's
//! contents; the executable walk returns exactly its value.

use vstd::prelude::*;
use vstd::string::*;
use rusqlite::Connection;
use crate::codec::{block_of_hex, CompactedBlock, CompactedBlockView, CompactedTx, CompactedTxIn,
    CompactedTxView};
use crate::errors::HordError;
use crate::identifiers::{prefixed_txid_prefix_of, BlockIdentifier, TransactionIdentifier};
use crate::ordinals::{spec_starting_sat, starting_sat};
use crate::store::{blocks_of, query_block_row, schema_ready};
use crate::sums::{lemma_sum_in_prefix_bound, lemma_sum_in_prefix_mono, lemma_sum_prefix_bound,
    lemma_sum_prefix_mono, sum_in_prefix, sum_prefix};

verus! {

/// The sum of a transaction's input values.
pub open spec fn tx_total_in(t: CompactedTxView) -> int {
    sum_in_prefix(t.inputs, t.inputs.len() as int)
}

/// The sum of a transaction's output values.
pub open spec fn tx_total_out(t: CompactedTxView) -> int {
    sum_prefix(t.outputs, t.outputs.len() as int)
}

/// The sum of the input values of the first `k` transactions.
pub open spec fn block_in_total(txs: Seq<CompactedTxView>, k: int) -> int
    decreases k,
{
    if k <= 0 {
        0
    } else {
        block_in_total(txs, k - 1) + tx_total_in(txs[k - 1])
    }
}

/// Whether a stored block's value sums are consistent: every transaction
/// pays out at most what it takes in, and the block's total input value fits
/// a u64.  The resolver's arithmetic is exact under this check; a block that
/// fails it is reported as corrupt.
pub open spec fn block_sums_ok(b: CompactedBlockView) -> bool {
    &&& block_in_total(b.transactions, b.transactions.len() as int) <= u64::MAX
    &&& forall|i: int| 0 <= i < b.transactions.len()
        ==> tx_total_out(#[trigger] b.transactions[i]) <= tx_total_in(b.transactions[i])
}

/// The fees of the first `k` transactions, accumulated in block order.
pub open spec fn acc_fees(txs: Seq<CompactedTxView>, k: int) -> int
    decreases k,
{
    if k <= 0 {
        0
    } else {
        acc_fees(txs, k - 1) + (tx_total_in(txs[k - 1]) - tx_total_out(txs[k - 1]))
    }
}

/// The first transaction index at or after `k` whose accumulated fees
/// exceed `cutoff`.
pub open spec fn find_fee_tx(txs: Seq<CompactedTxView>, cutoff: int, k: nat) -> Option<int>
    decreases txs.len() - k,
{
    if k >= txs.len() {
        None
    } else if acc_fees(txs, k as int + 1) > cutoff {
        Some(k as int)
    } else {
        find_fee_tx(txs, cutoff, k + 1)
    }
}

/// The first input index at or after `j` whose cumulative value reaches
/// `target`.
pub open spec fn find_input(inputs: Seq<CompactedTxIn>, target: int, j: nat) -> Option<int>
    decreases inputs.len() - j,
{
    if j >= inputs.len() {
        None
    } else if sum_in_prefix(inputs, j as int + 1) >= target {
        Some(j as int)
    } else {
        find_input(inputs, target, j + 1)
    }
}

/// The first transaction index at or after `k` whose txid prefix matches.
pub open spec fn find_tx(txs: Seq<CompactedTxView>, prefix: u32, k: nat) -> Option<int>
    decreases txs.len() - k,
{
    if k >= txs.len() {
        None
    } else if txs[k as int].txid_prefix == prefix {
        Some(k as int)
    } else {
        find_tx(txs, prefix, k + 1)
    }
}

/// What one visited block decides: the satoshi is native to this coinbase
/// (`Done`), the walk hops to an earlier block (`Hop`), or the store is
/// inconsistent (`Fail`).
pub enum ResolveStep {
    Done { offset: u64 },
    Hop { height: u32, offset: u64, prefix: u32, vout: u64 },
    Fail { err: HordError },
}

/// The hop taken by selecting input `j` of transaction `t` for `target`
/// cumulative satoshis.  Inputs must reference a strictly earlier block.
pub open spec fn hop_from(t: CompactedTxView, j: int, target: int, height: u32) -> ResolveStep {
    let inp = t.inputs[j];
    let new_off = target - sum_in_prefix(t.inputs, j);
    if inp.prev_block_height < height {
        ResolveStep::Hop {
            height: inp.prev_block_height,
            offset: new_off as u64,
            prefix: inp.prev_txid_prefix,
            vout: inp.prev_vout as u64,
        }
    } else {
        ResolveStep::Fail { err: HordError::OrphanReference }
    }
}

/// One step of the walk on a decoded block.
pub open spec fn resolve_step(
    b: CompactedBlockView,
    height: u32,
    offset: u64,
    prefix: u32,
    vout: u64,
) -> ResolveStep {
    if !block_sums_ok(b) {
        ResolveStep::Fail { err: HordError::CorruptBlob }
    } else if prefix == b.coinbase_txid_prefix {
        if offset < b.coinbase_value {
            ResolveStep::Done { offset }
        } else {
            let cut = offset - b.coinbase_value;
            match find_fee_tx(b.transactions, cut, 0) {
                None => ResolveStep::Fail { err: HordError::CorruptBlob },
                Some(k) => {
                    let t = b.transactions[k];
                    match find_input(t.inputs, tx_total_out(t), 0) {
                        None => ResolveStep::Fail { err: HordError::CorruptBlob },
                        Some(j) => hop_from(t, j, tx_total_out(t), height),
                    }
                },
            }
        }
    } else {
        match find_tx(b.transactions, prefix, 0) {
            None => ResolveStep::Fail { err: HordError::OrphanReference },
            Some(k) => {
                let t = b.transactions[k];
                let upto = if vout < t.outputs.len() {
                    vout as int
                } else {
                    t.outputs.len() as int
                };
                let sats_out = sum_prefix(t.outputs, upto) + offset;
                match find_input(t.inputs, sats_out, 0) {
                    None => ResolveStep::Fail { err: HordError::CorruptBlob },
                    Some(j) => hop_from(t, j, sats_out, height),
                }
            },
        }
    }
}

/// The whole backward walk over the stored blocks, from one cursor state.
pub open spec fn resolve_from(
    blocks: Map<u32, Seq<char>>,
    height: u32,
    offset: u64,
    prefix: u32,
    vout: u64,
) -> Result<(u64, u64, u64), HordError>
    decreases height,
{
    if !blocks.contains_key(height) {
        Err(HordError::MissingBlock(height))
    } else {
        match block_of_hex(blocks[height]) {
            None => Err(HordError::CorruptBlob),
            Some(b) => match resolve_step(b, height, offset, prefix, vout) {
                ResolveStep::Fail { err } => Err(err),
                ResolveStep::Done { offset: off } => if spec_starting_sat(height as nat) + off
                    <= u64::MAX {
                    Ok((height as u64, off, (spec_starting_sat(height as nat) + off) as u64))
                } else {
                    Err(HordError::CorruptBlob)
                },
                ResolveStep::Hop { height: h2, offset: o2, prefix: p2, vout: v2 } => if h2
                    < height {
                    resolve_from(blocks, h2, o2, p2, v2)
                } else {
                    Err(HordError::OrphanReference)
                },
            },
        }
    }
}

/// Every step that hops moves to a strictly smaller height: the walk
/// terminates.
pub proof fn lemma_resolver_descends(
    b: CompactedBlockView,
    height: u32,
    offset: u64,
    prefix: u32,
    vout: u64,
)
    ensures
        resolve_step(b, height, offset, prefix, vout) matches ResolveStep::Hop { height: h2, .. }
            ==> h2 < height,
{
}

/// Resolving a coinbase transaction at its own height with offset 0 yields
/// that height, offset 0, and the height's starting sat.
pub proof fn lemma_coinbase_identity(blocks: Map<u32, Seq<char>>, height: u32, b: CompactedBlockView)
    requires
        blocks.contains_key(height),
        block_of_hex(blocks[height]) == Some(b),
        block_sums_ok(b),
        b.coinbase_value > 0,
        spec_starting_sat(height as nat) <= u64::MAX,
    ensures
        resolve_from(blocks, height, 0, b.coinbase_txid_prefix, 0) == Ok::<_, HordError>(
            (height as u64, 0u64, spec_starting_sat(height as nat) as u64),
        ),
{
    assert(resolve_step(b, height, 0, b.coinbase_txid_prefix, 0)
        == ResolveStep::Done { offset: 0u64 });
}

/// `find_fee_tx` selects the first transaction whose accumulated fees
/// exceed the cut-off.
pub proof fn lemma_find_fee_tx_first(txs: Seq<CompactedTxView>, cutoff: int, s: nat)
    requires
        find_fee_tx(txs, cutoff, s) is Some,
    ensures
        ({
            let k = find_fee_tx(txs, cutoff, s).unwrap();
            &&& s <= k < txs.len()
            &&& acc_fees(txs, k + 1) > cutoff
            &&& forall|i: int| s <= i < k ==> #[trigger] acc_fees(txs, i + 1) <= cutoff
        }),
    decreases txs.len() - s,
{
    if s < txs.len() && !(acc_fees(txs, s as int + 1) > cutoff) {
        lemma_find_fee_tx_first(txs, cutoff, s + 1);
    }
}

/// `find_input` selects the first input whose cumulative value reaches the
/// target: satoshis flow first-in-first-out across inputs.
pub proof fn lemma_find_input_first(inputs: Seq<CompactedTxIn>, target: int, s: nat)
    requires
        find_input(inputs, target, s) is Some,
    ensures
        ({
            let j = find_input(inputs, target, s).unwrap();
            &&& s <= j < inputs.len()
            &&& sum_in_prefix(inputs, j + 1) >= target
            &&& forall|i: int| s <= i < j ==> #[trigger] sum_in_prefix(inputs, i + 1) < target
        }),
    decreases inputs.len() - s,
{
    if s < inputs.len() && !(sum_in_prefix(inputs, s as int + 1) >= target) {
        lemma_find_input_first(inputs, target, s + 1);
    }
}

/// Fee descent: at a coinbase whose value the offset has passed, the walk
/// descends into the first transaction whose accumulated fees exceed the
/// cut-off, selects the first of its inputs whose cumulative value reaches
/// the transaction's output sum, and hops to that input's block with the
/// output sum less the value of the inputs before it.
pub proof fn lemma_fee_descent(
    b: CompactedBlockView,
    height: u32,
    offset: u64,
    vout: u64,
    k: int,
    j: int,
)
    requires
        block_sums_ok(b),
        offset >= b.coinbase_value,
        find_fee_tx(b.transactions, offset - b.coinbase_value, 0) == Some(k),
        find_input(b.transactions[k].inputs, tx_total_out(b.transactions[k]), 0) == Some(j),
        b.transactions[k].inputs[j].prev_block_height < height,
    ensures
        0 <= k < b.transactions.len(),
        acc_fees(b.transactions, k + 1) > offset - b.coinbase_value,
        forall|i: int| 0 <= i < k ==> #[trigger] acc_fees(b.transactions, i + 1) <= offset
            - b.coinbase_value,
        0 <= j < b.transactions[k].inputs.len(),
        sum_in_prefix(b.transactions[k].inputs, j + 1) >= tx_total_out(b.transactions[k]),
        forall|i: int| 0 <= i < j ==> #[trigger] sum_in_prefix(b.transactions[k].inputs, i + 1)
            < tx_total_out(b.transactions[k]),
        resolve_step(b, height, offset, b.coinbase_txid_prefix, vout) == (ResolveStep::Hop {
            height: b.transactions[k].inputs[j].prev_block_height,
            offset: (tx_total_out(b.transactions[k]) - sum_in_prefix(
                b.transactions[k].inputs,
                j,
            )) as u64,
            prefix: b.transactions[k].inputs[j].prev_txid_prefix,
            vout: b.transactions[k].inputs[j].prev_vout as u64,
        }),
{
    lemma_find_fee_tx_first(b.transactions, offset - b.coinbase_value, 0);
    lemma_find_input_first(b.transactions[k].inputs, tx_total_out(b.transactions[k]), 0);
}

// ---------------------------------------------------------------------------
// Executable helpers.
// ---------------------------------------------------------------------------

proof fn lemma_block_in_total_nonneg(txs: Seq<CompactedTxView>, k: int)
    requires
        k <= txs.len(),
    ensures
        block_in_total(txs, k) >= 0,
    decreases k,
{
    if k > 0 {
        lemma_block_in_total_nonneg(txs, k - 1);
        lemma_sum_in_prefix_bound(txs[k - 1].inputs, txs[k - 1].inputs.len() as int);
    }
}

/// A transaction's input sum is at most the block's total input sum.
proof fn lemma_tx_in_le_block(txs: Seq<CompactedTxView>, i: int, k: int)
    requires
        0 <= i < k <= txs.len(),
    ensures
        tx_total_in(txs[i]) <= block_in_total(txs, k),
    decreases k,
{
    lemma_sum_in_prefix_bound(txs[i].inputs, txs[i].inputs.len() as int);
    if i == k - 1 {
        lemma_block_in_total_nonneg(txs, k - 1);
    } else {
        lemma_tx_in_le_block(txs, i, k - 1);
        lemma_sum_in_prefix_bound(txs[k - 1].inputs, txs[k - 1].inputs.len() as int);
    }
}

/// Accumulated fees never exceed the block's total input sum.
proof fn lemma_acc_fees_le_block(txs: Seq<CompactedTxView>, k: int)
    requires
        0 <= k <= txs.len(),
        forall|i: int| 0 <= i < txs.len()
            ==> tx_total_out(#[trigger] txs[i]) <= tx_total_in(txs[i]),
    ensures
        0 <= acc_fees(txs, k) <= block_in_total(txs, k),
    decreases k,
{
    if k > 0 {
        lemma_acc_fees_le_block(txs, k - 1);
        lemma_sum_prefix_bound(txs[k - 1].outputs, txs[k - 1].outputs.len() as int);
    }
}

/// Sums a transaction's input values.
fn sum_inputs_u64(v: &Vec<CompactedTxIn>) -> (r: u64)
    requires
        sum_in_prefix(v@, v@.len() as int) <= u64::MAX,
    ensures
        r == sum_in_prefix(v@, v@.len() as int),
{
    let n = v.len();
    let mut acc: u64 = 0;
    let mut k: usize = 0;
    while k < n
        invariant
            n == v@.len(),
            k <= n,
            sum_in_prefix(v@, n as int) <= u64::MAX,
            acc == sum_in_prefix(v@, k as int),
        decreases n - k,
    {
        proof {
            lemma_sum_in_prefix_mono(v@, k as int + 1, n as int);
            lemma_sum_in_prefix_bound(v@, k as int);
        }
        acc = acc + v[k].prev_value;
        k = k + 1;
    }
    acc
}

/// Sums the first `upto` output values (all of them if `upto` is larger).
fn sum_outputs_partial(v: &Vec<u64>, upto: u64) -> (r: u64)
    requires
        sum_prefix(v@, v@.len() as int) <= u64::MAX,
    ensures
        r == sum_prefix(v@, if upto < v@.len() { upto as int } else { v@.len() as int }),
{
    let n = v.len();
    let m: usize = if upto < n as u64 {
        upto as usize
    } else {
        n
    };
    let mut acc: u64 = 0;
    let mut k: usize = 0;
    while k < m
        invariant
            n == v@.len(),
            m <= n,
            k <= m,
            sum_prefix(v@, n as int) <= u64::MAX,
            acc == sum_prefix(v@, k as int),
        decreases m - k,
    {
        proof {
            lemma_sum_prefix_mono(v@, k as int + 1, n as int);
            lemma_sum_prefix_bound(v@, k as int);
        }
        acc = acc + v[k];
        k = k + 1;
    }
    acc
}

/// Checks a decoded block's value sums; equals `block_sums_ok`.
fn check_block_sums(b: &CompactedBlock) -> (r: bool)
    ensures
        r == block_sums_ok(b@),
{
    let n = b.transactions.len();
    let mut acc: u64 = 0;
    let mut k: usize = 0;
    while k < n
        invariant
            n == b.transactions@.len(),
            n == b@.transactions.len(),
            k <= n,
            acc == block_in_total(b@.transactions, k as int),
            forall|i: int| 0 <= i < k
                ==> tx_total_out(#[trigger] b@.transactions[i]) <= tx_total_in(b@.transactions[i]),
        decreases n - k,
    {
        proof {
            assert(b@.transactions[k as int] == b.transactions@[k as int]@);
        }
        let tx = &b.transactions[k];
        let in_k = match crate::sums::checked_sum_inputs(&tx.inputs) {
            Some(v) => v,
            None => {
                proof {
                    lemma_in_overflow_means_not_ok(b@, k as int);
                }
                return false;
            },
        };
        let out_k = match crate::sums::checked_sum(&tx.outputs) {
            Some(v) => v,
            None => {
                proof {
                    lemma_out_overflow_means_not_ok(b@, k as int);
                }
                return false;
            },
        };
        if out_k > in_k {
            return false;
        }
        if acc > u64::MAX - in_k {
            proof {
                lemma_partial_in_overflow_means_not_ok(b@, k as int + 1);
            }
            return false;
        }
        acc = acc + in_k;
        k = k + 1;
    }
    proof {
        if acc <= u64::MAX {
            assert(block_sums_ok(b@));
        }
    }
    true
}

/// If one transaction's input sum overflows, the block's total does too.
proof fn lemma_in_overflow_means_not_ok(b: CompactedBlockView, k: int)
    requires
        0 <= k < b.transactions.len(),
        tx_total_in(b.transactions[k]) > u64::MAX,
    ensures
        !block_sums_ok(b),
{
    lemma_tx_in_le_block(b.transactions, k, b.transactions.len() as int);
}

/// If one transaction's output sum overflows, the block cannot be
/// consistent.
proof fn lemma_out_overflow_means_not_ok(b: CompactedBlockView, k: int)
    requires
        0 <= k < b.transactions.len(),
        tx_total_out(b.transactions[k]) > u64::MAX,
    ensures
        !block_sums_ok(b),
{
    if block_sums_ok(b) {
        lemma_tx_in_le_block(b.transactions, k, b.transactions.len() as int);
    }
}

/// If a prefix of the block's input total already overflows, so does the
/// whole total.
proof fn lemma_partial_in_overflow_means_not_ok(b: CompactedBlockView, k: int)
    requires
        0 <= k <= b.transactions.len(),
        block_in_total(b.transactions, k) > u64::MAX,
    ensures
        !block_sums_ok(b),
{
    lemma_block_in_total_mono(b.transactions, k, b.transactions.len() as int);
}

proof fn lemma_block_in_total_mono(txs: Seq<CompactedTxView>, a: int, b: int)
    requires
        0 <= a <= b <= txs.len(),
    ensures
        block_in_total(txs, a) <= block_in_total(txs, b),
    decreases b,
{
    if a < b {
        lemma_block_in_total_mono(txs, a, b - 1);
        lemma_sum_in_prefix_bound(txs[b - 1].inputs, txs[b - 1].inputs.len() as int);
    }
}

/// Finds the fee-contributing transaction for `cutoff`.
fn find_fee_tx_exec(txs: &Vec<CompactedTx>, cutoff: u64) -> (r: Option<usize>)
    requires
        block_in_total(txs_views(txs@), txs@.len() as int) <= u64::MAX,
        forall|i: int| 0 <= i < txs@.len()
            ==> tx_total_out(#[trigger] txs_views(txs@)[i]) <= tx_total_in(txs_views(txs@)[i]),
    ensures
        match r {
            Some(k) => find_fee_tx(txs_views(txs@), cutoff as int, 0) == Some(k as int) && k
                < txs@.len(),
            None => find_fee_tx(txs_views(txs@), cutoff as int, 0) is None,
        },
{
    let ghost vs = txs_views(txs@);
    let n = txs.len();
    let mut acc: u64 = 0;
    let mut k: usize = 0;
    while k < n
        invariant
            n == txs@.len(),
            n == vs.len(),
            vs == txs_views(txs@),
            k <= n,
            block_in_total(vs, n as int) <= u64::MAX,
            forall|i: int| 0 <= i < n
                ==> tx_total_out(#[trigger] vs[i]) <= tx_total_in(vs[i]),
            acc == acc_fees(vs, k as int),
            find_fee_tx(vs, cutoff as int, 0) == find_fee_tx(vs, cutoff as int, k as nat),
        decreases n - k,
    {
        proof {
            assert(vs[k as int] == txs@[k as int]@);
            lemma_tx_in_le_block(vs, k as int, n as int);
            lemma_block_in_total_nonneg(vs, k as int);
            lemma_block_in_total_mono(vs, k as int + 1, n as int);
            lemma_acc_fees_le_block(vs, k as int + 1);
            lemma_sum_prefix_bound(vs[k as int].outputs, vs[k as int].outputs.len() as int);
        }
        let tx = &txs[k];
        let in_k = sum_inputs_u64(&tx.inputs);
        let out_k = sum_outputs_all(&tx.outputs);
        proof {
            assert(in_k == tx_total_in(vs[k as int]));
            assert(out_k == tx_total_out(vs[k as int]));
            assert(out_k <= in_k);
            assert(acc_fees(vs, k as int + 1)
                == acc_fees(vs, k as int) + (tx_total_in(vs[k as int]) - tx_total_out(
                vs[k as int],
            )));
            assert(acc_fees(vs, k as int + 1) <= block_in_total(vs, k as int + 1));
        }
        let fee = in_k - out_k;
        acc = acc + fee;
        if acc > cutoff {
            proof {
                assert(find_fee_tx(vs, cutoff as int, k as nat) == Some(k as int));
            }
            return Some(k);
        }
        proof {
            assert(find_fee_tx(vs, cutoff as int, k as nat)
                == find_fee_tx(vs, cutoff as int, (k + 1) as nat));
        }
        k = k + 1;
    }
    None
}

/// The views of a slice of compacted transactions.
pub open spec fn txs_views(v: Seq<CompactedTx>) -> Seq<CompactedTxView> {
    Seq::new(v.len(), |i: int| v[i]@)
}

/// Finds the transaction with the cursor's txid prefix.
fn find_tx_exec(txs: &Vec<CompactedTx>, prefix: u32) -> (r: Option<usize>)
    ensures
        match r {
            Some(k) => find_tx(txs_views(txs@), prefix, 0) == Some(k as int) && k < txs@.len(),
            None => find_tx(txs_views(txs@), prefix, 0) is None,
        },
{
    let ghost vs = txs_views(txs@);
    let n = txs.len();
    let mut k: usize = 0;
    while k < n
        invariant
            n == txs@.len(),
            vs == txs_views(txs@),
            k <= n,
            find_tx(vs, prefix, 0) == find_tx(vs, prefix, k as nat),
        decreases n - k,
    {
        proof {
            assert(vs[k as int] == txs@[k as int]@);
        }
        if txs[k].txid_prefix == prefix {
            return Some(k);
        }
        k = k + 1;
    }
    None
}

/// Selects the first input whose cumulative value reaches `target`; returns
/// its index and the cumulative value through it.
fn find_input_exec(inputs: &Vec<CompactedTxIn>, target: u128) -> (r: Option<(usize, u64)>)
    requires
        sum_in_prefix(inputs@, inputs@.len() as int) <= u64::MAX,
    ensures
        match r {
            Some((j, c)) => {
                &&& find_input(inputs@, target as int, 0) == Some(j as int)
                &&& j < inputs@.len()
                &&& c == sum_in_prefix(inputs@, j as int + 1)
                &&& c as int >= target as int
                &&& sum_in_prefix(inputs@, j as int) <= target as int
            },
            None => find_input(inputs@, target as int, 0) is None,
        },
{
    let n = inputs.len();
    let mut cum: u64 = 0;
    let mut j: usize = 0;
    while j < n
        invariant
            n == inputs@.len(),
            j <= n,
            sum_in_prefix(inputs@, n as int) <= u64::MAX,
            cum == sum_in_prefix(inputs@, j as int),
            find_input(inputs@, target as int, 0) == find_input(inputs@, target as int, j as nat),
            forall|i: int| 0 <= i < j ==> #[trigger] sum_in_prefix(inputs@, i + 1) < target as int,
        decreases n - j,
    {
        proof {
            lemma_sum_in_prefix_mono(inputs@, j as int + 1, n as int);
            lemma_sum_in_prefix_bound(inputs@, j as int);
        }
        let next = cum + inputs[j].prev_value;
        proof {
            assert(next == sum_in_prefix(inputs@, j as int + 1));
        }
        if next as u128 >= target {
            proof {
                assert(find_input(inputs@, target as int, j as nat) == Some(j as int));
                if j > 0 {
                    assert(sum_in_prefix(inputs@, (j - 1) + 1) < target as int);
                } else {
                    assert(sum_in_prefix(inputs@, 0) == 0);
                }
            }
            return Some((j, next));
        }
        proof {
            assert(find_input(inputs@, target as int, j as nat)
                == find_input(inputs@, target as int, (j + 1) as nat));
        }
        cum = next;
        j = j + 1;
    }
    None
}

// ---------------------------------------------------------------------------
// The resolver itself.
// ---------------------------------------------------------------------------

/// Evaluates one step of the walk on a decoded block.
fn eval_step(res: &CompactedBlock, height: u32, offset: u64, prefix: u32, vout: u64) -> (r:
    ResolveStep)
    ensures
        r == resolve_step(res@, height, offset, prefix, vout),
{
    let ghost bv = res@;
    if !check_block_sums(res) {
        return ResolveStep::Fail { err: HordError::CorruptBlob };
    }
    proof {
        assert(bv.transactions == txs_views(res.transactions@));
    }
    if prefix == res.coinbase_txid_prefix {
        if offset < res.coinbase_value {
            return ResolveStep::Done { offset };
        }
        let cut_off = offset - res.coinbase_value;
        let k = match find_fee_tx_exec(&res.transactions, cut_off) {
            Some(k) => k,
            None => {
                return ResolveStep::Fail { err: HordError::CorruptBlob };
            },
        };
        proof {
            assert(bv.transactions[k as int] == res.transactions@[k as int]@);
            lemma_tx_in_le_block(bv.transactions, k as int, bv.transactions.len() as int);
            lemma_sum_prefix_bound(bv.transactions[k as int].outputs,
                bv.transactions[k as int].outputs.len() as int);
        }
        let tx = &res.transactions[k];
        let total_out = sum_outputs_all(&tx.outputs);
        let (j, cum) = match find_input_exec(&tx.inputs, total_out as u128) {
            Some(p) => p,
            None => {
                return ResolveStep::Fail { err: HordError::CorruptBlob };
            },
        };
        let picked = tx.inputs[j];
        proof {
            lemma_sum_in_prefix_bound(tx.inputs@, j as int);
            assert(cum == sum_in_prefix(tx.inputs@, j as int) + picked.prev_value);
            assert(sum_in_prefix(tx.inputs@, j as int) <= total_out);
        }
        let new_off = total_out - (cum - picked.prev_value);
        if picked.prev_block_height >= height {
            proof {
                assert(resolve_step(bv, height, offset, prefix, vout) == hop_from(
                    bv.transactions[k as int], j as int,
                    tx_total_out(bv.transactions[k as int]), height));
            }
            return ResolveStep::Fail { err: HordError::OrphanReference };
        }
        proof {
            assert(resolve_step(bv, height, offset, prefix, vout) == hop_from(
                bv.transactions[k as int], j as int, tx_total_out(bv.transactions[k as int]),
                height));
        }
        ResolveStep::Hop {
            height: picked.prev_block_height,
            offset: new_off,
            prefix: picked.prev_txid_prefix,
            vout: picked.prev_vout as u64,
        }
    } else {
        let k = match find_tx_exec(&res.transactions, prefix) {
            Some(k) => k,
            None => {
                return ResolveStep::Fail { err: HordError::OrphanReference };
            },
        };
        proof {
            assert(bv.transactions[k as int] == res.transactions@[k as int]@);
            lemma_tx_in_le_block(bv.transactions, k as int, bv.transactions.len() as int);
            lemma_sum_prefix_bound(bv.transactions[k as int].outputs,
                bv.transactions[k as int].outputs.len() as int);
        }
        let tx = &res.transactions[k];
        let sats_out_part = sum_outputs_partial(&tx.outputs, vout);
        let sats_out: u128 = sats_out_part as u128 + offset as u128;
        let (j, cum) = match find_input_exec(&tx.inputs, sats_out) {
            Some(p) => p,
            None => {
                return ResolveStep::Fail { err: HordError::CorruptBlob };
            },
        };
        let picked = tx.inputs[j];
        proof {
            lemma_sum_in_prefix_bound(tx.inputs@, j as int);
            assert(cum == sum_in_prefix(tx.inputs@, j as int) + picked.prev_value);
            assert(sum_in_prefix(tx.inputs@, j as int) <= sats_out as int);
        }
        let new_off: u128 = sats_out - ((cum - picked.prev_value) as u128);
        proof {
            assert(new_off <= picked.prev_value);
        }
        if picked.prev_block_height >= height {
            proof {
                assert(resolve_step(bv, height, offset, prefix, vout) == hop_from(
                    bv.transactions[k as int], j as int, sats_out as int, height));
            }
            return ResolveStep::Fail { err: HordError::OrphanReference };
        }
        proof {
            assert(resolve_step(bv, height, offset, prefix, vout) == hop_from(
                bv.transactions[k as int], j as int, sats_out as int, height));
        }
        ResolveStep::Hop {
            height: picked.prev_block_height,
            offset: new_off as u64,
            prefix: picked.prev_txid_prefix,
            vout: picked.prev_vout as u64,
        }
    }
}

/// Sums all output values of one transaction.
fn sum_outputs_all(v: &Vec<u64>) -> (r: u64)
    requires
        sum_prefix(v@, v@.len() as int) <= u64::MAX,
    ensures
        r == sum_prefix(v@, v@.len() as int),
{
    let n = v.len();
    let mut acc: u64 = 0;
    let mut k: usize = 0;
    while k < n
        invariant
            n == v@.len(),
            k <= n,
            sum_prefix(v@, n as int) <= u64::MAX,
            acc == sum_prefix(v@, k as int),
        decreases n - k,
    {
        proof {
            lemma_sum_prefix_mono(v@, k as int + 1, n as int);
            lemma_sum_prefix_bound(v@, k as int);
        }
        acc = acc + v[k];
        k = k + 1;
    }
    acc
}

/// Walks the compacted graph backward from an explicit cursor state.
///
/// Returns exactly what `resolve_from` computes on the stored blocks: the
/// coinbase height, the satoshi's offset within that coinbase value, and its
/// ordinal number.
pub fn retrieve_satoshi_point_from_state(
    hord_db_conn: &Connection,
    start_height: u32,
    start_offset: u64,
    start_prefix: u32,
    start_vout: u64,
) -> (r: Result<(u64, u64, u64), HordError>)
    requires
        schema_ready(*hord_db_conn),
    ensures
        r == resolve_from(
            blocks_of(*hord_db_conn),
            start_height,
            start_offset,
            start_prefix,
            start_vout,
        ),
{
    let ghost blocks = blocks_of(*hord_db_conn);
    let mut ordinal_block_number: u32 = start_height;
    let mut ordinal_offset: u64 = start_offset;
    let mut prefix: u32 = start_prefix;
    let mut vout: u64 = start_vout;
    loop
        invariant
            schema_ready(*hord_db_conn),
            blocks == blocks_of(*hord_db_conn),
            resolve_from(blocks, start_height, start_offset, start_prefix, start_vout)
                == resolve_from(blocks, ordinal_block_number, ordinal_offset, prefix, vout),
        decreases ordinal_block_number,
    {
        let hex_row = match query_block_row(hord_db_conn, ordinal_block_number) {
            Some(s) => s,
            None => {
                return Err(HordError::MissingBlock(ordinal_block_number));
            },
        };
        let res = match CompactedBlock::from_hex_bytes(hex_row.as_str()) {
            Ok(b) => b,
            Err(_) => {
                return Err(HordError::CorruptBlob);
            },
        };
        match eval_step(&res, ordinal_block_number, ordinal_offset, prefix, vout) {
            ResolveStep::Fail { err } => {
                return Err(err);
            },
            ResolveStep::Done { offset: off } => {
                let ss = starting_sat(ordinal_block_number);
                if ss > u64::MAX - off {
                    return Err(HordError::CorruptBlob);
                }
                return Ok((ordinal_block_number as u64, off, ss + off));
            },
            ResolveStep::Hop { height: h2, offset: o2, prefix: p2, vout: v2 } => {
                proof {
                    lemma_resolver_descends(res@, ordinal_block_number, ordinal_offset, prefix,
                        vout);
                }
                ordinal_block_number = h2;
                ordinal_offset = o2;
                prefix = p2;
                vout = v2;
            },
        }
    }
}

/// Resolves the satoshi point of a transaction's first output: starts at
/// the given block with offset 0 and output cursor 0, keyed by the
/// transaction's 4-byte txid prefix.
pub fn retrieve_satoshi_point_using_local_storage(
    hord_db_conn: &Connection,
    block_identifier: &BlockIdentifier,
    transaction_identifier: &TransactionIdentifier,
) -> (r: Result<(u64, u64, u64), HordError>)
    requires
        schema_ready(*hord_db_conn),
        block_identifier.index <= u32::MAX,
        prefixed_txid_prefix_of(transaction_identifier.hash@) is Some,
    ensures
        r == resolve_from(
            blocks_of(*hord_db_conn),
            block_identifier.index as u32,
            0,
            prefixed_txid_prefix_of(transaction_identifier.hash@).unwrap(),
            0,
        ),
{
    let n = transaction_identifier.hash.as_str().unicode_len();
    let bare = transaction_identifier.hash.as_str().substring_char(2, n);
    proof {
        assert(bare@ =~= transaction_identifier.hash@.skip(2));
    }
    let prefix = match crate::identifiers::txid_prefix(bare) {
        Some(p) => p,
        None => vstd::pervasive::unreached(),
    };
    retrieve_satoshi_point_from_state(
        hord_db_conn,
        block_identifier.index as u32,
        0,
        prefix,
        0,
    )
}

} // verus!
