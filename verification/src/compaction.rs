//! Compacting source blocks: projecting either the raw RPC breakdown or the
//! standardized block onto a [`crate::codec::CompactedBlock`].
//!
//! Both representations of one source block must compact identically;
//! `lemma_compaction_equivalence` proves it.

use vstd::prelude::*;
use crate::codec::{CompactedBlock, CompactedBlockView, CompactedTx, CompactedTxIn,
    CompactedTxView};
use crate::errors::HordError;
use crate::identifiers::{prefixed_txid_prefix_of, txid_prefix, txid_prefix_of,
    BlockIdentifier, TransactionIdentifier};
use crate::sums::{checked_sum, sum_prefix};

verus! {

/// The previous-output annotation of one raw RPC input.
pub struct FullBlockPrevout {
    pub height: u64,
    pub value: u64,
}

/// One input of a raw RPC transaction; the fields are absent on coinbase
/// inputs.
pub struct FullBlockTxIn {
    pub txid: Option<String>,
    pub vout: Option<u64>,
    pub prevout: Option<FullBlockPrevout>,
}

/// One transaction of a raw RPC block: a bare (unprefixed) hex txid, inputs,
/// and output values in satoshis.
pub struct FullBlockTx {
    pub txid: String,
    pub vin: Vec<FullBlockTxIn>,
    pub vout: Vec<u64>,
}

/// A raw RPC block breakdown: its height and its transactions in on-chain
/// order, the coinbase first.
pub struct BitcoinBlockFullBreakdown {
    pub height: u64,
    pub tx: Vec<FullBlockTx>,
}

/// The previous output referenced by one standardized input; the txid is
/// `0x`-prefixed.
pub struct StandardizedPrevout {
    pub txid: String,
    pub block_height: u64,
    pub vout: u64,
    pub value: u64,
}

/// One standardized transaction input.
pub struct StandardizedTxIn {
    pub previous_output: StandardizedPrevout,
}

/// The metadata of one standardized transaction.
pub struct StandardizedTxMetadata {
    pub inputs: Vec<StandardizedTxIn>,
    pub outputs: Vec<u64>,
}

/// One standardized transaction; its identifier's hash is `0x`-prefixed.
pub struct StandardizedTx {
    pub transaction_identifier: TransactionIdentifier,
    pub metadata: StandardizedTxMetadata,
}

/// A standardized block.
pub struct BitcoinBlockData {
    pub block_identifier: BlockIdentifier,
    pub transactions: Vec<StandardizedTx>,
}

// ---------------------------------------------------------------------------
// Compaction as a mathematical function of the source block.
// ---------------------------------------------------------------------------

/// The compacted form of one raw input, or `None` if a required field is
/// absent, its txid does not hex-decode, or the referenced height or output
/// index does not fit its column.
pub open spec fn spec_compact_full_txin(x: FullBlockTxIn) -> Option<CompactedTxIn> {
    match (x.txid, x.vout, x.prevout) {
        (Some(txid), Some(vout), Some(prevout)) => match txid_prefix_of(txid@) {
            Some(p) => if prevout.height <= u32::MAX && vout <= u16::MAX {
                Some(CompactedTxIn {
                    prev_txid_prefix: p,
                    prev_block_height: prevout.height as u32,
                    prev_vout: vout as u16,
                    prev_value: prevout.value,
                })
            } else {
                None
            },
            None => None,
        },
        _ => None,
    }
}

/// The compacted form of one raw non-coinbase transaction.
pub open spec fn spec_compact_full_tx(t: FullBlockTx) -> Option<CompactedTxView> {
    match txid_prefix_of(t.txid@) {
        Some(p) => if forall|i: int| 0 <= i < t.vin@.len()
            ==> spec_compact_full_txin(#[trigger] t.vin@[i]) is Some {
            Some(CompactedTxView {
                txid_prefix: p,
                inputs: Seq::new(t.vin@.len(), |i: int| spec_compact_full_txin(t.vin@[i]).unwrap()),
                outputs: t.vout@,
            })
        } else {
            None
        },
        None => None,
    }
}

/// The compacted form of a whole raw block: the coinbase is the transaction
/// at index 0; it contributes only its txid prefix and the sum of its output
/// values; every other transaction is compacted in order.
pub open spec fn spec_compact_full(b: BitcoinBlockFullBreakdown) -> Option<CompactedBlockView> {
    if b.tx@.len() == 0 {
        None
    } else {
        match txid_prefix_of(b.tx@[0].txid@) {
            Some(cb_prefix) => {
                let cb_value = sum_prefix(b.tx@[0].vout@, b.tx@[0].vout@.len() as int);
                if cb_value > u64::MAX {
                    None
                } else if forall|i: int| 1 <= i < b.tx@.len()
                    ==> spec_compact_full_tx(#[trigger] b.tx@[i]) is Some {
                    Some(CompactedBlockView {
                        coinbase_txid_prefix: cb_prefix,
                        coinbase_value: cb_value as u64,
                        transactions: Seq::new((b.tx@.len() - 1) as nat,
                            |i: int| spec_compact_full_tx(b.tx@[i + 1]).unwrap()),
                    })
                } else {
                    None
                }
            },
            None => None,
        }
    }
}

/// The compacted form of one standardized input.
pub open spec fn spec_compact_std_txin(x: StandardizedTxIn) -> Option<CompactedTxIn> {
    match prefixed_txid_prefix_of(x.previous_output.txid@) {
        Some(p) => if x.previous_output.block_height <= u32::MAX && x.previous_output.vout
            <= u16::MAX {
            Some(CompactedTxIn {
                prev_txid_prefix: p,
                prev_block_height: x.previous_output.block_height as u32,
                prev_vout: x.previous_output.vout as u16,
                prev_value: x.previous_output.value,
            })
        } else {
            None
        },
        None => None,
    }
}

/// The compacted form of one standardized non-coinbase transaction.
pub open spec fn spec_compact_std_tx(t: StandardizedTx) -> Option<CompactedTxView> {
    match prefixed_txid_prefix_of(t.transaction_identifier.hash@) {
        Some(p) => if forall|i: int| 0 <= i < t.metadata.inputs@.len()
            ==> spec_compact_std_txin(#[trigger] t.metadata.inputs@[i]) is Some {
            Some(CompactedTxView {
                txid_prefix: p,
                inputs: Seq::new(t.metadata.inputs@.len(),
                    |i: int| spec_compact_std_txin(t.metadata.inputs@[i]).unwrap()),
                outputs: t.metadata.outputs@,
            })
        } else {
            None
        },
        None => None,
    }
}

/// The compacted form of a whole standardized block.
pub open spec fn spec_compact_std(b: BitcoinBlockData) -> Option<CompactedBlockView> {
    if b.transactions@.len() == 0 {
        None
    } else {
        match prefixed_txid_prefix_of(b.transactions@[0].transaction_identifier.hash@) {
            Some(cb_prefix) => {
                let outs = b.transactions@[0].metadata.outputs@;
                let cb_value = sum_prefix(outs, outs.len() as int);
                if cb_value > u64::MAX {
                    None
                } else if forall|i: int| 1 <= i < b.transactions@.len()
                    ==> spec_compact_std_tx(#[trigger] b.transactions@[i]) is Some {
                    Some(CompactedBlockView {
                        coinbase_txid_prefix: cb_prefix,
                        coinbase_value: cb_value as u64,
                        transactions: Seq::new((b.transactions@.len() - 1) as nat,
                            |i: int| spec_compact_std_tx(b.transactions@[i + 1]).unwrap()),
                    })
                } else {
                    None
                }
            },
            None => None,
        }
    }
}

// ---------------------------------------------------------------------------
// Executable compaction.
// ---------------------------------------------------------------------------

/// Compacts one raw input.
fn compact_full_txin(x: &FullBlockTxIn) -> (r: Option<CompactedTxIn>)
    ensures
        r == spec_compact_full_txin(*x),
{
    let txid = match &x.txid {
        Some(t) => t,
        None => { return None; },
    };
    let vout = match &x.vout {
        Some(v) => *v,
        None => { return None; },
    };
    let prevout = match &x.prevout {
        Some(p) => p,
        None => { return None; },
    };
    match txid_prefix(txid.as_str()) {
        Some(p) => if prevout.height <= u32::MAX as u64 && vout <= u16::MAX as u64 {
            Some(CompactedTxIn {
                prev_txid_prefix: p,
                prev_block_height: prevout.height as u32,
                prev_vout: vout as u16,
                prev_value: prevout.value,
            })
        } else {
            None
        },
        None => None,
    }
}

/// Compacts one raw non-coinbase transaction.
fn compact_full_tx(t: &FullBlockTx) -> (r: Option<CompactedTx>)
    ensures
        match r {
            Some(c) => spec_compact_full_tx(*t) == Some(c@),
            None => spec_compact_full_tx(*t) is None,
        },
{
    let p = match txid_prefix(t.txid.as_str()) {
        Some(p) => p,
        None => { return None; },
    };
    let mut inputs: Vec<CompactedTxIn> = Vec::new();
    let mut k: usize = 0;
    while k < t.vin.len()
        invariant
            k <= t.vin@.len(),
            inputs@.len() == k,
            forall|i: int| 0 <= i < k ==> spec_compact_full_txin(#[trigger] t.vin@[i]) is Some,
            forall|i: int| 0 <= i < k
                ==> #[trigger] inputs@[i] == spec_compact_full_txin(t.vin@[i]).unwrap(),
        decreases t.vin.len() - k,
    {
        match compact_full_txin(&t.vin[k]) {
            Some(c) => {
                inputs.push(c);
            },
            None => {
                return None;
            },
        }
        k = k + 1;
    }
    let mut outputs: Vec<u64> = Vec::new();
    let mut k2: usize = 0;
    while k2 < t.vout.len()
        invariant
            k2 <= t.vout@.len(),
            outputs@ == t.vout@.take(k2 as int),
        decreases t.vout.len() - k2,
    {
        outputs.push(t.vout[k2]);
        proof {
            assert(outputs@ =~= t.vout@.take(k2 as int + 1));
        }
        k2 = k2 + 1;
    }
    proof {
        assert(t.vout@.take(t.vout@.len() as int) =~= t.vout@);
    }
    let c = CompactedTx { txid_prefix: p, inputs, outputs };
    proof {
        assert(c@.inputs =~= Seq::new(t.vin@.len(),
            |i: int| spec_compact_full_txin(t.vin@[i]).unwrap()));
    }
    Some(c)
}

impl CompactedBlock {
    /// Compacts a raw RPC block breakdown.  Fails with `MalformedBlock` when
    /// the block is empty, a txid fails hex decoding or is shorter than four
    /// bytes, an input lacks a required field, a referenced height or output
    /// index does not fit its column, or the coinbase output values overflow
    /// a u64 sum.
    pub fn from_full_block(block: &BitcoinBlockFullBreakdown) -> (r: Result<
        CompactedBlock,
        HordError,
    >)
        ensures
            match r {
                Ok(c) => spec_compact_full(*block) == Some(c@),
                Err(e) => spec_compact_full(*block) is None && e == HordError::MalformedBlock,
            },
    {
        if block.tx.len() == 0 {
            return Err(HordError::MalformedBlock);
        }
        let cb_prefix = match txid_prefix(block.tx[0].txid.as_str()) {
            Some(p) => p,
            None => { return Err(HordError::MalformedBlock); },
        };
        let cb_value = match checked_sum(&block.tx[0].vout) {
            Some(v) => v,
            None => { return Err(HordError::MalformedBlock); },
        };
        let mut txs: Vec<CompactedTx> = Vec::new();
        let mut k: usize = 1;
        while k < block.tx.len()
            invariant
                1 <= k <= block.tx@.len(),
                txs@.len() == k - 1,
                forall|i: int| 1 <= i < k ==> spec_compact_full_tx(#[trigger] block.tx@[i]) is Some,
                forall|i: int| 0 <= i < k - 1
                    ==> #[trigger] txs@[i]@ == spec_compact_full_tx(block.tx@[i + 1]).unwrap(),
            decreases block.tx.len() - k,
        {
            match compact_full_tx(&block.tx[k]) {
                Some(c) => {
                    txs.push(c);
                },
                None => {
                    return Err(HordError::MalformedBlock);
                },
            }
            k = k + 1;
        }
        let c = CompactedBlock {
            coinbase_txid_prefix: cb_prefix,
            coinbase_value: cb_value,
            transactions: txs,
        };
        proof {
            assert(c@.transactions =~= Seq::new((block.tx@.len() - 1) as nat,
                |i: int| spec_compact_full_tx(block.tx@[i + 1]).unwrap()));
        }
        Ok(c)
    }

    /// Compacts a standardized block; the result is identical to compacting
    /// the raw form of the same source block.
    pub fn from_standardized_block(block: &BitcoinBlockData) -> (r: Result<
        CompactedBlock,
        HordError,
    >)
        ensures
            match r {
                Ok(c) => spec_compact_std(*block) == Some(c@),
                Err(e) => spec_compact_std(*block) is None && e == HordError::MalformedBlock,
            },
    {
        if block.transactions.len() == 0 {
            return Err(HordError::MalformedBlock);
        }
        let cb_prefix = match prefixed_txid_prefix(
            block.transactions[0].transaction_identifier.hash.as_str(),
        ) {
            Some(p) => p,
            None => { return Err(HordError::MalformedBlock); },
        };
        let cb_value = match checked_sum(&block.transactions[0].metadata.outputs) {
            Some(v) => v,
            None => { return Err(HordError::MalformedBlock); },
        };
        let mut txs: Vec<CompactedTx> = Vec::new();
        let mut k: usize = 1;
        while k < block.transactions.len()
            invariant
                1 <= k <= block.transactions@.len(),
                txs@.len() == k - 1,
                forall|i: int| 1 <= i < k
                    ==> spec_compact_std_tx(#[trigger] block.transactions@[i]) is Some,
                forall|i: int| 0 <= i < k - 1
                    ==> #[trigger] txs@[i]@
                        == spec_compact_std_tx(block.transactions@[i + 1]).unwrap(),
            decreases block.transactions.len() - k,
        {
            match compact_std_tx(&block.transactions[k]) {
                Some(c) => {
                    txs.push(c);
                },
                None => {
                    return Err(HordError::MalformedBlock);
                },
            }
            k = k + 1;
        }
        let c = CompactedBlock {
            coinbase_txid_prefix: cb_prefix,
            coinbase_value: cb_value,
            transactions: txs,
        };
        proof {
            assert(c@.transactions =~= Seq::new((block.transactions@.len() - 1) as nat,
                |i: int| spec_compact_std_tx(block.transactions@[i + 1]).unwrap()));
        }
        Ok(c)
    }
}

/// Reads the 4-byte prefix of a `0x`-prefixed hex txid.
fn prefixed_txid_prefix(hash: &str) -> (r: Option<u32>)
    ensures
        r == prefixed_txid_prefix_of(hash@),
{
    let n = hash.unicode_len();
    if n < 2 {
        return None;
    }
    let bare = hash.substring_char(2, n);
    proof {
        assert(bare@ =~= hash@.skip(2));
    }
    txid_prefix(bare)
}

/// Compacts one standardized input.
fn compact_std_txin(x: &StandardizedTxIn) -> (r: Option<CompactedTxIn>)
    ensures
        r == spec_compact_std_txin(*x),
{
    match prefixed_txid_prefix(x.previous_output.txid.as_str()) {
        Some(p) => if x.previous_output.block_height <= u32::MAX as u64
            && x.previous_output.vout <= u16::MAX as u64 {
            Some(CompactedTxIn {
                prev_txid_prefix: p,
                prev_block_height: x.previous_output.block_height as u32,
                prev_vout: x.previous_output.vout as u16,
                prev_value: x.previous_output.value,
            })
        } else {
            None
        },
        None => None,
    }
}

/// Compacts one standardized non-coinbase transaction.
fn compact_std_tx(t: &StandardizedTx) -> (r: Option<CompactedTx>)
    ensures
        match r {
            Some(c) => spec_compact_std_tx(*t) == Some(c@),
            None => spec_compact_std_tx(*t) is None,
        },
{
    let p = match prefixed_txid_prefix(t.transaction_identifier.hash.as_str()) {
        Some(p) => p,
        None => { return None; },
    };
    let mut inputs: Vec<CompactedTxIn> = Vec::new();
    let mut k: usize = 0;
    while k < t.metadata.inputs.len()
        invariant
            k <= t.metadata.inputs@.len(),
            inputs@.len() == k,
            forall|i: int| 0 <= i < k
                ==> spec_compact_std_txin(#[trigger] t.metadata.inputs@[i]) is Some,
            forall|i: int| 0 <= i < k
                ==> #[trigger] inputs@[i] == spec_compact_std_txin(t.metadata.inputs@[i]).unwrap(),
        decreases t.metadata.inputs.len() - k,
    {
        match compact_std_txin(&t.metadata.inputs[k]) {
            Some(c) => {
                inputs.push(c);
            },
            None => {
                return None;
            },
        }
        k = k + 1;
    }
    let mut outputs: Vec<u64> = Vec::new();
    let mut k2: usize = 0;
    while k2 < t.metadata.outputs.len()
        invariant
            k2 <= t.metadata.outputs@.len(),
            outputs@ == t.metadata.outputs@.take(k2 as int),
        decreases t.metadata.outputs.len() - k2,
    {
        outputs.push(t.metadata.outputs[k2]);
        proof {
            assert(outputs@ =~= t.metadata.outputs@.take(k2 as int + 1));
        }
        k2 = k2 + 1;
    }
    proof {
        assert(t.metadata.outputs@.take(t.metadata.outputs@.len() as int)
            =~= t.metadata.outputs@);
    }
    let c = CompactedTx { txid_prefix: p, inputs, outputs };
    proof {
        assert(c@.inputs =~= Seq::new(t.metadata.inputs@.len(),
            |i: int| spec_compact_std_txin(t.metadata.inputs@[i]).unwrap()));
    }
    Some(c)
}

// ---------------------------------------------------------------------------
// Compaction equivalence.
// ---------------------------------------------------------------------------

/// Whether a standardized input carries the same data as a raw input, with
/// its txids `0x`-prefixed.
pub open spec fn txin_corresponds(f: FullBlockTxIn, s: StandardizedTxIn) -> bool {
    match (f.txid, f.vout, f.prevout) {
        (Some(txid), Some(vout), Some(prevout)) => {
            &&& s.previous_output.txid@ == seq!['0', 'x'] + txid@
            &&& s.previous_output.block_height == prevout.height
            &&& s.previous_output.vout == vout
            &&& s.previous_output.value == prevout.value
        },
        _ => false,
    }
}

/// Whether a standardized transaction carries the same data as a raw one.
pub open spec fn tx_corresponds(f: FullBlockTx, s: StandardizedTx) -> bool {
    &&& s.transaction_identifier.hash@ == seq!['0', 'x'] + f.txid@
    &&& s.metadata.outputs@ == f.vout@
    &&& s.metadata.inputs@.len() == f.vin@.len()
    &&& forall|i: int| 0 <= i < f.vin@.len()
        ==> txin_corresponds(#[trigger] f.vin@[i], s.metadata.inputs@[i])
}

/// Whether a standardized block was derived from the same source as a raw
/// block breakdown.
pub open spec fn block_corresponds(f: BitcoinBlockFullBreakdown, s: BitcoinBlockData) -> bool {
    &&& s.transactions@.len() == f.tx@.len()
    &&& forall|i: int| 0 <= i < f.tx@.len()
        ==> tx_corresponds(#[trigger] f.tx@[i], s.transactions@[i])
}

proof fn lemma_txin_equivalence(f: FullBlockTxIn, s: StandardizedTxIn)
    requires
        txin_corresponds(f, s),
    ensures
        spec_compact_std_txin(s) == spec_compact_full_txin(f),
{
    let txid = f.txid.unwrap();
    assert(s.previous_output.txid@.skip(2) =~= txid@);
}

proof fn lemma_tx_equivalence(f: FullBlockTx, s: StandardizedTx)
    requires
        tx_corresponds(f, s),
    ensures
        spec_compact_std_tx(s) == spec_compact_full_tx(f),
{
    assert(s.transaction_identifier.hash@.skip(2) =~= f.txid@);
    assert forall|i: int| 0 <= i < f.vin@.len()
        implies spec_compact_std_txin(#[trigger] s.metadata.inputs@[i])
            == spec_compact_full_txin(f.vin@[i]) by {
        lemma_txin_equivalence(f.vin@[i], s.metadata.inputs@[i]);
    }
    match spec_compact_full_tx(f) {
        Some(c) => {
            assert(Seq::new(s.metadata.inputs@.len(),
                |i: int| spec_compact_std_txin(s.metadata.inputs@[i]).unwrap())
                =~= Seq::new(f.vin@.len(), |i: int| spec_compact_full_txin(f.vin@[i]).unwrap()));
        },
        None => {},
    }
}

/// Compacting a raw block and compacting its standardized form derived from
/// the same source yield identical results.
pub proof fn lemma_compaction_equivalence(f: BitcoinBlockFullBreakdown, s: BitcoinBlockData)
    requires
        block_corresponds(f, s),
    ensures
        spec_compact_std(s) == spec_compact_full(f),
{
    if f.tx@.len() > 0 {
        assert(tx_corresponds(f.tx@[0], s.transactions@[0]));
        assert(s.transactions@[0].transaction_identifier.hash@.skip(2) =~= f.tx@[0].txid@);
        assert forall|i: int| 0 <= i < f.tx@.len()
            implies spec_compact_std_tx(#[trigger] s.transactions@[i])
                == spec_compact_full_tx(f.tx@[i]) by {
            lemma_tx_equivalence(f.tx@[i], s.transactions@[i]);
        }
        match spec_compact_full(f) {
            Some(c) => {
                assert(Seq::new((s.transactions@.len() - 1) as nat,
                    |i: int| spec_compact_std_tx(s.transactions@[i + 1]).unwrap())
                    =~= Seq::new((f.tx@.len() - 1) as nat,
                        |i: int| spec_compact_full_tx(f.tx@[i + 1]).unwrap()));
            },
            None => {},
        }
    }
}

} // verus!
