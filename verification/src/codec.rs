//! The compact block codec: a lossy projection of a block's transaction
//! graph, with a deterministic, self-describing binary encoding.
//!
//! The encoding is a subset of CBOR: unsigned integers (major type 0) and
//! definite-length arrays (major type 4).  A block is the array
//! `[coinbase_txid_prefix, coinbase_value, transactions]`; a transaction is
//! `[txid_prefix, inputs, outputs]`; an input is
//! `[prev_txid_prefix, prev_block_height, prev_vout, prev_value]`.
//! Txid prefixes are the big-endian value of the txid's first four bytes.
//!
//! The layout is fixed by `enc_block` and is this codec's own: a database
//! written with any other layout of the same tuple is not readable here, and
//! changing the layout is a breaking migration of the persisted state.

use vstd::prelude::*;
use crate::errors::HordError;
use crate::hex_text::{hex_of, unhex};

verus! {

/// One non-coinbase transaction input: the 4-byte prefix of the referenced
/// txid, the height of the block holding the referenced output, the output
/// index, and the output's value in satoshis.
#[derive(Clone, Copy, Debug, PartialEq, Eq, Structural)]
pub struct CompactedTxIn {
    pub prev_txid_prefix: u32,
    pub prev_block_height: u32,
    pub prev_vout: u16,
    pub prev_value: u64,
}

/// One non-coinbase transaction: its own 4-byte txid prefix, its inputs in
/// on-chain order, and its output values in satoshis, in on-chain order.
#[derive(Clone, Debug)]
pub struct CompactedTx {
    pub txid_prefix: u32,
    pub inputs: Vec<CompactedTxIn>,
    pub outputs: Vec<u64>,
}

/// The lossy projection of one block: the coinbase's txid prefix and total
/// output value, then every other transaction in on-chain order.
#[derive(Clone, Debug)]
pub struct CompactedBlock {
    pub coinbase_txid_prefix: u32,
    pub coinbase_value: u64,
    pub transactions: Vec<CompactedTx>,
}

/// The mathematical value of a compacted transaction.
pub ghost struct CompactedTxView {
    pub txid_prefix: u32,
    pub inputs: Seq<CompactedTxIn>,
    pub outputs: Seq<u64>,
}

/// The mathematical value of a compacted block.
pub ghost struct CompactedBlockView {
    pub coinbase_txid_prefix: u32,
    pub coinbase_value: u64,
    pub transactions: Seq<CompactedTxView>,
}

impl View for CompactedTx {
    type V = CompactedTxView;

    open spec fn view(&self) -> CompactedTxView {
        CompactedTxView {
            txid_prefix: self.txid_prefix,
            inputs: self.inputs@,
            outputs: self.outputs@,
        }
    }
}

impl View for CompactedBlock {
    type V = CompactedBlockView;

    open spec fn view(&self) -> CompactedBlockView {
        CompactedBlockView {
            coinbase_txid_prefix: self.coinbase_txid_prefix,
            coinbase_value: self.coinbase_value,
            transactions: Seq::new(self.transactions@.len(), |i: int| self.transactions@[i]@),
        }
    }
}

/// Whether a transaction's element counts fit the encoding's length fields.
pub open spec fn wf_tx(t: CompactedTxView) -> bool {
    t.inputs.len() <= u64::MAX && t.outputs.len() <= u64::MAX
}

/// Whether a block's element counts fit the encoding's length fields.
pub open spec fn wf_block(b: CompactedBlockView) -> bool {
    &&& b.transactions.len() <= u64::MAX
    &&& forall|i: int| 0 <= i < b.transactions.len() ==> wf_tx(#[trigger] b.transactions[i])
}

// ---------------------------------------------------------------------------
// The encoding, as a mathematical function of the block's value.
// ---------------------------------------------------------------------------

/// `n` written as `k` big-endian bytes (the low `8 * k` bits of `n`).
pub open spec fn be_bytes(k: nat, n: int) -> Seq<u8>
    decreases k,
{
    if k == 0 {
        Seq::empty()
    } else {
        be_bytes((k - 1) as nat, n / 256).push((n % 256) as u8)
    }
}

/// 256 to the power `k`.
pub open spec fn pow256(k: nat) -> int
    decreases k,
{
    if k == 0 {
        1
    } else {
        256 * pow256((k - 1) as nat)
    }
}

/// The header of one CBOR item of major type `major` with argument `n`,
/// always using the shortest argument form.
pub open spec fn enc_head(major: u8, n: u64) -> Seq<u8> {
    if n < 24 {
        seq![(major * 32 + n) as u8]
    } else if n < 256 {
        seq![(major * 32 + 24) as u8, n as u8]
    } else if n < 65536 {
        seq![(major * 32 + 25) as u8] + be_bytes(2, n as int)
    } else if n < 0x1_0000_0000 {
        seq![(major * 32 + 26) as u8] + be_bytes(4, n as int)
    } else {
        seq![(major * 32 + 27) as u8] + be_bytes(8, n as int)
    }
}

/// An unsigned integer item.
pub open spec fn enc_uint(n: u64) -> Seq<u8> {
    enc_head(0, n)
}

/// One encoded input.
pub open spec fn enc_txin(x: CompactedTxIn) -> Seq<u8> {
    enc_head(4, 4) + enc_uint(x.prev_txid_prefix as u64) + enc_uint(x.prev_block_height as u64)
        + enc_uint(x.prev_vout as u64) + enc_uint(x.prev_value)
}

/// The encoded elements of an input list, in order.
pub open spec fn enc_txins(s: Seq<CompactedTxIn>) -> Seq<u8>
    decreases s.len(),
{
    if s.len() == 0 {
        Seq::empty()
    } else {
        enc_txin(s[0]) + enc_txins(s.drop_first())
    }
}

/// The encoded elements of an output-value list, in order.
pub open spec fn enc_vals(s: Seq<u64>) -> Seq<u8>
    decreases s.len(),
{
    if s.len() == 0 {
        Seq::empty()
    } else {
        enc_uint(s[0]) + enc_vals(s.drop_first())
    }
}

/// One encoded transaction.
pub open spec fn enc_tx(t: CompactedTxView) -> Seq<u8> {
    enc_head(4, 3) + enc_uint(t.txid_prefix as u64) + enc_head(4, t.inputs.len() as u64)
        + enc_txins(t.inputs) + enc_head(4, t.outputs.len() as u64) + enc_vals(t.outputs)
}

/// The encoded elements of a transaction list, in order.
pub open spec fn enc_txs(s: Seq<CompactedTxView>) -> Seq<u8>
    decreases s.len(),
{
    if s.len() == 0 {
        Seq::empty()
    } else {
        enc_tx(s[0]) + enc_txs(s.drop_first())
    }
}

/// The encoding of a whole block.
pub open spec fn enc_block(b: CompactedBlockView) -> Seq<u8> {
    enc_head(4, 3) + enc_uint(b.coinbase_txid_prefix as u64) + enc_uint(b.coinbase_value)
        + enc_head(4, b.transactions.len() as u64) + enc_txs(b.transactions)
}

// ---------------------------------------------------------------------------
// The parser, as a mathematical function of the bytes.
// ---------------------------------------------------------------------------

/// The big-endian value of bytes `s[i .. i + k]`.
pub open spec fn be_val(s: Seq<u8>, i: int, k: nat) -> int
    decreases k,
{
    if k == 0 {
        0
    } else {
        be_val(s, i, (k - 1) as nat) * 256 + s[i + k - 1]
    }
}

/// Reads one item header at `i`: its major type, its argument, and the
/// position after the header.
pub open spec fn parse_head(s: Seq<u8>, i: int) -> Option<(u8, u64, int)> {
    if 0 <= i < s.len() {
        let b = s[i];
        let major = (b / 32) as u8;
        let ai = b % 32;
        if ai < 24 {
            Some((major, ai as u64, i + 1))
        } else if ai == 24 && i + 2 <= s.len() {
            Some((major, s[i + 1] as u64, i + 2))
        } else if ai == 25 && i + 3 <= s.len() {
            Some((major, be_val(s, i + 1, 2) as u64, i + 3))
        } else if ai == 26 && i + 5 <= s.len() {
            Some((major, be_val(s, i + 1, 4) as u64, i + 5))
        } else if ai == 27 && i + 9 <= s.len() {
            Some((major, be_val(s, i + 1, 8) as u64, i + 9))
        } else {
            None
        }
    } else {
        None
    }
}

/// Reads one unsigned integer item at `i`.
pub open spec fn parse_uint(s: Seq<u8>, i: int) -> Option<(u64, int)> {
    match parse_head(s, i) {
        Some((major, n, j)) => if major == 0 {
            Some((n, j))
        } else {
            None
        },
        None => None,
    }
}

/// Reads one array header at `i`, yielding the element count.
pub open spec fn parse_arr(s: Seq<u8>, i: int) -> Option<(u64, int)> {
    match parse_head(s, i) {
        Some((major, n, j)) => if major == 4 {
            Some((n, j))
        } else {
            None
        },
        None => None,
    }
}

/// Reads one encoded input at `i`.
pub open spec fn parse_txin(s: Seq<u8>, i: int) -> Option<(CompactedTxIn, int)> {
    match parse_arr(s, i) {
        Some((cnt, j0)) => if cnt == 4 {
            match parse_uint(s, j0) {
                Some((prefix, j1)) => if prefix <= u32::MAX {
                    match parse_uint(s, j1) {
                        Some((height, j2)) => if height <= u32::MAX {
                            match parse_uint(s, j2) {
                                Some((vout, j3)) => if vout <= u16::MAX {
                                    match parse_uint(s, j3) {
                                        Some((value, j4)) => Some((
                                            CompactedTxIn {
                                                prev_txid_prefix: prefix as u32,
                                                prev_block_height: height as u32,
                                                prev_vout: vout as u16,
                                                prev_value: value,
                                            },
                                            j4,
                                        )),
                                        None => None,
                                    }
                                } else {
                                    None
                                },
                                None => None,
                            }
                        } else {
                            None
                        },
                        None => None,
                    }
                } else {
                    None
                },
                None => None,
            }
        } else {
            None
        },
        None => None,
    }
}

/// Reads `cnt` encoded inputs starting at `i`.
pub open spec fn parse_txins(s: Seq<u8>, i: int, cnt: nat) -> Option<(Seq<CompactedTxIn>, int)>
    decreases cnt,
{
    if cnt == 0 {
        Some((Seq::empty(), i))
    } else {
        match parse_txin(s, i) {
            Some((x, j)) => match parse_txins(s, j, (cnt - 1) as nat) {
                Some((xs, k)) => Some((seq![x] + xs, k)),
                None => None,
            },
            None => None,
        }
    }
}

/// Reads `cnt` unsigned integer items starting at `i`.
pub open spec fn parse_vals(s: Seq<u8>, i: int, cnt: nat) -> Option<(Seq<u64>, int)>
    decreases cnt,
{
    if cnt == 0 {
        Some((Seq::empty(), i))
    } else {
        match parse_uint(s, i) {
            Some((x, j)) => match parse_vals(s, j, (cnt - 1) as nat) {
                Some((xs, k)) => Some((seq![x] + xs, k)),
                None => None,
            },
            None => None,
        }
    }
}

/// Reads one encoded transaction at `i`.
pub open spec fn parse_tx(s: Seq<u8>, i: int) -> Option<(CompactedTxView, int)> {
    match parse_arr(s, i) {
        Some((cnt, j0)) => if cnt == 3 {
            match parse_uint(s, j0) {
                Some((prefix, j1)) => if prefix <= u32::MAX {
                    match parse_arr(s, j1) {
                        Some((n_in, j2)) => match parse_txins(s, j2, n_in as nat) {
                            Some((inputs, j3)) => match parse_arr(s, j3) {
                                Some((n_out, j4)) => match parse_vals(s, j4, n_out as nat) {
                                    Some((outputs, j5)) => Some((
                                        CompactedTxView {
                                            txid_prefix: prefix as u32,
                                            inputs,
                                            outputs,
                                        },
                                        j5,
                                    )),
                                    None => None,
                                },
                                None => None,
                            },
                            None => None,
                        },
                        None => None,
                    }
                } else {
                    None
                },
                None => None,
            }
        } else {
            None
        },
        None => None,
    }
}

/// Reads `cnt` encoded transactions starting at `i`.
pub open spec fn parse_txs(s: Seq<u8>, i: int, cnt: nat) -> Option<(Seq<CompactedTxView>, int)>
    decreases cnt,
{
    if cnt == 0 {
        Some((Seq::empty(), i))
    } else {
        match parse_tx(s, i) {
            Some((x, j)) => match parse_txs(s, j, (cnt - 1) as nat) {
                Some((xs, k)) => Some((seq![x] + xs, k)),
                None => None,
            },
            None => None,
        }
    }
}

/// Reads one encoded block at `i`.
pub open spec fn parse_block_at(s: Seq<u8>, i: int) -> Option<(CompactedBlockView, int)> {
    match parse_arr(s, i) {
        Some((cnt, j0)) => if cnt == 3 {
            match parse_uint(s, j0) {
                Some((prefix, j1)) => if prefix <= u32::MAX {
                    match parse_uint(s, j1) {
                        Some((value, j2)) => match parse_arr(s, j2) {
                            Some((n_txs, j3)) => match parse_txs(s, j3, n_txs as nat) {
                                Some((txs, j4)) => Some((
                                    CompactedBlockView {
                                        coinbase_txid_prefix: prefix as u32,
                                        coinbase_value: value,
                                        transactions: txs,
                                    },
                                    j4,
                                )),
                                None => None,
                            },
                            None => None,
                        },
                        None => None,
                    }
                } else {
                    None
                },
                None => None,
            }
        } else {
            None
        },
        None => None,
    }
}

/// Parses a whole blob: one block item consuming every byte.
pub open spec fn parse_block(s: Seq<u8>) -> Option<CompactedBlockView> {
    match parse_block_at(s, 0) {
        Some((b, j)) => if j == s.len() {
            Some(b)
        } else {
            None
        },
        None => None,
    }
}

/// The blob a hex-encoded stored row denotes, if it is valid.
pub open spec fn block_of_hex(text: Seq<char>) -> Option<CompactedBlockView> {
    match unhex(text) {
        Some(bytes) => parse_block(bytes),
        None => None,
    }
}


// ---------------------------------------------------------------------------
// Round trip: parsing an encoding yields the encoded value.
// ---------------------------------------------------------------------------

proof fn lemma_pow256_vals()
    ensures
        pow256(1) == 256,
        pow256(2) == 65536,
        pow256(4) == 0x1_0000_0000,
        pow256(8) == 0x1_0000_0000_0000_0000,
{
    reveal_with_fuel(pow256, 9);
}

proof fn lemma_be_bytes_len(k: nat, n: int)
    ensures
        be_bytes(k, n).len() == k,
    decreases k,
{
    if k > 0 {
        lemma_be_bytes_len((k - 1) as nat, n / 256);
    }
}

/// Splits a subrange equality over a concatenation into its two halves.
proof fn lemma_subrange_cat(s: Seq<u8>, i: int, a: Seq<u8>, b: Seq<u8>)
    requires
        0 <= i,
        i + a.len() + b.len() <= s.len(),
        s.subrange(i, i + a.len() + b.len()) == a + b,
    ensures
        s.subrange(i, i + a.len()) == a,
        s.subrange(i + a.len(), i + a.len() + b.len()) == b,
{
    let whole = s.subrange(i, i + a.len() + b.len());
    assert forall|t: int| 0 <= t < a.len() implies s.subrange(i, i + a.len())[t] == a[t] by {
        assert(whole[t] == (a + b)[t]);
    }
    assert(s.subrange(i, i + a.len()) =~= a);
    assert forall|t: int| 0 <= t < b.len()
        implies s.subrange(i + a.len(), i + a.len() + b.len())[t] == b[t] by {
        assert(whole[a.len() + t] == (a + b)[a.len() + t]);
    }
    assert(s.subrange(i + a.len(), i + a.len() + b.len()) =~= b);
}

proof fn lemma_be_val_of_bytes(s: Seq<u8>, i: int, k: nat, n: int)
    requires
        0 <= n < pow256(k),
        0 <= i,
        i + k <= s.len(),
        s.subrange(i, i + k) == be_bytes(k, n),
    ensures
        be_val(s, i, k) == n,
    decreases k,
{
    if k == 0 {
        assert(n == 0);
    } else {
        let pre = be_bytes((k - 1) as nat, n / 256);
        lemma_be_bytes_len((k - 1) as nat, n / 256);
        let whole = s.subrange(i, i + k);
        assert forall|t: int| 0 <= t < k - 1 implies s.subrange(i, i + (k - 1))[t] == pre[t] by {
            assert(whole[t] == pre.push((n % 256) as u8)[t]);
        }
        assert(s.subrange(i, i + (k - 1)) =~= pre);
        assert(s[i + k - 1] == whole[k - 1]);
        assert(whole[k - 1] == pre.push((n % 256) as u8)[k - 1]);
        assert(s[i + k - 1] == (n % 256) as u8);
        assert(n / 256 < pow256((k - 1) as nat));
        lemma_be_val_of_bytes(s, i, (k - 1) as nat, n / 256);
        assert(be_val(s, i, k) == (n / 256) * 256 + (n % 256));
    }
}

/// A header written by `enc_head` parses back to its major type, its
/// argument, and the position just after it.
proof fn lemma_parse_head_enc(s: Seq<u8>, i: int, major: u8, n: u64)
    requires
        major == 0 || major == 4,
        0 <= i,
        i + enc_head(major, n).len() <= s.len(),
        s.subrange(i, i + enc_head(major, n).len()) == enc_head(major, n),
    ensures
        parse_head(s, i) == Some((major, n, i + enc_head(major, n).len())),
{
    lemma_pow256_vals();
    let h = enc_head(major, n);
    let whole = s.subrange(i, i + h.len());
    assert(s[i] == whole[0]);
    if n < 24 {
        assert(s[i] == (major * 32 + n) as u8);
    } else if n < 256 {
        assert(s[i] == (major * 32 + 24) as u8);
        assert(s[i + 1] == whole[1]);
        assert(s[i + 1] == n as u8);
    } else if n < 65536 {
        lemma_be_bytes_len(2, n as int);
        assert(s[i] == (major * 32 + 25) as u8);
        lemma_subrange_cat(s, i, seq![(major * 32 + 25) as u8], be_bytes(2, n as int));
        lemma_be_val_of_bytes(s, i + 1, 2, n as int);
    } else if n < 0x1_0000_0000 {
        lemma_be_bytes_len(4, n as int);
        assert(s[i] == (major * 32 + 26) as u8);
        lemma_subrange_cat(s, i, seq![(major * 32 + 26) as u8], be_bytes(4, n as int));
        lemma_be_val_of_bytes(s, i + 1, 4, n as int);
    } else {
        lemma_be_bytes_len(8, n as int);
        assert(s[i] == (major * 32 + 27) as u8);
        lemma_subrange_cat(s, i, seq![(major * 32 + 27) as u8], be_bytes(8, n as int));
        lemma_be_val_of_bytes(s, i + 1, 8, n as int);
    }
}

proof fn lemma_parse_uint_enc(s: Seq<u8>, i: int, n: u64)
    requires
        0 <= i,
        i + enc_uint(n).len() <= s.len(),
        s.subrange(i, i + enc_uint(n).len()) == enc_uint(n),
    ensures
        parse_uint(s, i) == Some((n, i + enc_uint(n).len())),
{
    lemma_parse_head_enc(s, i, 0, n);
}

proof fn lemma_parse_arr_enc(s: Seq<u8>, i: int, n: u64)
    requires
        0 <= i,
        i + enc_head(4, n).len() <= s.len(),
        s.subrange(i, i + enc_head(4, n).len()) == enc_head(4, n),
    ensures
        parse_arr(s, i) == Some((n, i + enc_head(4, n).len())),
{
    lemma_parse_head_enc(s, i, 4, n);
}

#[verifier::rlimit(100)]
proof fn lemma_parse_txin_enc(s: Seq<u8>, i: int, x: CompactedTxIn)
    requires
        0 <= i,
        i + enc_txin(x).len() <= s.len(),
        s.subrange(i, i + enc_txin(x).len()) == enc_txin(x),
    ensures
        parse_txin(s, i) == Some((x, i + enc_txin(x).len())),
{
    let h = enc_head(4, 4);
    let p1 = enc_uint(x.prev_txid_prefix as u64);
    let p2 = enc_uint(x.prev_block_height as u64);
    let p3 = enc_uint(x.prev_vout as u64);
    let p4 = enc_uint(x.prev_value);
    lemma_subrange_cat(s, i, h + p1 + p2 + p3, p4);
    lemma_subrange_cat(s, i, h + p1 + p2, p3);
    lemma_subrange_cat(s, i, h + p1, p2);
    lemma_subrange_cat(s, i, h, p1);
    lemma_parse_arr_enc(s, i, 4);
    lemma_parse_uint_enc(s, i + h.len(), x.prev_txid_prefix as u64);
    lemma_parse_uint_enc(s, i + h.len() + p1.len(), x.prev_block_height as u64);
    lemma_parse_uint_enc(s, i + h.len() + p1.len() + p2.len(), x.prev_vout as u64);
    lemma_parse_uint_enc(s, i + h.len() + p1.len() + p2.len() + p3.len(), x.prev_value);
}

proof fn lemma_parse_txins_enc(s: Seq<u8>, i: int, xs: Seq<CompactedTxIn>)
    requires
        0 <= i,
        i + enc_txins(xs).len() <= s.len(),
        s.subrange(i, i + enc_txins(xs).len()) == enc_txins(xs),
    ensures
        parse_txins(s, i, xs.len()) == Some((xs, i + enc_txins(xs).len())),
    decreases xs.len(),
{
    if xs.len() == 0 {
        assert(xs =~= Seq::<CompactedTxIn>::empty());
    } else {
        lemma_subrange_cat(s, i, enc_txin(xs[0]), enc_txins(xs.drop_first()));
        lemma_parse_txin_enc(s, i, xs[0]);
        lemma_parse_txins_enc(s, i + enc_txin(xs[0]).len(), xs.drop_first());
        assert(seq![xs[0]] + xs.drop_first() =~= xs);
    }
}

proof fn lemma_parse_vals_enc(s: Seq<u8>, i: int, xs: Seq<u64>)
    requires
        0 <= i,
        i + enc_vals(xs).len() <= s.len(),
        s.subrange(i, i + enc_vals(xs).len()) == enc_vals(xs),
    ensures
        parse_vals(s, i, xs.len()) == Some((xs, i + enc_vals(xs).len())),
    decreases xs.len(),
{
    if xs.len() == 0 {
        assert(xs =~= Seq::<u64>::empty());
    } else {
        lemma_subrange_cat(s, i, enc_uint(xs[0]), enc_vals(xs.drop_first()));
        lemma_parse_uint_enc(s, i, xs[0]);
        lemma_parse_vals_enc(s, i + enc_uint(xs[0]).len(), xs.drop_first());
        assert(seq![xs[0]] + xs.drop_first() =~= xs);
    }
}

#[verifier::rlimit(100)]
proof fn lemma_parse_tx_enc(s: Seq<u8>, i: int, t: CompactedTxView)
    requires
        wf_tx(t),
        0 <= i,
        i + enc_tx(t).len() <= s.len(),
        s.subrange(i, i + enc_tx(t).len()) == enc_tx(t),
    ensures
        parse_tx(s, i) == Some((t, i + enc_tx(t).len())),
{
    let h3 = enc_head(4, 3);
    let pfx = enc_uint(t.txid_prefix as u64);
    let hin = enc_head(4, t.inputs.len() as u64);
    let ins = enc_txins(t.inputs);
    let hout = enc_head(4, t.outputs.len() as u64);
    let outs = enc_vals(t.outputs);
    lemma_subrange_cat(s, i, h3 + pfx + hin + ins + hout, outs);
    lemma_subrange_cat(s, i, h3 + pfx + hin + ins, hout);
    lemma_subrange_cat(s, i, h3 + pfx + hin, ins);
    lemma_subrange_cat(s, i, h3 + pfx, hin);
    lemma_subrange_cat(s, i, h3, pfx);
    lemma_parse_arr_enc(s, i, 3);
    lemma_parse_uint_enc(s, i + h3.len(), t.txid_prefix as u64);
    lemma_parse_arr_enc(s, i + h3.len() + pfx.len(), t.inputs.len() as u64);
    lemma_parse_txins_enc(s, i + h3.len() + pfx.len() + hin.len(), t.inputs);
    lemma_parse_arr_enc(s, i + h3.len() + pfx.len() + hin.len() + ins.len(),
        t.outputs.len() as u64);
    lemma_parse_vals_enc(s, i + h3.len() + pfx.len() + hin.len() + ins.len() + hout.len(),
        t.outputs);
}

proof fn lemma_parse_txs_enc(s: Seq<u8>, i: int, xs: Seq<CompactedTxView>)
    requires
        forall|k: int| 0 <= k < xs.len() ==> wf_tx(#[trigger] xs[k]),
        0 <= i,
        i + enc_txs(xs).len() <= s.len(),
        s.subrange(i, i + enc_txs(xs).len()) == enc_txs(xs),
    ensures
        parse_txs(s, i, xs.len()) == Some((xs, i + enc_txs(xs).len())),
    decreases xs.len(),
{
    if xs.len() == 0 {
        assert(xs =~= Seq::<CompactedTxView>::empty());
    } else {
        lemma_subrange_cat(s, i, enc_tx(xs[0]), enc_txs(xs.drop_first()));
        lemma_parse_tx_enc(s, i, xs[0]);
        assert(forall|k: int| 0 <= k < xs.drop_first().len()
            ==> wf_tx(#[trigger] xs.drop_first()[k]));
        lemma_parse_txs_enc(s, i + enc_tx(xs[0]).len(), xs.drop_first());
        assert(seq![xs[0]] + xs.drop_first() =~= xs);
    }
}

/// Parsing the encoding of any well-formed block yields that block and
/// consumes every byte: `decode` is a left inverse of `encode`.
#[verifier::rlimit(100)]
pub proof fn lemma_codec_round_trip(b: CompactedBlockView)
    requires
        wf_block(b),
    ensures
        parse_block(enc_block(b)) == Some(b),
{
    let s = enc_block(b);
    let h3 = enc_head(4, 3);
    let pfx = enc_uint(b.coinbase_txid_prefix as u64);
    let val = enc_uint(b.coinbase_value);
    let htx = enc_head(4, b.transactions.len() as u64);
    let txs = enc_txs(b.transactions);
    assert(s.subrange(0, s.len() as int) =~= s);
    lemma_subrange_cat(s, 0, h3 + pfx + val + htx, txs);
    lemma_subrange_cat(s, 0, h3 + pfx + val, htx);
    lemma_subrange_cat(s, 0, h3 + pfx, val);
    lemma_subrange_cat(s, 0, h3, pfx);
    lemma_parse_arr_enc(s, 0, 3);
    lemma_parse_uint_enc(s, h3.len() as int, b.coinbase_txid_prefix as u64);
    lemma_parse_uint_enc(s, (h3.len() + pfx.len()) as int, b.coinbase_value);
    lemma_parse_arr_enc(s, (h3.len() + pfx.len() + val.len()) as int, b.transactions.len() as u64);
    lemma_parse_txs_enc(s, (h3.len() + pfx.len() + val.len() + htx.len()) as int, b.transactions);
}


// ---------------------------------------------------------------------------
// Helper lemmas for the executable encoder and decoder.
// ---------------------------------------------------------------------------

proof fn lemma_pow256_pos(k: nat)
    ensures
        pow256(k) >= 1,
    decreases k,
{
    if k > 0 {
        lemma_pow256_pos((k - 1) as nat);
    }
}

proof fn lemma_pow256_mono(a: nat, b: nat)
    requires
        a <= b,
    ensures
        pow256(a) <= pow256(b),
    decreases b,
{
    lemma_pow256_pos(a);
    if a < b {
        lemma_pow256_mono(a, (b - 1) as nat);
        lemma_pow256_pos((b - 1) as nat);
    }
}

proof fn lemma_be_val_bound(s: Seq<u8>, i: int, k: nat)
    ensures
        0 <= be_val(s, i, k) < pow256(k),
    decreases k,
{
    if k > 0 {
        lemma_be_val_bound(s, i, (k - 1) as nat);
    }
}

proof fn lemma_enc_txins_snoc(s: Seq<CompactedTxIn>, x: CompactedTxIn)
    ensures
        enc_txins(s.push(x)) == enc_txins(s) + enc_txin(x),
    decreases s.len(),
{
    if s.len() == 0 {
        assert(s.push(x).drop_first() =~= Seq::<CompactedTxIn>::empty());
        assert(s.push(x)[0] == x);
        assert(enc_txins(s.push(x)) == enc_txin(x) + enc_txins(Seq::<CompactedTxIn>::empty()));
        assert(enc_txins(s.push(x)) =~= enc_txins(s) + enc_txin(x));
    } else {
        assert(s.push(x).drop_first() =~= s.drop_first().push(x));
        lemma_enc_txins_snoc(s.drop_first(), x);
        assert(s.push(x)[0] == s[0]);
        assert(enc_txins(s.push(x)) == enc_txin(s[0]) + enc_txins(s.drop_first().push(x)));
        assert(enc_txins(s.push(x)) == enc_txin(s[0]) + (enc_txins(s.drop_first()) + enc_txin(x)));
        assert(enc_txins(s.push(x)) =~= enc_txins(s) + enc_txin(x));
    }
}

proof fn lemma_enc_vals_snoc(s: Seq<u64>, x: u64)
    ensures
        enc_vals(s.push(x)) == enc_vals(s) + enc_uint(x),
    decreases s.len(),
{
    if s.len() == 0 {
        assert(s.push(x).drop_first() =~= Seq::<u64>::empty());
        assert(s.push(x)[0] == x);
        assert(enc_vals(s.push(x)) == enc_uint(x) + enc_vals(Seq::<u64>::empty()));
        assert(enc_vals(s.push(x)) =~= enc_vals(s) + enc_uint(x));
    } else {
        assert(s.push(x).drop_first() =~= s.drop_first().push(x));
        lemma_enc_vals_snoc(s.drop_first(), x);
        assert(s.push(x)[0] == s[0]);
        assert(enc_vals(s.push(x)) == enc_uint(s[0]) + enc_vals(s.drop_first().push(x)));
        assert(enc_vals(s.push(x)) == enc_uint(s[0]) + (enc_vals(s.drop_first()) + enc_uint(x)));
        assert(enc_vals(s.push(x)) =~= enc_vals(s) + enc_uint(x));
    }
}

proof fn lemma_enc_txs_snoc(s: Seq<CompactedTxView>, x: CompactedTxView)
    ensures
        enc_txs(s.push(x)) == enc_txs(s) + enc_tx(x),
    decreases s.len(),
{
    if s.len() == 0 {
        assert(s.push(x).drop_first() =~= Seq::<CompactedTxView>::empty());
        assert(s.push(x)[0] == x);
        assert(enc_txs(s.push(x)) == enc_tx(x) + enc_txs(Seq::<CompactedTxView>::empty()));
        assert(enc_txs(s.push(x)) =~= enc_txs(s) + enc_tx(x));
    } else {
        assert(s.push(x).drop_first() =~= s.drop_first().push(x));
        lemma_enc_txs_snoc(s.drop_first(), x);
        assert(s.push(x)[0] == s[0]);
        assert(enc_txs(s.push(x)) == enc_tx(s[0]) + enc_txs(s.drop_first().push(x)));
        assert(enc_txs(s.push(x)) == enc_tx(s[0]) + (enc_txs(s.drop_first()) + enc_tx(x)));
        assert(enc_txs(s.push(x)) =~= enc_txs(s) + enc_tx(x));
    }
}

proof fn lemma_parse_txins_app(s: Seq<u8>, i: int, k: nat, m: nat)
    requires
        parse_txins(s, i, k) is Some,
    ensures
        parse_txins(s, i, k + m) == match parse_txins(s, parse_txins(s, i, k).unwrap().1, m) {
            Some((ys, l)) => Some((parse_txins(s, i, k).unwrap().0 + ys, l)),
            None => None::<(Seq<CompactedTxIn>, int)>,
        },
    decreases k,
{
    let (xs, j) = parse_txins(s, i, k).unwrap();
    if k == 0 {
        match parse_txins(s, j, m) {
            Some((ys, l)) => {
                assert(xs + ys =~= ys);
            },
            None => {},
        }
    } else {
        let (x0, j1) = parse_txin(s, i).unwrap();
        lemma_parse_txins_app(s, j1, (k - 1) as nat, m);
        let (tail, _jt) = parse_txins(s, j1, (k - 1) as nat).unwrap();
        match parse_txins(s, j, m) {
            Some((ys, l)) => {
                assert(seq![x0] + (tail + ys) =~= (seq![x0] + tail) + ys);
            },
            None => {},
        }
    }
}

proof fn lemma_parse_vals_app(s: Seq<u8>, i: int, k: nat, m: nat)
    requires
        parse_vals(s, i, k) is Some,
    ensures
        parse_vals(s, i, k + m) == match parse_vals(s, parse_vals(s, i, k).unwrap().1, m) {
            Some((ys, l)) => Some((parse_vals(s, i, k).unwrap().0 + ys, l)),
            None => None::<(Seq<u64>, int)>,
        },
    decreases k,
{
    let (xs, j) = parse_vals(s, i, k).unwrap();
    if k == 0 {
        match parse_vals(s, j, m) {
            Some((ys, l)) => {
                assert(xs + ys =~= ys);
            },
            None => {},
        }
    } else {
        let (x0, j1) = parse_uint(s, i).unwrap();
        lemma_parse_vals_app(s, j1, (k - 1) as nat, m);
        let (tail, _jt) = parse_vals(s, j1, (k - 1) as nat).unwrap();
        match parse_vals(s, j, m) {
            Some((ys, l)) => {
                assert(seq![x0] + (tail + ys) =~= (seq![x0] + tail) + ys);
            },
            None => {},
        }
    }
}

proof fn lemma_parse_txs_app(s: Seq<u8>, i: int, k: nat, m: nat)
    requires
        parse_txs(s, i, k) is Some,
    ensures
        parse_txs(s, i, k + m) == match parse_txs(s, parse_txs(s, i, k).unwrap().1, m) {
            Some((ys, l)) => Some((parse_txs(s, i, k).unwrap().0 + ys, l)),
            None => None::<(Seq<CompactedTxView>, int)>,
        },
    decreases k,
{
    let (xs, j) = parse_txs(s, i, k).unwrap();
    if k == 0 {
        match parse_txs(s, j, m) {
            Some((ys, l)) => {
                assert(xs + ys =~= ys);
            },
            None => {},
        }
    } else {
        let (x0, j1) = parse_tx(s, i).unwrap();
        lemma_parse_txs_app(s, j1, (k - 1) as nat, m);
        let (tail, _jt) = parse_txs(s, j1, (k - 1) as nat).unwrap();
        match parse_txs(s, j, m) {
            Some((ys, l)) => {
                assert(seq![x0] + (tail + ys) =~= (seq![x0] + tail) + ys);
            },
            None => {},
        }
    }
}

// ---------------------------------------------------------------------------
// The executable encoder.
// ---------------------------------------------------------------------------

/// Appends `n` as `k` big-endian bytes.
fn push_be(out: &mut Vec<u8>, k: u8, n: u64)
    ensures
        final(out)@ == old(out)@ + be_bytes(k as nat, n as int),
    decreases k,
{
    if k == 0 {
        proof {
            assert(old(out)@ + be_bytes(0, n as int) =~= old(out)@);
        }
        return;
    }
    push_be(out, k - 1, n / 256);
    out.push((n % 256) as u8);
    proof {
        assert(out@ =~= old(out)@ + be_bytes(k as nat, n as int));
    }
}

/// Appends one item header with major type `major` and argument `n`.
fn push_head(out: &mut Vec<u8>, major: u8, n: u64)
    requires
        major == 0 || major == 4,
    ensures
        final(out)@ == old(out)@ + enc_head(major, n),
{
    let tag: u8 = major * 32;
    if n < 24 {
        out.push(tag + (n as u8));
    } else if n < 256 {
        out.push(tag + 24);
        out.push(n as u8);
    } else if n < 65536 {
        out.push(tag + 25);
        push_be(out, 2, n);
    } else if n < 0x1_0000_0000 {
        out.push(tag + 26);
        push_be(out, 4, n);
    } else {
        out.push(tag + 27);
        push_be(out, 8, n);
    }
    proof {
        assert(out@ =~= old(out)@ + enc_head(major, n));
    }
}

/// Appends one encoded input.
fn push_txin(out: &mut Vec<u8>, x: &CompactedTxIn)
    ensures
        final(out)@ == old(out)@ + enc_txin(*x),
{
    push_head(out, 4, 4);
    push_head(out, 0, x.prev_txid_prefix as u64);
    push_head(out, 0, x.prev_block_height as u64);
    push_head(out, 0, x.prev_vout as u64);
    push_head(out, 0, x.prev_value);
    proof {
        assert(out@ =~= old(out)@ + enc_txin(*x));
    }
}

/// Appends one encoded transaction.
fn push_tx(out: &mut Vec<u8>, t: &CompactedTx)
    ensures
        final(out)@ == old(out)@ + enc_tx(t@),
        wf_tx(t@),
{
    push_head(out, 4, 3);
    push_head(out, 0, t.txid_prefix as u64);
    push_head(out, 4, t.inputs.len() as u64);
    let ghost mid0 = out@;
    let mut k: usize = 0;
    while k < t.inputs.len()
        invariant
            k <= t.inputs@.len(),
            out@ == mid0 + enc_txins(t.inputs@.take(k as int)),
        decreases t.inputs.len() - k,
    {
        push_txin(out, &t.inputs[k]);
        proof {
            lemma_enc_txins_snoc(t.inputs@.take(k as int), t.inputs@[k as int]);
            assert(t.inputs@.take(k as int).push(t.inputs@[k as int])
                =~= t.inputs@.take(k as int + 1));
            assert(out@ =~= mid0 + enc_txins(t.inputs@.take(k as int + 1)));
        }
        k = k + 1;
    }
    proof {
        assert(t.inputs@.take(t.inputs@.len() as int) =~= t.inputs@);
    }
    push_head(out, 4, t.outputs.len() as u64);
    let ghost mid1 = out@;
    let mut k2: usize = 0;
    while k2 < t.outputs.len()
        invariant
            k2 <= t.outputs@.len(),
            out@ == mid1 + enc_vals(t.outputs@.take(k2 as int)),
        decreases t.outputs.len() - k2,
    {
        push_head(out, 0, t.outputs[k2]);
        proof {
            lemma_enc_vals_snoc(t.outputs@.take(k2 as int), t.outputs@[k2 as int]);
            assert(t.outputs@.take(k2 as int).push(t.outputs@[k2 as int])
                =~= t.outputs@.take(k2 as int + 1));
            assert(out@ =~= mid1 + enc_vals(t.outputs@.take(k2 as int + 1)));
        }
        k2 = k2 + 1;
    }
    proof {
        assert(t.outputs@.take(t.outputs@.len() as int) =~= t.outputs@);
        assert(out@ =~= old(out)@ + enc_tx(t@));
    }
}


// ---------------------------------------------------------------------------
// The executable decoder.
// ---------------------------------------------------------------------------

/// Reads `k` big-endian bytes starting at `i`.
fn read_be(bytes: &Vec<u8>, i: usize, k: usize) -> (r: u64)
    requires
        k <= 8,
        i + k <= bytes@.len(),
    ensures
        r == be_val(bytes@, i as int, k as nat),
{
    proof {
        lemma_pow256_vals();
    }
    let blen = bytes.len();
    let mut acc: u64 = 0;
    let mut t: usize = 0;
    while t < k
        invariant
            k <= 8,
            t <= k,
            blen == bytes@.len(),
            i + k <= blen,
            acc == be_val(bytes@, i as int, t as nat),
            acc < pow256(t as nat),
            pow256(8) == 0x1_0000_0000_0000_0000,
        decreases k - t,
    {
        proof {
            lemma_be_val_bound(bytes@, i as int, (t + 1) as nat);
            lemma_pow256_mono((t + 1) as nat, 8);
        }
        acc = acc * 256 + (bytes[i + t] as u64);
        t = t + 1;
    }
    acc
}

/// Reads one item header at `i`: major type, argument, position after.
fn read_head(bytes: &Vec<u8>, i: usize) -> (r: Option<(u8, u64, usize)>)
    ensures
        match r {
            Some((major, n, j)) => {
                &&& parse_head(bytes@, i as int) == Some((major, n, j as int))
                &&& i < j <= bytes@.len()
            },
            None => parse_head(bytes@, i as int) is None,
        },
{
    if i >= bytes.len() {
        return None;
    }
    let b = bytes[i];
    let major = b / 32;
    let ai = b % 32;
    let remaining = bytes.len() - i;
    if ai < 24 {
        Some((major, ai as u64, i + 1))
    } else if ai == 24 && remaining >= 2 {
        Some((major, bytes[i + 1] as u64, i + 2))
    } else if ai == 25 && remaining >= 3 {
        Some((major, read_be(bytes, i + 1, 2), i + 3))
    } else if ai == 26 && remaining >= 5 {
        Some((major, read_be(bytes, i + 1, 4), i + 5))
    } else if ai == 27 && remaining >= 9 {
        Some((major, read_be(bytes, i + 1, 8), i + 9))
    } else {
        None
    }
}

/// Reads one unsigned integer item at `i`.
fn read_uint(bytes: &Vec<u8>, i: usize) -> (r: Option<(u64, usize)>)
    ensures
        match r {
            Some((n, j)) => {
                &&& parse_uint(bytes@, i as int) == Some((n, j as int))
                &&& i < j <= bytes@.len()
            },
            None => parse_uint(bytes@, i as int) is None,
        },
{
    match read_head(bytes, i) {
        Some((major, n, j)) => if major == 0 {
            Some((n, j))
        } else {
            None
        },
        None => None,
    }
}

/// Reads one array header at `i`.
fn read_arr(bytes: &Vec<u8>, i: usize) -> (r: Option<(u64, usize)>)
    ensures
        match r {
            Some((n, j)) => {
                &&& parse_arr(bytes@, i as int) == Some((n, j as int))
                &&& i < j <= bytes@.len()
            },
            None => parse_arr(bytes@, i as int) is None,
        },
{
    match read_head(bytes, i) {
        Some((major, n, j)) => if major == 4 {
            Some((n, j))
        } else {
            None
        },
        None => None,
    }
}

/// Reads one encoded input at `i`.
fn read_txin(bytes: &Vec<u8>, i: usize) -> (r: Option<(CompactedTxIn, usize)>)
    ensures
        match r {
            Some((x, j)) => {
                &&& parse_txin(bytes@, i as int) == Some((x, j as int))
                &&& i < j <= bytes@.len()
            },
            None => parse_txin(bytes@, i as int) is None,
        },
{
    let (cnt, j0) = match read_arr(bytes, i) {
        Some(p) => p,
        None => { return None; },
    };
    if cnt != 4 {
        return None;
    }
    let (prefix, j1) = match read_uint(bytes, j0) {
        Some(p) => p,
        None => { return None; },
    };
    if prefix > u32::MAX as u64 {
        return None;
    }
    let (height, j2) = match read_uint(bytes, j1) {
        Some(p) => p,
        None => { return None; },
    };
    if height > u32::MAX as u64 {
        return None;
    }
    let (vout, j3) = match read_uint(bytes, j2) {
        Some(p) => p,
        None => { return None; },
    };
    if vout > u16::MAX as u64 {
        return None;
    }
    let (value, j4) = match read_uint(bytes, j3) {
        Some(p) => p,
        None => { return None; },
    };
    Some((
        CompactedTxIn {
            prev_txid_prefix: prefix as u32,
            prev_block_height: height as u32,
            prev_vout: vout as u16,
            prev_value: value,
        },
        j4,
    ))
}

/// Reads `cnt` encoded inputs starting at `i`.
fn read_txins(bytes: &Vec<u8>, i: usize, cnt: u64) -> (r: Option<(Vec<CompactedTxIn>, usize)>)
    requires
        i <= bytes@.len(),
    ensures
        match r {
            Some((v, j)) => {
                &&& parse_txins(bytes@, i as int, cnt as nat) == Some((v@, j as int))
                &&& i <= j <= bytes@.len()
            },
            None => parse_txins(bytes@, i as int, cnt as nat) is None,
        },
{
    let mut acc: Vec<CompactedTxIn> = Vec::new();
    let mut cur: usize = i;
    let mut done: u64 = 0;
    while done < cnt
        invariant
            done <= cnt,
            i <= cur <= bytes@.len(),
            parse_txins(bytes@, i as int, done as nat) == Some((acc@, cur as int)),
        decreases cnt - done,
    {
        match read_txin(bytes, cur) {
            Some((x, nxt)) => {
                proof {
                    lemma_parse_txins_app(bytes@, i as int, done as nat, 1);
                    assert(parse_txins(bytes@, nxt as int, 0)
                        == Some((Seq::<CompactedTxIn>::empty(), nxt as int)));
                    assert(parse_txins(bytes@, cur as int, 1)
                        == Some((seq![x] + Seq::<CompactedTxIn>::empty(), nxt as int)));
                    assert(acc@ + (seq![x] + Seq::<CompactedTxIn>::empty()) =~= acc@.push(x));
                }
                acc.push(x);
                cur = nxt;
            },
            None => {
                proof {
                    lemma_parse_txins_app(bytes@, i as int, done as nat,
                        (cnt - done) as nat);
                    assert(parse_txins(bytes@, cur as int, (cnt - done) as nat) is None);
                }
                return None;
            },
        }
        done = done + 1;
    }
    Some((acc, cur))
}

/// Reads `cnt` unsigned integer items starting at `i`.
fn read_vals(bytes: &Vec<u8>, i: usize, cnt: u64) -> (r: Option<(Vec<u64>, usize)>)
    requires
        i <= bytes@.len(),
    ensures
        match r {
            Some((v, j)) => {
                &&& parse_vals(bytes@, i as int, cnt as nat) == Some((v@, j as int))
                &&& i <= j <= bytes@.len()
            },
            None => parse_vals(bytes@, i as int, cnt as nat) is None,
        },
{
    let mut acc: Vec<u64> = Vec::new();
    let mut cur: usize = i;
    let mut done: u64 = 0;
    while done < cnt
        invariant
            done <= cnt,
            i <= cur <= bytes@.len(),
            parse_vals(bytes@, i as int, done as nat) == Some((acc@, cur as int)),
        decreases cnt - done,
    {
        match read_uint(bytes, cur) {
            Some((x, nxt)) => {
                proof {
                    lemma_parse_vals_app(bytes@, i as int, done as nat, 1);
                    assert(parse_vals(bytes@, nxt as int, 0)
                        == Some((Seq::<u64>::empty(), nxt as int)));
                    assert(parse_vals(bytes@, cur as int, 1)
                        == Some((seq![x] + Seq::<u64>::empty(), nxt as int)));
                    assert(acc@ + (seq![x] + Seq::<u64>::empty()) =~= acc@.push(x));
                }
                acc.push(x);
                cur = nxt;
            },
            None => {
                proof {
                    lemma_parse_vals_app(bytes@, i as int, done as nat,
                        (cnt - done) as nat);
                    assert(parse_vals(bytes@, cur as int, (cnt - done) as nat) is None);
                }
                return None;
            },
        }
        done = done + 1;
    }
    Some((acc, cur))
}

/// The views of a list of decoded transactions.
pub open spec fn txs_view(v: Seq<CompactedTx>) -> Seq<CompactedTxView> {
    Seq::new(v.len(), |i: int| v[i]@)
}

/// Reads one encoded transaction at `i`.
fn read_tx(bytes: &Vec<u8>, i: usize) -> (r: Option<(CompactedTx, usize)>)
    ensures
        match r {
            Some((t, j)) => {
                &&& parse_tx(bytes@, i as int) == Some((t@, j as int))
                &&& i < j <= bytes@.len()
            },
            None => parse_tx(bytes@, i as int) is None,
        },
{
    let (cnt, j0) = match read_arr(bytes, i) {
        Some(p) => p,
        None => { return None; },
    };
    if cnt != 3 {
        return None;
    }
    let (prefix, j1) = match read_uint(bytes, j0) {
        Some(p) => p,
        None => { return None; },
    };
    if prefix > u32::MAX as u64 {
        return None;
    }
    let (n_in, j2) = match read_arr(bytes, j1) {
        Some(p) => p,
        None => { return None; },
    };
    let (inputs, j3) = match read_txins(bytes, j2, n_in) {
        Some(p) => p,
        None => { return None; },
    };
    let (n_out, j4) = match read_arr(bytes, j3) {
        Some(p) => p,
        None => { return None; },
    };
    let (outputs, j5) = match read_vals(bytes, j4, n_out) {
        Some(p) => p,
        None => { return None; },
    };
    let t = CompactedTx { txid_prefix: prefix as u32, inputs, outputs };
    Some((t, j5))
}

/// Reads `cnt` encoded transactions starting at `i`.
fn read_txs(bytes: &Vec<u8>, i: usize, cnt: u64) -> (r: Option<(Vec<CompactedTx>, usize)>)
    requires
        i <= bytes@.len(),
    ensures
        match r {
            Some((v, j)) => {
                &&& parse_txs(bytes@, i as int, cnt as nat) == Some((txs_view(v@), j as int))
                &&& i <= j <= bytes@.len()
            },
            None => parse_txs(bytes@, i as int, cnt as nat) is None,
        },
{
    let mut acc: Vec<CompactedTx> = Vec::new();
    let mut cur: usize = i;
    let mut done: u64 = 0;
    while done < cnt
        invariant
            done <= cnt,
            i <= cur <= bytes@.len(),
            parse_txs(bytes@, i as int, done as nat) == Some((txs_view(acc@), cur as int)),
        decreases cnt - done,
    {
        match read_tx(bytes, cur) {
            Some((t, nxt)) => {
                proof {
                    lemma_parse_txs_app(bytes@, i as int, done as nat, 1);
                    assert(parse_txs(bytes@, nxt as int, 0)
                        == Some((Seq::<CompactedTxView>::empty(), nxt as int)));
                    assert(parse_txs(bytes@, cur as int, 1)
                        == Some((seq![t@] + Seq::<CompactedTxView>::empty(), nxt as int)));
                    assert(txs_view(acc@) + (seq![t@] + Seq::<CompactedTxView>::empty())
                        =~= txs_view(acc@.push(t)));
                }
                acc.push(t);
                cur = nxt;
            },
            None => {
                proof {
                    lemma_parse_txs_app(bytes@, i as int, done as nat, (cnt - done) as nat);
                    assert(parse_txs(bytes@, cur as int, (cnt - done) as nat) is None);
                }
                return None;
            },
        }
        done = done + 1;
    }
    Some((acc, cur))
}

impl CompactedBlock {
    /// Encodes this block to its deterministic binary form.
    pub fn encode_bytes(&self) -> (r: Vec<u8>)
        ensures
            wf_block(self@),
            r@ == enc_block(self@),
    {
        let mut out: Vec<u8> = Vec::new();
        push_head(&mut out, 4, 3);
        push_head(&mut out, 0, self.coinbase_txid_prefix as u64);
        push_head(&mut out, 0, self.coinbase_value);
        push_head(&mut out, 4, self.transactions.len() as u64);
        let ghost mid = out@;
        let mut k: usize = 0;
        while k < self.transactions.len()
            invariant
                k <= self.transactions@.len(),
                out@ == mid + enc_txs(self@.transactions.take(k as int)),
                forall|t: int| 0 <= t < k ==> wf_tx(#[trigger] self@.transactions[t]),
            decreases self.transactions.len() - k,
        {
            push_tx(&mut out, &self.transactions[k]);
            proof {
                assert(self@.transactions[k as int] == self.transactions@[k as int]@);
                lemma_enc_txs_snoc(self@.transactions.take(k as int),
                    self@.transactions[k as int]);
                assert(self@.transactions.take(k as int).push(self@.transactions[k as int])
                    =~= self@.transactions.take(k as int + 1));
                assert(out@ =~= mid + enc_txs(self@.transactions.take(k as int + 1)));
            }
            k = k + 1;
        }
        proof {
            assert(self@.transactions.take(self.transactions@.len() as int)
                =~= self@.transactions);
            assert(out@ =~= enc_block(self@));
        }
        out
    }

    /// Decodes a binary blob back into a compacted block.  Succeeds exactly
    /// on the blobs the parser accepts; together with
    /// `lemma_codec_round_trip` this makes decoding undo encoding.
    pub fn from_bytes(bytes: &Vec<u8>) -> (r: Result<CompactedBlock, HordError>)
        ensures
            match r {
                Ok(b) => parse_block(bytes@) == Some(b@),
                Err(e) => parse_block(bytes@) is None && e == HordError::CorruptBlob,
            },
    {
        let (cnt, j0) = match read_arr(bytes, 0) {
            Some(p) => p,
            None => { return Err(HordError::CorruptBlob); },
        };
        if cnt != 3 {
            return Err(HordError::CorruptBlob);
        }
        let (prefix, j1) = match read_uint(bytes, j0) {
            Some(p) => p,
            None => { return Err(HordError::CorruptBlob); },
        };
        if prefix > u32::MAX as u64 {
            return Err(HordError::CorruptBlob);
        }
        let (value, j2) = match read_uint(bytes, j1) {
            Some(p) => p,
            None => { return Err(HordError::CorruptBlob); },
        };
        let (n_txs, j3) = match read_arr(bytes, j2) {
            Some(p) => p,
            None => { return Err(HordError::CorruptBlob); },
        };
        let (txs, j4) = match read_txs(bytes, j3, n_txs) {
            Some(p) => p,
            None => { return Err(HordError::CorruptBlob); },
        };
        if j4 != bytes.len() {
            return Err(HordError::CorruptBlob);
        }
        let b = CompactedBlock {
            coinbase_txid_prefix: prefix as u32,
            coinbase_value: value,
            transactions: txs,
        };
        proof {
            assert(b@.transactions =~= txs_view(txs@));
        }
        Ok(b)
    }

    /// Encodes this block and wraps it in the store's lowercase hex form.
    pub fn to_hex_bytes(&self) -> (r: String)
        ensures
            wf_block(self@),
            r@ == hex_of(enc_block(self@)),
            block_of_hex(r@) == Some(self@),
    {
        let bytes = self.encode_bytes();
        let r = crate::hex_text::hex_encode(&bytes);
        proof {
            crate::hex_text::lemma_hex_round_trip(bytes@);
            lemma_codec_round_trip(self@);
        }
        r
    }

    /// Reads a compacted block back from its stored hex form.  Fails with
    /// `CorruptBlob` exactly when the text is not the hex encoding of a
    /// parseable blob.
    pub fn from_hex_bytes(bytes: &str) -> (r: Result<CompactedBlock, HordError>)
        ensures
            match r {
                Ok(b) => block_of_hex(bytes@) == Some(b@),
                Err(e) => block_of_hex(bytes@) is None && e == HordError::CorruptBlob,
            },
    {
        match crate::hex_text::hex_decode(bytes) {
            Some(raw) => CompactedBlock::from_bytes(&raw),
            None => Err(HordError::CorruptBlob),
        }
    }
}

} // verus!
