use hord_db::codec::CompactedBlock;
use hord_db::compaction::{BitcoinBlockData, BitcoinBlockFullBreakdown, FullBlockPrevout,
    FullBlockTx, FullBlockTxIn, StandardizedPrevout, StandardizedTx, StandardizedTxIn,
    StandardizedTxMetadata};
use hord_db::errors::HordError;
use hord_db::identifiers::{BlockIdentifier, TransactionIdentifier};

fn full_block() -> BitcoinBlockFullBreakdown {
    BitcoinBlockFullBreakdown {
        height: 800_000,
        tx: vec![
            FullBlockTx {
                txid: String::from("aabbccdd00000000"),
                vin: vec![FullBlockTxIn { txid: None, vout: None, prevout: None }],
                vout: vec![600_000_000, 25_000_000],
            },
            FullBlockTx {
                txid: String::from("11111111ffffffff"),
                vin: vec![FullBlockTxIn {
                    txid: Some(String::from("22222222abcdef01")),
                    vout: Some(3),
                    prevout: Some(FullBlockPrevout { height: 799_999, value: 100_000_000 }),
                }],
                vout: vec![50_000_000],
            },
        ],
    }
}

fn standardized_block() -> BitcoinBlockData {
    BitcoinBlockData {
        block_identifier: BlockIdentifier {
            index: 800_000,
            hash: String::from("0xdeadbeef"),
        },
        transactions: vec![
            StandardizedTx {
                transaction_identifier: TransactionIdentifier {
                    hash: String::from("0xaabbccdd00000000"),
                },
                metadata: StandardizedTxMetadata {
                    inputs: vec![],
                    outputs: vec![600_000_000, 25_000_000],
                },
            },
            StandardizedTx {
                transaction_identifier: TransactionIdentifier {
                    hash: String::from("0x11111111ffffffff"),
                },
                metadata: StandardizedTxMetadata {
                    inputs: vec![StandardizedTxIn {
                        previous_output: StandardizedPrevout {
                            txid: String::from("0x22222222abcdef01"),
                            block_height: 799_999,
                            vout: 3,
                            value: 100_000_000,
                        },
                    }],
                    outputs: vec![50_000_000],
                },
            },
        ],
    }
}

#[test]
fn compacts_full_block() {
    let c = CompactedBlock::from_full_block(&full_block()).expect("compacts");
    assert_eq!(c.coinbase_txid_prefix, 0xaabbccdd);
    assert_eq!(c.coinbase_value, 625_000_000);
    assert_eq!(c.transactions.len(), 1);
    assert_eq!(c.transactions[0].txid_prefix, 0x11111111);
    assert_eq!(c.transactions[0].inputs.len(), 1);
    assert_eq!(c.transactions[0].inputs[0].prev_txid_prefix, 0x22222222);
    assert_eq!(c.transactions[0].inputs[0].prev_block_height, 799_999);
    assert_eq!(c.transactions[0].inputs[0].prev_vout, 3);
    assert_eq!(c.transactions[0].inputs[0].prev_value, 100_000_000);
    assert_eq!(c.transactions[0].outputs, vec![50_000_000]);
}

#[test]
fn compaction_equivalence_on_same_source() {
    let a = CompactedBlock::from_full_block(&full_block()).expect("compacts");
    let b = CompactedBlock::from_standardized_block(&standardized_block()).expect("compacts");
    assert_eq!(a.coinbase_txid_prefix, b.coinbase_txid_prefix);
    assert_eq!(a.coinbase_value, b.coinbase_value);
    assert_eq!(a.transactions.len(), b.transactions.len());
    for (ta, tb) in a.transactions.iter().zip(b.transactions.iter()) {
        assert_eq!(ta.txid_prefix, tb.txid_prefix);
        assert_eq!(ta.inputs, tb.inputs);
        assert_eq!(ta.outputs, tb.outputs);
    }
    assert_eq!(a.to_hex_bytes(), b.to_hex_bytes());
}

#[test]
fn empty_block_is_malformed() {
    let b = BitcoinBlockFullBreakdown { height: 1, tx: vec![] };
    assert_eq!(
        CompactedBlock::from_full_block(&b).unwrap_err(),
        HordError::MalformedBlock
    );
}

#[test]
fn short_txid_is_malformed() {
    let mut b = full_block();
    b.tx[0].txid = String::from("abc");
    assert_eq!(
        CompactedBlock::from_full_block(&b).unwrap_err(),
        HordError::MalformedBlock
    );
}

#[test]
fn non_hex_txid_is_malformed() {
    let mut b = full_block();
    b.tx[1].txid = String::from("zzzzzzzz00000000");
    assert_eq!(
        CompactedBlock::from_full_block(&b).unwrap_err(),
        HordError::MalformedBlock
    );
}

#[test]
fn trailing_garbage_in_txid_is_malformed() {
    // The whole txid must hex-decode, not just the prefix it contributes.
    let mut b = full_block();
    b.tx[1].txid = String::from("11111111zz");
    assert_eq!(
        CompactedBlock::from_full_block(&b).unwrap_err(),
        HordError::MalformedBlock
    );
    let mut b2 = full_block();
    b2.tx[1].vin[0].txid = Some(String::from("22222222abcdef0"));
    assert_eq!(
        CompactedBlock::from_full_block(&b2).unwrap_err(),
        HordError::MalformedBlock
    );
}

#[test]
fn out_of_range_input_fields_are_malformed() {
    let mut b = full_block();
    b.tx[1].vin[0].vout = Some(u16::MAX as u64 + 1);
    assert_eq!(
        CompactedBlock::from_full_block(&b).unwrap_err(),
        HordError::MalformedBlock
    );
    let mut b2 = full_block();
    b2.tx[1].vin[0].prevout = Some(FullBlockPrevout {
        height: u32::MAX as u64 + 1,
        value: 1,
    });
    assert_eq!(
        CompactedBlock::from_full_block(&b2).unwrap_err(),
        HordError::MalformedBlock
    );
}

#[test]
fn missing_input_field_is_malformed() {
    let mut b = full_block();
    b.tx[1].vin[0].prevout = None;
    assert_eq!(
        CompactedBlock::from_full_block(&b).unwrap_err(),
        HordError::MalformedBlock
    );
}

#[test]
fn coinbase_sum_overflow_is_malformed() {
    let mut b = full_block();
    b.tx[0].vout = vec![u64::MAX, 1];
    assert_eq!(
        CompactedBlock::from_full_block(&b).unwrap_err(),
        HordError::MalformedBlock
    );
}
