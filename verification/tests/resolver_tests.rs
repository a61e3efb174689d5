use hord_db::codec::{CompactedBlock, CompactedTx, CompactedTxIn};
use hord_db::errors::HordError;
use hord_db::identifiers::{BlockIdentifier, TransactionIdentifier};
use hord_db::ordinals::starting_sat;
use hord_db::resolver::{retrieve_satoshi_point_from_state,
    retrieve_satoshi_point_using_local_storage};
use hord_db::store::{initialize_hord_db, insert_entry_in_blocks};

fn fresh_store() -> rusqlite::Connection {
    let mut conn = rusqlite::Connection::open_in_memory().expect("in-memory database opens");
    assert!(initialize_hord_db(&mut conn));
    conn
}

fn block_id(index: u64) -> BlockIdentifier {
    BlockIdentifier {
        index,
        hash: String::from("0xdeadbeef"),
    }
}

fn tx_id(hash: &str) -> TransactionIdentifier {
    TransactionIdentifier {
        hash: String::from(hash),
    }
}

/// Height 800000: coinbase `aabbccdd...` worth 6.25e8 sats, plus one other
/// transaction.
fn block_800000() -> CompactedBlock {
    CompactedBlock {
        coinbase_txid_prefix: 0xaabbccdd,
        coinbase_value: 625_000_000,
        transactions: vec![CompactedTx {
            txid_prefix: 0x11111111,
            inputs: vec![CompactedTxIn {
                prev_txid_prefix: 0x22222222,
                prev_block_height: 799_000,
                prev_vout: 0,
                prev_value: 100,
            }],
            outputs: vec![50],
        }],
    }
}

#[test]
fn trivial_coinbase_resolution() {
    let mut conn = fresh_store();
    assert!(insert_entry_in_blocks(800_000, &block_800000(), &mut conn));
    let r = retrieve_satoshi_point_using_local_storage(
        &conn,
        &block_id(800_000),
        &tx_id("0xaabbccdd"),
    )
    .expect("resolves");
    assert_eq!(r, (800_000, 0, starting_sat(800_000)));
    assert_eq!(r.2, 1_943_750_000_000_000);
}

#[test]
fn single_hop_resolution() {
    let mut conn = fresh_store();
    assert!(insert_entry_in_blocks(800_000, &block_800000(), &mut conn));
    let block_800001 = CompactedBlock {
        coinbase_txid_prefix: 0x99999999,
        coinbase_value: 625_000_000,
        transactions: vec![CompactedTx {
            txid_prefix: 0x33333333,
            inputs: vec![CompactedTxIn {
                prev_txid_prefix: 0xaabbccdd,
                prev_block_height: 800_000,
                prev_vout: 0,
                prev_value: 100_000_000,
            }],
            outputs: vec![50_000_000, 50_000_000],
        }],
    };
    assert!(insert_entry_in_blocks(800_001, &block_800001, &mut conn));
    let r = retrieve_satoshi_point_using_local_storage(
        &conn,
        &block_id(800_001),
        &tx_id("0x33333333"),
    )
    .expect("resolves");
    assert_eq!(r.0, 800_000);
    assert_eq!(r.1, 0);
    assert_eq!(r.2, starting_sat(800_000));
}

#[test]
fn fee_descent_resolution() {
    let mut conn = fresh_store();
    assert!(insert_entry_in_blocks(800_000, &block_800000(), &mut conn));
    // At height 800002 one transaction takes 1e8 sats in and pays 9e7 out:
    // its fee is 1e7 sats.
    let block_800002 = CompactedBlock {
        coinbase_txid_prefix: 0x44444444,
        coinbase_value: 625_000_000,
        transactions: vec![CompactedTx {
            txid_prefix: 0x55555555,
            inputs: vec![CompactedTxIn {
                prev_txid_prefix: 0xaabbccdd,
                prev_block_height: 800_000,
                prev_vout: 0,
                prev_value: 100_000_000,
            }],
            outputs: vec![90_000_000],
        }],
    };
    assert!(insert_entry_in_blocks(800_002, &block_800002, &mut conn));
    // Resolving the coinbase of 800002 with an offset one past its own
    // value descends into the fee contributed by that transaction.
    let r = retrieve_satoshi_point_from_state(&conn, 800_002, 625_000_001, 0x44444444, 0)
        .expect("resolves");
    assert_eq!(r.0, 800_000);
    assert_eq!(r.1, 90_000_000);
    assert_eq!(r.2, starting_sat(800_000) + 90_000_000);
}

#[test]
fn second_output_accumulates_earlier_outputs() {
    let mut conn = fresh_store();
    assert!(insert_entry_in_blocks(800_000, &block_800000(), &mut conn));
    let block_800001 = CompactedBlock {
        coinbase_txid_prefix: 0x99999999,
        coinbase_value: 625_000_000,
        transactions: vec![CompactedTx {
            txid_prefix: 0x33333333,
            inputs: vec![CompactedTxIn {
                prev_txid_prefix: 0xaabbccdd,
                prev_block_height: 800_000,
                prev_vout: 0,
                prev_value: 100_000_000,
            }],
            outputs: vec![50_000_000, 50_000_000],
        }],
    };
    assert!(insert_entry_in_blocks(800_001, &block_800001, &mut conn));
    // Walking from the second output: the first output's 5e7 sats sit in
    // front of it, so the satoshi lands 5e7 deep in the earlier coinbase.
    let r = retrieve_satoshi_point_from_state(&conn, 800_001, 0, 0x33333333, 1)
        .expect("resolves");
    assert_eq!(r.0, 800_000);
    assert_eq!(r.1, 50_000_000);
    assert_eq!(r.2, starting_sat(800_000) + 50_000_000);
}

#[test]
fn fee_walk_crosses_earlier_transactions() {
    let mut conn = fresh_store();
    assert!(insert_entry_in_blocks(800_000, &block_800000(), &mut conn));
    // Two fee-paying transactions: 4e6 sats of fees, then 1e7 more.  An
    // offset 5,000,000 past the coinbase value falls inside the second one.
    let block_800003 = CompactedBlock {
        coinbase_txid_prefix: 0x66666666,
        coinbase_value: 625_000_000,
        transactions: vec![
            CompactedTx {
                txid_prefix: 0x77777777,
                inputs: vec![CompactedTxIn {
                    prev_txid_prefix: 0x11111111,
                    prev_block_height: 799_000,
                    prev_vout: 0,
                    prev_value: 10_000_000,
                }],
                outputs: vec![6_000_000],
            },
            CompactedTx {
                txid_prefix: 0x88888888,
                inputs: vec![
                    CompactedTxIn {
                        prev_txid_prefix: 0x22222222,
                        prev_block_height: 799_000,
                        prev_vout: 0,
                        prev_value: 30_000_000,
                    },
                    CompactedTxIn {
                        prev_txid_prefix: 0xaabbccdd,
                        prev_block_height: 800_000,
                        prev_vout: 0,
                        prev_value: 70_000_000,
                    },
                ],
                outputs: vec![90_000_000],
            },
        ],
    };
    assert!(insert_entry_in_blocks(800_003, &block_800003, &mut conn));
    // cut_off = 5e6 >= 4e6, so the second transaction contributes the
    // satoshi; its inputs accumulate 3e7 then 1e8 >= 9e7, selecting the
    // second input, which points back at the 800000 coinbase.
    let r = retrieve_satoshi_point_from_state(&conn, 800_003, 630_000_000, 0x66666666, 0)
        .expect("resolves");
    assert_eq!(r.0, 800_000);
    assert_eq!(r.1, 60_000_000);
    assert_eq!(r.2, starting_sat(800_000) + 60_000_000);
}

#[test]
fn missing_block_is_reported() {
    let conn = fresh_store();
    let r = retrieve_satoshi_point_using_local_storage(
        &conn,
        &block_id(12_345),
        &tx_id("0xaabbccdd"),
    );
    assert_eq!(r.unwrap_err(), HordError::MissingBlock(12_345));
}

#[test]
fn unknown_transaction_is_orphan_reference() {
    let mut conn = fresh_store();
    assert!(insert_entry_in_blocks(800_000, &block_800000(), &mut conn));
    let r = retrieve_satoshi_point_using_local_storage(
        &conn,
        &block_id(800_000),
        &tx_id("0x77777777"),
    );
    assert_eq!(r.unwrap_err(), HordError::OrphanReference);
}

#[test]
fn forward_reference_is_orphan_reference() {
    let mut conn = fresh_store();
    // The transaction's input claims to come from the same height: the
    // store is inconsistent and the walk must not loop.
    let block = CompactedBlock {
        coinbase_txid_prefix: 0xaabbccdd,
        coinbase_value: 625_000_000,
        transactions: vec![CompactedTx {
            txid_prefix: 0x11111111,
            inputs: vec![CompactedTxIn {
                prev_txid_prefix: 0x22222222,
                prev_block_height: 800_000,
                prev_vout: 0,
                prev_value: 100,
            }],
            outputs: vec![50],
        }],
    };
    assert!(insert_entry_in_blocks(800_000, &block, &mut conn));
    let r = retrieve_satoshi_point_using_local_storage(
        &conn,
        &block_id(800_000),
        &tx_id("0x11111111"),
    );
    assert_eq!(r.unwrap_err(), HordError::OrphanReference);
}

#[test]
fn corrupt_blob_is_reported() {
    let conn = fresh_store();
    conn.execute(
        "INSERT INTO blocks (id, compacted_bytes) VALUES (?1, ?2)",
        (800_000u32, "zzzz"),
    )
    .expect("raw insert");
    let r = retrieve_satoshi_point_using_local_storage(
        &conn,
        &block_id(800_000),
        &tx_id("0xaabbccdd"),
    );
    assert_eq!(r.unwrap_err(), HordError::CorruptBlob);
}

#[test]
fn inconsistent_sums_are_corrupt() {
    let mut conn = fresh_store();
    // A transaction paying out more than it takes in cannot be walked.
    let block = CompactedBlock {
        coinbase_txid_prefix: 0xaabbccdd,
        coinbase_value: 625_000_000,
        transactions: vec![CompactedTx {
            txid_prefix: 0x11111111,
            inputs: vec![CompactedTxIn {
                prev_txid_prefix: 0x22222222,
                prev_block_height: 1,
                prev_vout: 0,
                prev_value: 10,
            }],
            outputs: vec![11],
        }],
    };
    assert!(insert_entry_in_blocks(800_000, &block, &mut conn));
    let r = retrieve_satoshi_point_using_local_storage(
        &conn,
        &block_id(800_000),
        &tx_id("0x11111111"),
    );
    assert_eq!(r.unwrap_err(), HordError::CorruptBlob);
}
