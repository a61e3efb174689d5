use hord_db::codec::{CompactedBlock, CompactedTx, CompactedTxIn};
use hord_db::compaction::BitcoinBlockFullBreakdown;
use hord_db::errors::HordError;
use hord_db::pipeline::run_block_persister;
use hord_db::store::{find_compacted_block_at_block_height, find_latest_compacted_block_known,
    initialize_hord_db};

fn fresh_store() -> rusqlite::Connection {
    let mut conn = rusqlite::Connection::open_in_memory().expect("in-memory database opens");
    assert!(initialize_hord_db(&mut conn));
    conn
}

fn tiny_block(prefix: u32) -> CompactedBlock {
    CompactedBlock {
        coinbase_txid_prefix: prefix,
        coinbase_value: 625_000_000,
        transactions: vec![CompactedTx {
            txid_prefix: 1,
            inputs: vec![CompactedTxIn {
                prev_txid_prefix: 2,
                prev_block_height: 1,
                prev_vout: 0,
                prev_value: 10,
            }],
            outputs: vec![4],
        }],
    }
}

#[test]
fn persists_exactly_the_expected_count_then_sends_sentinels() {
    let mut conn = fresh_store();
    let (compressed_tx, compressed_rx) =
        crossbeam_channel::unbounded::<Option<(u32, CompactedBlock)>>();
    let (hash_tx, hash_rx) = crossbeam_channel::unbounded::<Option<(u64, String)>>();
    let (data_tx, data_rx) = crossbeam_channel::unbounded::<Option<BitcoinBlockFullBreakdown>>();

    // Blocks arrive out of height order; the persister stores them in
    // arrival order.
    compressed_tx.send(Some((102, tiny_block(2)))).unwrap();
    compressed_tx.send(Some((100, tiny_block(0)))).unwrap();
    compressed_tx.send(Some((101, tiny_block(1)))).unwrap();

    let stored = run_block_persister(&mut conn, &compressed_rx, &hash_tx, &data_tx, 3)
        .expect("terminates after exactly three blocks");
    assert_eq!(stored, 3);

    // Exactly one termination sentinel flowed backward through each stage.
    assert_eq!(hash_rx.try_recv(), Ok(None));
    assert!(hash_rx.try_recv().is_err());
    match data_rx.try_recv() {
        Ok(None) => {}
        Ok(Some(_)) => panic!("unexpected raw block after sentinel"),
        Err(e) => panic!("missing sentinel: {:?}", e),
    }
    assert!(data_rx.try_recv().is_err());

    // No further message was consumed, and all three blocks are durable.
    assert_eq!(find_latest_compacted_block_known(&conn), 102);
    for h in [100u32, 101, 102] {
        let b = find_compacted_block_at_block_height(h, &conn).expect("stored");
        assert_eq!(b.coinbase_txid_prefix, (h - 100) as u32);
    }
}

#[test]
fn early_channel_close_reports_failure() {
    let mut conn = fresh_store();
    let (compressed_tx, compressed_rx) =
        crossbeam_channel::unbounded::<Option<(u32, CompactedBlock)>>();
    let (hash_tx, _hash_rx) = crossbeam_channel::unbounded::<Option<(u64, String)>>();
    let (data_tx, _data_rx) = crossbeam_channel::unbounded::<Option<BitcoinBlockFullBreakdown>>();

    compressed_tx.send(Some((100, tiny_block(0)))).unwrap();
    drop(compressed_tx);

    let r = run_block_persister(&mut conn, &compressed_rx, &hash_tx, &data_tx, 2);
    assert_eq!(r.unwrap_err(), HordError::RpcFailure);
    // The one block that did arrive was still persisted.
    assert!(find_compacted_block_at_block_height(100, &conn).is_some());
}
