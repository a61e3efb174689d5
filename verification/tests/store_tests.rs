use hord_db::codec::{CompactedBlock, CompactedTx, CompactedTxIn};
use hord_db::errors::HordError;
use hord_db::identifiers::{BlockIdentifier, OrdinalInscriptionRevealData};
use hord_db::store::{find_all_inscriptions, find_compacted_block_at_block_height,
    find_inscription_with_ordinal_number, find_inscriptions_at_wached_outpoint,
    find_last_inscription_number, find_latest_compacted_block_known, initialize_hord_db,
    read_compacted_block_at_block_height,
    insert_entry_in_blocks, remove_entry_from_blocks,
    remove_entry_from_inscriptions, store_new_inscription, update_transfered_inscription};

fn fresh_store() -> rusqlite::Connection {
    let mut conn = rusqlite::Connection::open_in_memory().expect("in-memory database opens");
    assert!(initialize_hord_db(&mut conn));
    conn
}

fn tiny_block(prefix: u32) -> CompactedBlock {
    CompactedBlock {
        coinbase_txid_prefix: prefix,
        coinbase_value: 625_000_000,
        transactions: vec![CompactedTx {
            txid_prefix: 1,
            inputs: vec![CompactedTxIn {
                prev_txid_prefix: 2,
                prev_block_height: 1,
                prev_vout: 0,
                prev_value: 10,
            }],
            outputs: vec![4],
        }],
    }
}

fn reveal_data(id: &str, satpoint: &str, ordinal: u64, number: u64) -> OrdinalInscriptionRevealData {
    OrdinalInscriptionRevealData {
        inscription_id: String::from(id),
        satpoint_post_inscription: String::from(satpoint),
        ordinal_number: ordinal,
        inscription_number: number,
    }
}

fn block_id(index: u64) -> BlockIdentifier {
    BlockIdentifier {
        index,
        hash: String::from("0xdeadbeef"),
    }
}

#[test]
fn max_height_on_fresh_store_then_after_insert() {
    let mut conn = fresh_store();
    assert_eq!(find_latest_compacted_block_known(&conn), 0);
    assert!(insert_entry_in_blocks(767_430, &tiny_block(7), &mut conn));
    assert_eq!(find_latest_compacted_block_known(&conn), 767_430);
}

#[test]
fn block_roundtrip_through_store() {
    let mut conn = fresh_store();
    let block = tiny_block(0xaabbccdd);
    assert!(insert_entry_in_blocks(5, &block, &mut conn));
    let read = find_compacted_block_at_block_height(5, &conn).expect("present");
    assert_eq!(read.coinbase_txid_prefix, 0xaabbccdd);
    assert_eq!(read.coinbase_value, 625_000_000);
    assert_eq!(read.transactions.len(), 1);
    assert!(find_compacted_block_at_block_height(6, &conn).is_none());
}

#[test]
fn duplicate_height_insert_fails() {
    let mut conn = fresh_store();
    assert!(insert_entry_in_blocks(5, &tiny_block(1), &mut conn));
    assert!(!insert_entry_in_blocks(5, &tiny_block(2), &mut conn));
    // The first row is untouched.
    let read = find_compacted_block_at_block_height(5, &conn).expect("present");
    assert_eq!(read.coinbase_txid_prefix, 1);
}

#[test]
fn remove_block_entry() {
    let mut conn = fresh_store();
    assert!(insert_entry_in_blocks(5, &tiny_block(1), &mut conn));
    assert!(remove_entry_from_blocks(5, &mut conn));
    assert!(find_compacted_block_at_block_height(5, &conn).is_none());
    assert_eq!(find_latest_compacted_block_known(&conn), 0);
}

#[test]
fn corrupt_stored_blob_reads_as_absent() {
    let mut conn = fresh_store();
    conn.execute(
        "INSERT INTO blocks (id, compacted_bytes) VALUES (?1, ?2)",
        (9u32, "zzzz"),
    )
    .expect("raw insert");
    assert!(find_compacted_block_at_block_height(9, &mut conn).is_none());
}

#[test]
fn reading_tells_absent_and_corrupt_apart() {
    let mut conn = fresh_store();
    assert!(insert_entry_in_blocks(5, &tiny_block(1), &mut conn));
    conn.execute(
        "INSERT INTO blocks (id, compacted_bytes) VALUES (?1, ?2)",
        (9u32, "zzzz"),
    )
    .expect("raw insert");
    assert!(matches!(
        read_compacted_block_at_block_height(5, &conn),
        Ok(Some(_))
    ));
    assert!(matches!(read_compacted_block_at_block_height(6, &conn), Ok(None)));
    assert_eq!(
        read_compacted_block_at_block_height(9, &conn).unwrap_err(),
        HordError::CorruptBlob
    );
}

#[test]
fn transfer_moves_watched_outpoint() {
    let mut conn = fresh_store();
    let data = reveal_data("ins1", "aaaa:0:0", 111, 1);
    assert!(store_new_inscription(&data, &block_id(767_430), &mut conn));
    // The outpoint to watch is the satpoint with ":0" stripped.
    let at_o1 = find_inscriptions_at_wached_outpoint("aaaa:0", &conn);
    assert_eq!(at_o1.len(), 1);
    assert_eq!(at_o1[0].0, "ins1");
    assert_eq!(at_o1[0].3, 0);
    assert!(update_transfered_inscription("ins1", "bbbb:1", 42, &mut conn));
    assert!(find_inscriptions_at_wached_outpoint("aaaa:0", &conn).is_empty());
    let at_o2 = find_inscriptions_at_wached_outpoint("bbbb:1", &conn);
    assert_eq!(at_o2.len(), 1);
    assert_eq!(at_o2[0].0, "ins1");
    assert_eq!(at_o2[0].2, 111);
    assert_eq!(at_o2[0].3, 42);
}

#[test]
fn lookup_by_ordinal_number() {
    let mut conn = fresh_store();
    assert!(store_new_inscription(&reveal_data("ins1", "aaaa:0:0", 111, 1), &block_id(1), &mut conn));
    assert!(store_new_inscription(&reveal_data("ins2", "cccc:0:0", 222, 2), &block_id(2), &mut conn));
    assert_eq!(
        find_inscription_with_ordinal_number(&222, &conn),
        Some(String::from("ins2"))
    );
    assert_eq!(find_inscription_with_ordinal_number(&333, &conn), None);
}

#[test]
fn last_inscription_number_tracks_maximum() {
    let mut conn = fresh_store();
    assert_eq!(find_last_inscription_number(&conn), Ok(0));
    assert!(store_new_inscription(&reveal_data("ins1", "aaaa:0:0", 111, 7), &block_id(1), &mut conn));
    assert!(store_new_inscription(&reveal_data("ins2", "cccc:0:0", 222, 3), &block_id(2), &mut conn));
    assert_eq!(find_last_inscription_number(&conn), Ok(7));
}

#[test]
fn find_all_orders_by_inscription_number() {
    let mut conn = fresh_store();
    assert!(store_new_inscription(&reveal_data("b", "aaaa:0:0", 20, 5), &block_id(1), &mut conn));
    assert!(store_new_inscription(&reveal_data("a", "cccc:0:0", 10, 2), &block_id(2), &mut conn));
    let all = find_all_inscriptions(&conn);
    assert_eq!(all.len(), 2);
    assert_eq!(all[0].0, "a");
    assert_eq!(all[0].1, 2);
    assert_eq!(all[0].2, 10);
    assert_eq!(all[0].3, 2);
    assert_eq!(all[1].0, "b");
    assert_eq!(all[1].1, 5);
}

#[test]
fn remove_inscription_entry() {
    let mut conn = fresh_store();
    assert!(store_new_inscription(&reveal_data("ins1", "aaaa:0:0", 111, 1), &block_id(1), &mut conn));
    assert!(remove_entry_from_inscriptions("ins1", &mut conn));
    assert!(find_all_inscriptions(&conn).is_empty());
}

#[test]
fn large_inscription_numbers_keep_their_order() {
    // Values near i64::MAX, the ceiling the store's contracts require of
    // ordered numeric columns, still round-trip and sort as u64s.
    let big: u64 = i64::MAX as u64;
    let mut conn = fresh_store();
    assert!(store_new_inscription(&reveal_data("hi", "aaaa:0:0", big, big), &block_id(1), &mut conn));
    assert!(store_new_inscription(&reveal_data("lo", "cccc:0:0", 5, 5), &block_id(2), &mut conn));
    assert_eq!(find_last_inscription_number(&conn), Ok(big));
    let all = find_all_inscriptions(&conn);
    assert_eq!(all[0].0, "lo");
    assert_eq!(all[1].0, "hi");
    assert_eq!(all[1].1, big);
    assert!(update_transfered_inscription("lo", "dddd:0", big, &mut conn));
    let at = find_inscriptions_at_wached_outpoint("dddd:0", &conn);
    assert_eq!(at[0].3, big);
}

#[test]
fn duplicate_inscription_insert_fails() {
    let mut conn = fresh_store();
    assert!(store_new_inscription(&reveal_data("ins1", "aaaa:0:0", 111, 1), &block_id(1), &mut conn));
    assert!(!store_new_inscription(&reveal_data("ins1", "cccc:0:0", 222, 2), &block_id(2), &mut conn));
}
