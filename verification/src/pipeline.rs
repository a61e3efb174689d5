//! The persister stage of the ingestion pipeline.
//!
//! Worker pools fetch and compact blocks concurrently and send them over a
//! channel in arrival order.  The persister consumes exactly the expected
//! number of compacted blocks, stores each one, then injects the `None`
//! termination sentinels backward through the upstream channels and returns.
//! Termination after exactly `end - start` stored blocks is verified: the
//! loop's measure is the number of blocks still owed.

use vstd::prelude::*;
use rusqlite::Connection;
use crossbeam_channel::{Receiver, Sender};
use crate::codec::CompactedBlock;
use crate::compaction::BitcoinBlockFullBreakdown;
use crate::errors::HordError;
use crate::store::{blocks_of, inscriptions_of, insert_entry_in_blocks, schema_ready};

verus! {

#[verifier::external_type_specification]
#[verifier::external_body]
#[verifier::reject_recursive_types(T)]
pub struct ExReceiver<T>(Receiver<T>);

#[verifier::external_type_specification]
#[verifier::external_body]
#[verifier::reject_recursive_types(T)]
pub struct ExSender<T>(Sender<T>);

/// Relies on crossbeam_channel::Receiver::recv: blocks until a message
/// arrives or every sender is gone.  Which message arrives is decided by
/// other threads, so nothing is promised of the result.
#[verifier::external_body]
fn recv_compacted(
    rx: &Receiver<Option<(u32, CompactedBlock)>>,
) -> (r: Option<Option<(u32, CompactedBlock)>>) {
    rx.recv().ok()
}

/// Relies on crossbeam_channel::Sender::send to hand the `None` end-of-stream
/// sentinel to the block-data stage.
#[verifier::external_body]
fn send_block_data_sentinel(tx: &Sender<Option<BitcoinBlockFullBreakdown>>) -> (r: bool) {
    tx.send(None).is_ok()
}

/// Relies on crossbeam_channel::Sender::send to hand the `None` end-of-stream
/// sentinel to the hash-fetch stage.
#[verifier::external_body]
fn send_block_hash_sentinel(tx: &Sender<Option<(u64, String)>>) -> (r: bool) {
    tx.send(None).is_ok()
}

/// Consumes compacted blocks in arrival order and stores each one.
///
/// Returns `Ok` exactly after `blocks_count` blocks were received and
/// stored, having sent one termination sentinel to each upstream stage; the
/// count in `Ok` is therefore always `blocks_count`.  If the channel closes
/// or yields a sentinel first, the upstream collaborators died early and the
/// persister reports `RpcFailure`.  Inscription state is never touched,
/// rows already stored keep their text, and an empty range succeeds at
/// once.  A rejected insert (a duplicate height) skips that one block: a
/// failed write is fatal to that block's ingest but never to the pipeline.
pub fn run_block_persister(
    hord_db_conn: &mut Connection,
    block_compressed_rx: &Receiver<Option<(u32, CompactedBlock)>>,
    block_hash_tx: &Sender<Option<(u64, String)>>,
    block_data_tx: &Sender<Option<BitcoinBlockFullBreakdown>>,
    blocks_count: u64,
) -> (r: Result<u64, HordError>)
    requires
        schema_ready(*old(hord_db_conn)),
    ensures
        schema_ready(*final(hord_db_conn)),
        inscriptions_of(*final(hord_db_conn)) == inscriptions_of(*old(hord_db_conn)),
        forall|k: u32| #[trigger] blocks_of(*old(hord_db_conn)).contains_key(k)
            ==> blocks_of(*final(hord_db_conn)).contains_key(k) && blocks_of(
            *final(hord_db_conn),
        )[k] == blocks_of(*old(hord_db_conn))[k],
        match r {
            Ok(n) => n == blocks_count,
            Err(e) => e == HordError::RpcFailure,
        },
        blocks_count == 0 ==> r is Ok,
{
    let mut blocks_stored: u64 = 0;
    while blocks_stored < blocks_count
        invariant
            blocks_stored <= blocks_count,
            schema_ready(*hord_db_conn),
            inscriptions_of(*hord_db_conn) == inscriptions_of(*old(hord_db_conn)),
            forall|k: u32| #[trigger] blocks_of(*old(hord_db_conn)).contains_key(k)
                ==> blocks_of(*hord_db_conn).contains_key(k) && blocks_of(*hord_db_conn)[k]
                    == blocks_of(*old(hord_db_conn))[k],
        decreases blocks_count - blocks_stored,
    {
        match recv_compacted(block_compressed_rx) {
            Some(Some((block_height, compacted_block))) => {
                let ghost pre = blocks_of(*hord_db_conn);
                insert_entry_in_blocks(block_height, &compacted_block, hord_db_conn);
                proof {
                    assert forall|k: u32| #[trigger] blocks_of(
                        *old(hord_db_conn),
                    ).contains_key(k) implies blocks_of(*hord_db_conn).contains_key(k)
                        && blocks_of(*hord_db_conn)[k] == blocks_of(*old(hord_db_conn))[k] by {
                        assert(pre.contains_key(k));
                        assert(pre[k] == blocks_of(*old(hord_db_conn))[k]);
                    }
                }
                blocks_stored = blocks_stored + 1;
            },
            _ => {
                return Err(HordError::RpcFailure);
            },
        }
    }
    send_block_data_sentinel(block_data_tx);
    send_block_hash_sentinel(block_hash_tx);
    Ok(blocks_stored)
}

} // verus!
