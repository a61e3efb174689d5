//! The persistent store: a SQLite database holding the `blocks` table
//! (height to hex-encoded compacted blob) and the `inscriptions` table.
//!
//! Every SQL statement sits in a trusted wrapper whose contract describes it
//! over two abstract maps: `blocks_of` (height to stored hex text) and
//! `inscriptions_of` (inscription id to its row).  An inscription row is the
//! tuple `(block_height, block_hash, outpoint_to_watch, ordinal_number,
//! inscription_number, offset)`.  The contracts assume the connection is the
//! only writer of its database, which is the store's ownership rule: all
//! durable state is owned by the store and written through this API.

use vstd::prelude::*;
use vstd::string::*;
use rusqlite::{Connection, OptionalExtension};
use crate::codec::{block_of_hex, enc_block, CompactedBlock};
use crate::errors::HordError;
use crate::hex_text::hex_of;
use crate::identifiers::{BlockIdentifier, OrdinalInscriptionRevealData};

verus! {

#[verifier::external_type_specification]
#[verifier::external_body]
pub struct ExConnection(Connection);

/// One stored inscription row: block height, block hash, outpoint to watch,
/// ordinal number, inscription number, offset.
pub type InscriptionRow = (u64, Seq<char>, Seq<char>, u64, u64, u64);

/// The contents of the `blocks` table behind a connection: height to the
/// stored hex text.
pub uninterp spec fn blocks_of(c: Connection) -> Map<u32, Seq<char>>;

/// The contents of the `inscriptions` table behind a connection, keyed by
/// inscription id.
pub uninterp spec fn inscriptions_of(c: Connection) -> Map<Seq<char>, InscriptionRow>;

/// Whether the two tables and their indexes exist behind the connection.
pub uninterp spec fn schema_ready(c: Connection) -> bool;

/// Relies on rusqlite::Connection::execute running `CREATE TABLE IF NOT
/// EXISTS` / `CREATE INDEX IF NOT EXISTS`, which add no rows and leave
/// existing rows unchanged.
#[verifier::external_body]
pub fn initialize_hord_db(conn: &mut Connection) -> (ok: bool)
    ensures
        ok ==> schema_ready(*final(conn)),
        blocks_of(*final(conn)) == blocks_of(*old(conn)),
        inscriptions_of(*final(conn)) == inscriptions_of(*old(conn)),
{
    let a = conn.execute("CREATE TABLE IF NOT EXISTS blocks (id INTEGER NOT NULL PRIMARY KEY, compacted_bytes TEXT NOT NULL)", ());
    let b = conn.execute("CREATE TABLE IF NOT EXISTS inscriptions (inscription_id TEXT NOT NULL PRIMARY KEY, block_height INTEGER NOT NULL, block_hash TEXT NOT NULL, outpoint_to_watch TEXT NOT NULL, ordinal_number INTEGER NOT NULL, inscription_number INTEGER NOT NULL, offset INTEGER NOT NULL)", ());
    let c = conn.execute("CREATE INDEX IF NOT EXISTS index_inscriptions_on_outpoint_to_watch ON inscriptions(outpoint_to_watch)", ());
    let d = conn.execute("CREATE INDEX IF NOT EXISTS index_inscriptions_on_ordinal_number ON inscriptions(ordinal_number)", ());
    a.is_ok() && b.is_ok() && c.is_ok() && d.is_ok()
}

/// Relies on rusqlite::Connection::execute running an `INSERT` on a primary
/// key: it succeeds only if the key is absent, and a failed single statement
/// changes nothing.
#[verifier::external_body]
pub(crate) fn insert_block_row(conn: &mut Connection, block_id: u32, blob: &String) -> (ok: bool)
    requires
        schema_ready(*old(conn)),
    ensures
        schema_ready(*final(conn)),
        inscriptions_of(*final(conn)) == inscriptions_of(*old(conn)),
        ok ==> !blocks_of(*old(conn)).contains_key(block_id) && blocks_of(*final(conn))
            == blocks_of(*old(conn)).insert(block_id, blob@),
        !ok ==> blocks_of(*final(conn)) == blocks_of(*old(conn)),
{
    conn.execute(
        "INSERT INTO blocks (id, compacted_bytes) VALUES (?1, ?2)",
        (block_id, blob.as_str()),
    ).is_ok()
}

/// Relies on rusqlite::Connection::query_row with `WHERE id = ?`: it returns
/// the stored text for that primary key, or no row.
#[verifier::external_body]
pub(crate) fn query_block_row(conn: &Connection, block_id: u32) -> (r: Option<String>)
    requires
        schema_ready(*conn),
    ensures
        match r {
            Some(s) => blocks_of(*conn).contains_key(block_id) && s@ == blocks_of(*conn)[block_id],
            None => !blocks_of(*conn).contains_key(block_id),
        },
{
    conn.query_row(
        "SELECT compacted_bytes FROM blocks WHERE id = ?1",
        (block_id,),
        |row| row.get(0),
    ).optional().unwrap()
}

/// Relies on rusqlite::Connection::query_row with `ORDER BY id DESC LIMIT
/// 1`: it returns the greatest stored height, or no row when the table is
/// empty; the height 0 then stands for an empty catalog.
#[verifier::external_body]
pub fn find_latest_compacted_block_known(hord_db_conn: &Connection) -> (r: u32)
    requires
        schema_ready(*hord_db_conn),
    ensures
        blocks_of(*hord_db_conn).dom() == Set::<u32>::empty() ==> r == 0,
        blocks_of(*hord_db_conn).dom() != Set::<u32>::empty() ==> blocks_of(
            *hord_db_conn,
        ).contains_key(r) && forall|k: u32| blocks_of(*hord_db_conn).contains_key(k) ==> k <= r,
{
    hord_db_conn.query_row(
        "SELECT id FROM blocks ORDER BY id DESC LIMIT 1",
        (),
        |row| row.get(0),
    ).optional().unwrap().unwrap_or(0)
}

/// Relies on rusqlite::Connection::execute running `DELETE ... WHERE id =
/// ?`: on success the key is gone; deleting an absent key succeeds and
/// changes nothing.
#[verifier::external_body]
pub fn remove_entry_from_blocks(block_id: u32, hord_db_conn: &mut Connection) -> (ok: bool)
    requires
        schema_ready(*old(hord_db_conn)),
    ensures
        schema_ready(*final(hord_db_conn)),
        inscriptions_of(*final(hord_db_conn)) == inscriptions_of(*old(hord_db_conn)),
        ok ==> blocks_of(*final(hord_db_conn)) == blocks_of(*old(hord_db_conn)).remove(block_id),
        !ok ==> blocks_of(*final(hord_db_conn)) == blocks_of(*old(hord_db_conn)),
{
    hord_db_conn.execute("DELETE FROM blocks WHERE id = ?1", (block_id,)).is_ok()
}

/// Relies on rusqlite::Connection::execute running an `INSERT` on the
/// inscriptions primary key.  SQLite's INTEGER column is a signed 64-bit
/// value, and the ordered queries state their order over the stored u64s,
/// so every ordered numeric column is kept within `i64::MAX`.
#[verifier::external_body]
fn insert_inscription_row(
    conn: &mut Connection,
    inscription_id: &String,
    block_height: u64,
    block_hash: &String,
    outpoint: &String,
    ordinal_number: u64,
    inscription_number: u64,
    offset: u64,
) -> (ok: bool)
    requires
        schema_ready(*old(conn)),
        ordinal_number <= 0x7fff_ffff_ffff_ffff,
        inscription_number <= 0x7fff_ffff_ffff_ffff,
        offset <= 0x7fff_ffff_ffff_ffff,
    ensures
        schema_ready(*final(conn)),
        blocks_of(*final(conn)) == blocks_of(*old(conn)),
        ok ==> !inscriptions_of(*old(conn)).contains_key(inscription_id@) && inscriptions_of(
            *final(conn),
        ) == inscriptions_of(*old(conn)).insert(
            inscription_id@,
            (block_height, block_hash@, outpoint@, ordinal_number, inscription_number, offset),
        ),
        !ok ==> inscriptions_of(*final(conn)) == inscriptions_of(*old(conn)),
{
    conn.execute(
        "INSERT INTO inscriptions (inscription_id, outpoint_to_watch, ordinal_number, inscription_number, offset, block_height, block_hash) VALUES (?1, ?2, ?3, ?4, ?5, ?6, ?7)",
        (inscription_id.as_str(), outpoint.as_str(), ordinal_number as i64, inscription_number as i64,
            offset as i64, block_height as i64, block_hash.as_str()),
    ).is_ok()
}

/// Relies on rusqlite::Connection::execute running `UPDATE ... WHERE
/// inscription_id = ?`: it rewrites the outpoint and offset of the matching
/// row, and matches nothing when the id is absent.  The offset stays within
/// `i64::MAX`, the range of SQLite's signed INTEGER column, so the
/// offset-ordered query below keeps its stated order.
#[verifier::external_body]
pub fn update_transfered_inscription(
    inscription_id: &str,
    outpoint_post_transfer: &str,
    offset: u64,
    hord_db_conn: &mut Connection,
) -> (ok: bool)
    requires
        schema_ready(*old(hord_db_conn)),
        offset <= 0x7fff_ffff_ffff_ffff,
    ensures
        schema_ready(*final(hord_db_conn)),
        blocks_of(*final(hord_db_conn)) == blocks_of(*old(hord_db_conn)),
        ok && inscriptions_of(*old(hord_db_conn)).contains_key(inscription_id@)
            ==> inscriptions_of(*final(hord_db_conn)) == inscriptions_of(
            *old(hord_db_conn),
        ).insert(
            inscription_id@,
            (
                inscriptions_of(*old(hord_db_conn))[inscription_id@].0,
                inscriptions_of(*old(hord_db_conn))[inscription_id@].1,
                outpoint_post_transfer@,
                inscriptions_of(*old(hord_db_conn))[inscription_id@].3,
                inscriptions_of(*old(hord_db_conn))[inscription_id@].4,
                offset,
            ),
        ),
        ok && !inscriptions_of(*old(hord_db_conn)).contains_key(inscription_id@)
            ==> inscriptions_of(*final(hord_db_conn)) == inscriptions_of(*old(hord_db_conn)),
        !ok ==> inscriptions_of(*final(hord_db_conn)) == inscriptions_of(*old(hord_db_conn)),
{
    hord_db_conn.execute(
        "UPDATE inscriptions SET outpoint_to_watch = ?1, offset = ?2 WHERE inscription_id = ?3",
        (outpoint_post_transfer, offset as i64, inscription_id),
    ).is_ok()
}

/// Relies on rusqlite::Connection::execute running `DELETE ... WHERE
/// inscription_id = ?`.
#[verifier::external_body]
pub fn remove_entry_from_inscriptions(
    inscription_id: &str,
    hord_db_conn: &mut Connection,
) -> (ok: bool)
    requires
        schema_ready(*old(hord_db_conn)),
    ensures
        schema_ready(*final(hord_db_conn)),
        blocks_of(*final(hord_db_conn)) == blocks_of(*old(hord_db_conn)),
        ok ==> inscriptions_of(*final(hord_db_conn)) == inscriptions_of(
            *old(hord_db_conn),
        ).remove(inscription_id@),
        !ok ==> inscriptions_of(*final(hord_db_conn)) == inscriptions_of(*old(hord_db_conn)),
{
    hord_db_conn.execute(
        "DELETE FROM inscriptions WHERE inscription_id = ?1",
        (inscription_id,),
    ).is_ok()
}

/// Relies on rusqlite::Connection::query_row with `ORDER BY
/// inscription_number DESC LIMIT 1`: the greatest stored inscription number,
/// or 0 when the table is empty.
#[verifier::external_body]
pub fn find_last_inscription_number(hord_db_conn: &Connection) -> (r: Result<u64, String>)
    requires
        schema_ready(*hord_db_conn),
    ensures
        match r {
            Ok(n) => {
                &&& inscriptions_of(*hord_db_conn).dom() == Set::<Seq<char>>::empty() ==> n == 0
                &&& inscriptions_of(*hord_db_conn).dom() != Set::<Seq<char>>::empty()
                    ==> (exists|id: Seq<char>|
                        inscriptions_of(*hord_db_conn).contains_key(id) && (
                        #[trigger] inscriptions_of(*hord_db_conn)[id]).4 == n)
                &&& forall|id: Seq<char>| inscriptions_of(*hord_db_conn).contains_key(id)
                    ==> (#[trigger] inscriptions_of(*hord_db_conn)[id]).4 <= n
            },
            Err(_) => false,
        },
{
    let n: Option<i64> = hord_db_conn.query_row(
        "SELECT inscription_number FROM inscriptions ORDER BY inscription_number DESC LIMIT 1",
        (),
        |row| row.get(0),
    ).optional().unwrap();
    Ok(n.unwrap_or(0) as u64)
}

/// Relies on rusqlite::Connection::query_row with `WHERE ordinal_number =
/// ?`: some stored inscription with that ordinal number, or none.
#[verifier::external_body]
pub fn find_inscription_with_ordinal_number(
    ordinal_number: &u64,
    hord_db_conn: &Connection,
) -> (r: Option<String>)
    requires
        schema_ready(*hord_db_conn),
    ensures
        match r {
            Some(id) => inscriptions_of(*hord_db_conn).contains_key(id@) && inscriptions_of(
                *hord_db_conn,
            )[id@].3 == *ordinal_number,
            None => forall|id: Seq<char>| inscriptions_of(*hord_db_conn).contains_key(id)
                ==> (#[trigger] inscriptions_of(*hord_db_conn)[id]).3 != *ordinal_number,
        },
{
    hord_db_conn.query_row(
        "SELECT inscription_id FROM inscriptions WHERE ordinal_number = ?1",
        (*ordinal_number as i64,),
        |row| row.get(0),
    ).optional().unwrap()
}

/// Relies on rusqlite::Connection::prepare and Statement::query running
/// `SELECT ... ORDER BY inscription_number ASC`: every stored row exactly
/// once, ascending by inscription number.  Yields
/// `(inscription_id, inscription_number, ordinal_number, block_height)`.
#[verifier::external_body]
pub fn find_all_inscriptions(hord_db_conn: &Connection) -> (r: Vec<(String, u64, u64, u64)>)
    requires
        schema_ready(*hord_db_conn),
    ensures
        forall|i: int| 0 <= i < r@.len() ==> {
            &&& inscriptions_of(*hord_db_conn).contains_key((#[trigger] r@[i]).0@)
            &&& r@[i].1 == inscriptions_of(*hord_db_conn)[r@[i].0@].4
            &&& r@[i].2 == inscriptions_of(*hord_db_conn)[r@[i].0@].3
            &&& r@[i].3 == inscriptions_of(*hord_db_conn)[r@[i].0@].0
        },
        forall|id: Seq<char>| #[trigger] inscriptions_of(*hord_db_conn).contains_key(id)
            ==> exists|i: int| 0 <= i < r@.len() && (#[trigger] r@[i]).0@ == id,
        forall|i: int, j: int| 0 <= i < j < r@.len() ==> (#[trigger] r@[i]).0@ != (
        #[trigger] r@[j]).0@,
        forall|i: int, j: int| 0 <= i < j < r@.len() ==> (#[trigger] r@[i]).1 <= (
        #[trigger] r@[j]).1,
{
    let mut stmt = hord_db_conn.prepare("SELECT inscription_id, inscription_number, ordinal_number, block_height FROM inscriptions ORDER BY inscription_number ASC").unwrap();
    let mut rows = stmt.query(()).unwrap();
    let mut results = Vec::new();
    while let Some(row) = rows.next().unwrap() {
        let inscription_id: String = row.get(0).unwrap();
        let inscription_number: i64 = row.get(1).unwrap();
        let ordinal_number: i64 = row.get(2).unwrap();
        let block_height: i64 = row.get(3).unwrap();
        results.push((inscription_id, inscription_number as u64, ordinal_number as u64,
            block_height as u64));
    }
    results
}

/// Relies on rusqlite::Connection::prepare and Statement::query running
/// `SELECT ... WHERE outpoint_to_watch = ? ORDER BY offset ASC`: exactly the
/// rows watching that outpoint, ascending by offset.  Yields
/// `(inscription_id, inscription_number, ordinal_number, offset)`.
#[verifier::external_body]
pub fn find_inscriptions_at_wached_outpoint(
    outpoint: &str,
    hord_db_conn: &Connection,
) -> (r: Vec<(String, u64, u64, u64)>)
    requires
        schema_ready(*hord_db_conn),
    ensures
        forall|i: int| 0 <= i < r@.len() ==> {
            &&& inscriptions_of(*hord_db_conn).contains_key((#[trigger] r@[i]).0@)
            &&& inscriptions_of(*hord_db_conn)[r@[i].0@].2 == outpoint@
            &&& r@[i].1 == inscriptions_of(*hord_db_conn)[r@[i].0@].4
            &&& r@[i].2 == inscriptions_of(*hord_db_conn)[r@[i].0@].3
            &&& r@[i].3 == inscriptions_of(*hord_db_conn)[r@[i].0@].5
        },
        forall|id: Seq<char>| inscriptions_of(*hord_db_conn).contains_key(id) && (
        #[trigger] inscriptions_of(*hord_db_conn)[id]).2 == outpoint@
            ==> exists|i: int| 0 <= i < r@.len() && (#[trigger] r@[i]).0@ == id,
        forall|i: int, j: int| 0 <= i < j < r@.len() ==> (#[trigger] r@[i]).0@ != (
        #[trigger] r@[j]).0@,
        forall|i: int, j: int| 0 <= i < j < r@.len() ==> (#[trigger] r@[i]).3 <= (
        #[trigger] r@[j]).3,
{
    let mut stmt = hord_db_conn.prepare("SELECT inscription_id, inscription_number, ordinal_number, offset FROM inscriptions WHERE outpoint_to_watch = ?1 ORDER BY offset ASC").unwrap();
    let mut rows = stmt.query((outpoint,)).unwrap();
    let mut results = Vec::new();
    while let Some(row) = rows.next().unwrap() {
        let inscription_id: String = row.get(0).unwrap();
        let inscription_number: i64 = row.get(1).unwrap();
        let ordinal_number: i64 = row.get(2).unwrap();
        let offset: i64 = row.get(3).unwrap();
        results.push((inscription_id, inscription_number as u64, ordinal_number as u64,
            offset as u64));
    }
    results
}

// ---------------------------------------------------------------------------
// Verified store operations.
// ---------------------------------------------------------------------------

/// Encodes a compacted block and stores it under its height.  On success the
/// stored text is exactly the hex form of the block's encoding.
pub fn insert_entry_in_blocks(
    block_id: u32,
    compacted_block: &CompactedBlock,
    hord_db_conn: &mut Connection,
) -> (ok: bool)
    requires
        schema_ready(*old(hord_db_conn)),
    ensures
        schema_ready(*final(hord_db_conn)),
        inscriptions_of(*final(hord_db_conn)) == inscriptions_of(*old(hord_db_conn)),
        ok ==> !blocks_of(*old(hord_db_conn)).contains_key(block_id) && blocks_of(
            *final(hord_db_conn),
        ) == blocks_of(*old(hord_db_conn)).insert(
            block_id,
            hex_of(enc_block(compacted_block@)),
        ),
        !ok ==> blocks_of(*final(hord_db_conn)) == blocks_of(*old(hord_db_conn)),
{
    let serialized_compacted_block = compacted_block.to_hex_bytes();
    insert_block_row(hord_db_conn, block_id, &serialized_compacted_block)
}

/// Reads the compacted block stored at a height, telling a missing row
/// apart from a stored row whose text does not parse: `Ok(Some)` exactly
/// when the height is present and parses, `Ok(None)` exactly when the
/// height is absent, `CorruptBlob` exactly when a row is present but
/// unparseable.
pub fn read_compacted_block_at_block_height(
    block_height: u32,
    hord_db_conn: &Connection,
) -> (r: Result<Option<CompactedBlock>, HordError>)
    requires
        schema_ready(*hord_db_conn),
    ensures
        match r {
            Ok(Some(b)) => blocks_of(*hord_db_conn).contains_key(block_height) && block_of_hex(
                blocks_of(*hord_db_conn)[block_height],
            ) == Some(b@),
            Ok(None) => !blocks_of(*hord_db_conn).contains_key(block_height),
            Err(e) => blocks_of(*hord_db_conn).contains_key(block_height) && block_of_hex(
                blocks_of(*hord_db_conn)[block_height],
            ) is None && e == HordError::CorruptBlob,
        },
{
    match query_block_row(hord_db_conn, block_height) {
        Some(hex_bytes) => match CompactedBlock::from_hex_bytes(hex_bytes.as_str()) {
            Ok(b) => Ok(Some(b)),
            Err(e) => Err(e),
        },
        None => Ok(None),
    }
}

/// Reads the compacted block stored at a height.  Returns the decoded block
/// exactly when the height is present and its stored text parses; a stored
/// row that fails to parse reads as absent here, where
/// `read_compacted_block_at_block_height` tells the two apart.
pub fn find_compacted_block_at_block_height(
    block_height: u32,
    hord_db_conn: &Connection,
) -> (r: Option<CompactedBlock>)
    requires
        schema_ready(*hord_db_conn),
    ensures
        match r {
            Some(b) => blocks_of(*hord_db_conn).contains_key(block_height) && block_of_hex(
                blocks_of(*hord_db_conn)[block_height],
            ) == Some(b@),
            None => !blocks_of(*hord_db_conn).contains_key(block_height) || block_of_hex(
                blocks_of(*hord_db_conn)[block_height],
            ) is None,
        },
{
    match read_compacted_block_at_block_height(block_height, hord_db_conn) {
        Ok(found) => found,
        Err(_) => None,
    }
}

/// Records a freshly revealed inscription: the watched outpoint is the
/// satpoint with its two trailing characters (the `:0` offset marker)
/// removed, and the initial offset is 0.
pub fn store_new_inscription(
    inscription_data: &OrdinalInscriptionRevealData,
    block_identifier: &BlockIdentifier,
    hord_db_conn: &mut Connection,
) -> (ok: bool)
    requires
        schema_ready(*old(hord_db_conn)),
        inscription_data.satpoint_post_inscription@.len() >= 2,
        inscription_data.satpoint_post_inscription.is_ascii(),
        inscription_data.ordinal_number <= 0x7fff_ffff_ffff_ffff,
        inscription_data.inscription_number <= 0x7fff_ffff_ffff_ffff,
    ensures
        schema_ready(*final(hord_db_conn)),
        blocks_of(*final(hord_db_conn)) == blocks_of(*old(hord_db_conn)),
        ok ==> !inscriptions_of(*old(hord_db_conn)).contains_key(
            inscription_data.inscription_id@,
        ) && inscriptions_of(*final(hord_db_conn)) == inscriptions_of(
            *old(hord_db_conn),
        ).insert(
            inscription_data.inscription_id@,
            (
                block_identifier.index,
                block_identifier.hash@,
                inscription_data.satpoint_post_inscription@.take(
                    inscription_data.satpoint_post_inscription@.len() - 2,
                ),
                inscription_data.ordinal_number,
                inscription_data.inscription_number,
                0u64,
            ),
        ),
        !ok ==> inscriptions_of(*final(hord_db_conn)) == inscriptions_of(*old(hord_db_conn)),
{
    let satpoint = inscription_data.satpoint_post_inscription.as_str();
    let n = satpoint.unicode_len();
    let outpoint_to_watch = String::from_str(satpoint.substring_ascii(0, n - 2));
    proof {
        assert(outpoint_to_watch@ =~= inscription_data.satpoint_post_inscription@.take(
            inscription_data.satpoint_post_inscription@.len() - 2,
        ));
    }
    insert_inscription_row(
        hord_db_conn,
        &inscription_data.inscription_id,
        block_identifier.index,
        &block_identifier.hash,
        &outpoint_to_watch,
        inscription_data.ordinal_number,
        inscription_data.inscription_number,
        0,
    )
}

} // verus!
