//! Core of a Bitcoin ordinals indexer: a compact per-block transaction-graph
//! codec, a persistent block/inscription store backed by SQLite, an ingestion
//! pipeline whose sequential post-processor reorders out-of-order arrivals,
//! and a satoshi-point resolver that walks the compacted graph backward in
//! time to locate the coinbase origin of a transaction's first satoshi.

pub mod errors;
pub mod hex_text;
pub mod identifiers;
pub mod ordinals;
pub mod codec;
pub mod sums;
pub mod compaction;
pub mod store;
pub mod resolver;
pub mod sequencer;
pub mod pipeline;

use vstd::prelude::*;
use vstd::string::*;

verus! {

/// The store's file path under a base directory: the file name joined with
/// exactly one separator, as a path join produces it.
pub open spec fn spec_default_hord_db_file_path(base_dir: Seq<char>) -> Seq<char> {
    if base_dir.len() == 0 {
        "hord.sqlite"@
    } else if base_dir[base_dir.len() - 1] == '/' {
        base_dir + "hord.sqlite"@
    } else {
        base_dir + "/hord.sqlite"@
    }
}

/// Appends the store's file name to a base directory path.
pub fn get_default_hord_db_file_path(base_dir: &str) -> (r: String)
    ensures
        r@ == spec_default_hord_db_file_path(base_dir@),
{
    let n = base_dir.unicode_len();
    if n == 0 {
        return String::from_str("hord.sqlite");
    }
    let mut destination_path = String::from_str(base_dir);
    if base_dir.get_char(n - 1) == '/' {
        destination_path.append("hord.sqlite");
    } else {
        destination_path.append("/hord.sqlite");
    }
    proof {
        assert(destination_path@ =~= spec_default_hord_db_file_path(base_dir@));
    }
    destination_path
}

} // verus!
