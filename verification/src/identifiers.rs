//! Plain-value models of the chain identifiers the core reads.

use vstd::prelude::*;
use vstd::string::*;
use crate::hex_text::{hex_decode, unhex};

verus! {

/// Identifies one block: its height and its `0x`-prefixed hash.
pub struct BlockIdentifier {
    pub index: u64,
    pub hash: String,
}

/// Identifies one transaction by its `0x`-prefixed txid.
pub struct TransactionIdentifier {
    pub hash: String,
}

/// The reveal data the augmentation collaborator hands over for a freshly
/// inscribed satoshi.
pub struct OrdinalInscriptionRevealData {
    pub inscription_id: String,
    pub satpoint_post_inscription: String,
    pub ordinal_number: u64,
    pub inscription_number: u64,
}

/// The big-endian value of the first four bytes.
pub open spec fn prefix_value(b: Seq<u8>) -> u32
    recommends
        b.len() >= 4,
{
    (b[0] * 0x1000000 + b[1] * 0x10000 + b[2] * 0x100 + b[3]) as u32
}

/// The 4-byte prefix of a bare (unprefixed) hex txid.  The whole txid must
/// hex-decode — even length, every character a hex digit — to at least four
/// bytes; any other text denotes no prefix.
pub open spec fn txid_prefix_of(txid: Seq<char>) -> Option<u32> {
    if txid.len() >= 8 && unhex(txid) is Some {
        Some(prefix_value(unhex(txid).unwrap()))
    } else {
        None
    }
}

/// The 4-byte prefix of a `0x`-prefixed hex txid; the whole remainder must
/// hex-decode.
pub open spec fn prefixed_txid_prefix_of(hash: Seq<char>) -> Option<u32> {
    if hash.len() >= 2 {
        txid_prefix_of(hash.skip(2))
    } else {
        None
    }
}

/// Hex-decodes a whole bare txid and reads its first four bytes as a
/// big-endian prefix; fails on any text that is not the hex of at least
/// four bytes.
pub fn txid_prefix(txid: &str) -> (r: Option<u32>)
    ensures
        r == txid_prefix_of(txid@),
{
    let bytes = match hex_decode(txid) {
        Some(v) => v,
        None => {
            return None;
        },
    };
    if bytes.len() < 4 {
        return None;
    }
    let acc: u32 = (bytes[0] as u32) * 0x1000000 + (bytes[1] as u32) * 0x10000
        + (bytes[2] as u32) * 0x100 + (bytes[3] as u32);
    proof {
        assert(txid@.len() >= 8);
        assert(acc == prefix_value(unhex(txid@).unwrap()));
    }
    Some(acc)
}

} // verus!
