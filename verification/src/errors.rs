//! Error kinds shared by the codec, the store, the pipeline and the resolver.

use vstd::prelude::*;
use vstd::string::*;

verus! {

/// Every failure the indexer core can report.
///
/// - `StoreMissing`: a read-only open found no database file.
/// - `StoreBusy`: the store was locked; the operation may be retried.
/// - `MalformedBlock`: a source block could not be compacted (a txid failed
///   hex decoding, a required field was absent or out of range, or a value
///   sum overflowed).
/// - `CorruptBlob`: a stored blob failed to parse back into a compacted
///   block, or a compacted block's value sums are inconsistent.
/// - `MissingBlock(h)`: the resolver needed the block at height `h` and the
///   store has no row for it.
/// - `OrphanReference`: the resolver followed a reference that the store
///   cannot satisfy (no transaction with the cursor's prefix, or an input
///   pointing at a height that is not strictly earlier).
/// - `RpcFailure`: the RPC collaborator failed after its own retries.
/// - `AugmentationFailure`: the augmentation collaborator reported an error.
#[derive(Clone, Copy, Debug, PartialEq, Eq, Structural)]
pub enum HordError {
    StoreMissing,
    StoreBusy,
    MalformedBlock,
    CorruptBlob,
    MissingBlock(u32),
    OrphanReference,
    RpcFailure,
    AugmentationFailure,
}

/// The decimal digits of `n`, most significant first.
pub open spec fn spec_decimal(n: u64) -> Seq<char>
    decreases n,
{
    let digit = spec_decimal_digit((n % 10) as u8);
    if n < 10 {
        seq![digit]
    } else {
        spec_decimal((n / 10) as u64).push(digit)
    }
}

/// The character for one decimal digit.
pub open spec fn spec_decimal_digit(d: u8) -> char {
    if d == 0 { '0' }
    else if d == 1 { '1' }
    else if d == 2 { '2' }
    else if d == 3 { '3' }
    else if d == 4 { '4' }
    else if d == 5 { '5' }
    else if d == 6 { '6' }
    else if d == 7 { '7' }
    else if d == 8 { '8' }
    else { '9' }
}

/// Appends the character for decimal digit `d` to `out`.
fn push_decimal_digit(out: &mut String, d: u8)
    requires
        d < 10,
    ensures
        final(out)@ == old(out)@ + seq![spec_decimal_digit(d)],
{
    proof {
        reveal_strlit("0");
        reveal_strlit("1");
        reveal_strlit("2");
        reveal_strlit("3");
        reveal_strlit("4");
        reveal_strlit("5");
        reveal_strlit("6");
        reveal_strlit("7");
        reveal_strlit("8");
        reveal_strlit("9");
    }
    match d {
        0 => out.append("0"),
        1 => out.append("1"),
        2 => out.append("2"),
        3 => out.append("3"),
        4 => out.append("4"),
        5 => out.append("5"),
        6 => out.append("6"),
        7 => out.append("7"),
        8 => out.append("8"),
        _ => out.append("9"),
    }
}

/// Appends the decimal digits of `n` to `out`.
fn append_decimal(out: &mut String, n: u64)
    ensures
        final(out)@ == old(out)@ + spec_decimal(n),
    decreases n,
{
    if n >= 10 {
        append_decimal(out, n / 10);
    }
    push_decimal_digit(out, (n % 10) as u8);
    proof {
        assert(out@ =~= old(out)@ + spec_decimal(n));
    }
}

/// `n` written in decimal.
pub fn decimal_string(n: u64) -> (r: String)
    ensures
        r@ == spec_decimal(n),
{
    let mut out = String::new();
    append_decimal(&mut out, n);
    proof {
        assert(out@ =~= spec_decimal(n));
    }
    out
}

impl HordError {
    /// A human-readable message suitable for operator logs; a missing block
    /// is named by its height.
    pub fn describe(&self) -> (r: String)
        ensures
            *self matches HordError::MissingBlock(h)
                ==> r@ == "unable to retrieve block #"@ + spec_decimal(h as u64),
            *self == HordError::StoreMissing ==> r@ == "hord db file is missing"@,
            *self == HordError::StoreBusy ==> r@ == "hord db is busy, retry later"@,
            *self == HordError::MalformedBlock ==> r@ == "unable to compact malformed block"@,
            *self == HordError::CorruptBlob ==> r@ == "unable to parse compacted block blob"@,
            *self == HordError::OrphanReference
                ==> r@ == "compacted block store is inconsistent"@,
            *self == HordError::RpcFailure ==> r@ == "bitcoin rpc failed after retries"@,
            *self == HordError::AugmentationFailure
                ==> r@ == "unable to augment bitcoin block"@,
    {
        match self {
            HordError::StoreMissing => String::from_str("hord db file is missing"),
            HordError::StoreBusy => String::from_str("hord db is busy, retry later"),
            HordError::MalformedBlock => String::from_str("unable to compact malformed block"),
            HordError::CorruptBlob => String::from_str("unable to parse compacted block blob"),
            HordError::MissingBlock(h) => {
                let mut msg = String::from_str("unable to retrieve block #");
                append_decimal(&mut msg, *h as u64);
                msg
            },
            HordError::OrphanReference => String::from_str("compacted block store is inconsistent"),
            HordError::RpcFailure => String::from_str("bitcoin rpc failed after retries"),
            HordError::AugmentationFailure => String::from_str("unable to augment bitcoin block"),
        }
    }
}

} // verus!
