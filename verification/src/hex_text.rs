//! Lowercase hex transport for the compacted-block blobs.
//!
//! Blobs are stored in the database as lowercase hex strings; this module
//! states exactly what that text is and proves that decoding undoes encoding.

use vstd::prelude::*;
use vstd::string::*;

verus! {

/// The lowercase hex character for one nibble (`n < 16`).
pub open spec fn hex_char(n: u8) -> char {
    if n == 0 { '0' }
    else if n == 1 { '1' }
    else if n == 2 { '2' }
    else if n == 3 { '3' }
    else if n == 4 { '4' }
    else if n == 5 { '5' }
    else if n == 6 { '6' }
    else if n == 7 { '7' }
    else if n == 8 { '8' }
    else if n == 9 { '9' }
    else if n == 10 { 'a' }
    else if n == 11 { 'b' }
    else if n == 12 { 'c' }
    else if n == 13 { 'd' }
    else if n == 14 { 'e' }
    else { 'f' }
}

/// The nibble a hex character denotes, accepting both cases.
pub open spec fn hex_val(c: char) -> Option<u8> {
    if c == '0' { Some(0u8) }
    else if c == '1' { Some(1u8) }
    else if c == '2' { Some(2u8) }
    else if c == '3' { Some(3u8) }
    else if c == '4' { Some(4u8) }
    else if c == '5' { Some(5u8) }
    else if c == '6' { Some(6u8) }
    else if c == '7' { Some(7u8) }
    else if c == '8' { Some(8u8) }
    else if c == '9' { Some(9u8) }
    else if c == 'a' || c == 'A' { Some(10u8) }
    else if c == 'b' || c == 'B' { Some(11u8) }
    else if c == 'c' || c == 'C' { Some(12u8) }
    else if c == 'd' || c == 'D' { Some(13u8) }
    else if c == 'e' || c == 'E' { Some(14u8) }
    else if c == 'f' || c == 'F' { Some(15u8) }
    else { None }
}

/// The lowercase hex text of a byte sequence: two characters per byte,
/// high nibble first, no prefix, no whitespace.
pub open spec fn hex_of(bytes: Seq<u8>) -> Seq<char> {
    Seq::new(bytes.len() * 2, |i: int|
        if i % 2 == 0 {
            hex_char(bytes[i / 2] / 16)
        } else {
            hex_char(bytes[i / 2] % 16)
        })
}

/// Whether every character of `text` is a hex digit.
pub open spec fn all_hex(text: Seq<char>) -> bool {
    forall|i: int| 0 <= i < text.len() ==> hex_val(#[trigger] text[i]) is Some
}

/// The bytes a hex text denotes, or `None` if the text has odd length or a
/// character that is no hex digit.
pub open spec fn unhex(text: Seq<char>) -> Option<Seq<u8>> {
    if text.len() % 2 == 0 && all_hex(text) {
        Some(Seq::new(text.len() / 2, |i: int|
            (hex_val(text[2 * i]).unwrap() * 16 + hex_val(text[2 * i + 1]).unwrap()) as u8))
    } else {
        None
    }
}

/// Hex decoding undoes hex encoding.
pub proof fn lemma_hex_round_trip(bytes: Seq<u8>)
    ensures
        unhex(hex_of(bytes)) == Some(bytes),
{
    let text = hex_of(bytes);
    assert forall|i: int| 0 <= i < text.len() implies hex_val(#[trigger] text[i]) is Some by {
        if i % 2 == 0 {
            assert(text[i] == hex_char(bytes[i / 2] / 16));
        } else {
            assert(text[i] == hex_char(bytes[i / 2] % 16));
        }
    }
    assert(text.len() % 2 == 0);
    let decoded = unhex(text).unwrap();
    assert forall|i: int| 0 <= i < bytes.len() implies decoded[i] == bytes[i] by {
        assert(text[2 * i] == hex_char(bytes[i] / 16));
        assert(text[2 * i + 1] == hex_char(bytes[i] % 16));
    }
    assert(decoded =~= bytes);
}

/// Appends the lowercase hex character for nibble `n` to `out`.
fn push_hex_char(out: &mut String, n: u8)
    requires
        n < 16,
    ensures
        final(out)@ == old(out)@ + seq![hex_char(n)],
{
    proof {
        reveal_strlit("0");
        reveal_strlit("1");
        reveal_strlit("2");
        reveal_strlit("3");
        reveal_strlit("4");
        reveal_strlit("5");
        reveal_strlit("6");
        reveal_strlit("7");
        reveal_strlit("8");
        reveal_strlit("9");
        reveal_strlit("a");
        reveal_strlit("b");
        reveal_strlit("c");
        reveal_strlit("d");
        reveal_strlit("e");
        reveal_strlit("f");
    }
    match n {
        0 => out.append("0"),
        1 => out.append("1"),
        2 => out.append("2"),
        3 => out.append("3"),
        4 => out.append("4"),
        5 => out.append("5"),
        6 => out.append("6"),
        7 => out.append("7"),
        8 => out.append("8"),
        9 => out.append("9"),
        10 => out.append("a"),
        11 => out.append("b"),
        12 => out.append("c"),
        13 => out.append("d"),
        14 => out.append("e"),
        _ => out.append("f"),
    }
}

/// Encodes `bytes` as lowercase hex text.
pub fn hex_encode(bytes: &Vec<u8>) -> (r: String)
    ensures
        r@ == hex_of(bytes@),
{
    let mut out = String::new();
    let mut k: usize = 0;
    while k < bytes.len()
        invariant
            k <= bytes.len(),
            out@.len() == 2 * k,
            forall|i: int| 0 <= i < out@.len() ==> #[trigger] out@[i] == hex_of(bytes@)[i],
        decreases bytes.len() - k,
    {
        let b = bytes[k];
        push_hex_char(&mut out, b / 16);
        push_hex_char(&mut out, b % 16);
        k = k + 1;
    }
    proof {
        assert(out@ =~= hex_of(bytes@));
    }
    out
}

/// The nibble an executable hex character denotes.
pub(crate) fn hex_val_exec(c: char) -> (r: Option<u8>)
    ensures
        r == hex_val(c),
{
    match c {
        '0' => Some(0),
        '1' => Some(1),
        '2' => Some(2),
        '3' => Some(3),
        '4' => Some(4),
        '5' => Some(5),
        '6' => Some(6),
        '7' => Some(7),
        '8' => Some(8),
        '9' => Some(9),
        'a' | 'A' => Some(10),
        'b' | 'B' => Some(11),
        'c' | 'C' => Some(12),
        'd' | 'D' => Some(13),
        'e' | 'E' => Some(14),
        'f' | 'F' => Some(15),
        _ => None,
    }
}

/// Decodes hex text into bytes; fails exactly where `unhex` does.
pub fn hex_decode(text: &str) -> (r: Option<Vec<u8>>)
    ensures
        match r {
            Some(v) => unhex(text@) == Some(v@),
            None => unhex(text@) is None,
        },
{
    let n = text.unicode_len();
    if n % 2 != 0 {
        return None;
    }
    let mut out: Vec<u8> = Vec::new();
    let mut k: usize = 0;
    while k < n
        invariant
            n == text@.len(),
            n % 2 == 0,
            k % 2 == 0,
            k <= n,
            out@.len() == k / 2,
            forall|i: int| 0 <= i < k ==> hex_val(#[trigger] text@[i]) is Some,
            forall|i: int| 0 <= i < out@.len() ==>
                #[trigger] out@[i] == (hex_val(text@[2 * i]).unwrap() * 16
                    + hex_val(text@[2 * i + 1]).unwrap()) as u8,
        decreases n - k,
    {
        let hi = match hex_val_exec(text.get_char(k)) {
            Some(v) => v,
            None => {
                return None;
            },
        };
        let lo = match hex_val_exec(text.get_char(k + 1)) {
            Some(v) => v,
            None => {
                return None;
            },
        };
        out.push(hi * 16 + lo);
        k = k + 2;
    }
    proof {
        let decoded = unhex(text@).unwrap();
        assert(out@ =~= decoded);
    }
    Some(out)
}

} // verus!
