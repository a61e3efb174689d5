use hord_db::errors::{decimal_string, HordError};
use hord_db::get_default_hord_db_file_path;
use hord_db::hex_text::{hex_decode, hex_encode};
use hord_db::identifiers::txid_prefix;

#[test]
fn default_db_file_path() {
    assert_eq!(
        get_default_hord_db_file_path("/var/lib/hord"),
        "/var/lib/hord/hord.sqlite"
    );
    // A trailing separator is not doubled, and an empty base yields a bare
    // file name, as a path join would.
    assert_eq!(
        get_default_hord_db_file_path("/var/lib/hord/"),
        "/var/lib/hord/hord.sqlite"
    );
    assert_eq!(get_default_hord_db_file_path(""), "hord.sqlite");
}

#[test]
fn decimal_rendering() {
    assert_eq!(decimal_string(0), "0");
    assert_eq!(decimal_string(7), "7");
    assert_eq!(decimal_string(767430), "767430");
    assert_eq!(decimal_string(u64::MAX), "18446744073709551615");
}

#[test]
fn error_messages_are_descriptive() {
    assert_eq!(
        HordError::MissingBlock(767430).describe(),
        "unable to retrieve block #767430"
    );
    assert_eq!(
        HordError::CorruptBlob.describe(),
        "unable to parse compacted block blob"
    );
}

#[test]
fn hex_roundtrip_and_case() {
    let bytes = vec![0u8, 1, 0xab, 0xff, 0x10];
    let text = hex_encode(&bytes);
    assert_eq!(text, "0001abff10");
    assert_eq!(hex_decode(&text), Some(bytes.clone()));
    // Decoding accepts both cases, like the usual hex decoders.
    assert_eq!(hex_decode("0001ABFF10"), Some(bytes.clone()));
    assert_eq!(hex_decode(&hex::encode(&bytes)), Some(bytes));
    assert_eq!(hex_decode("abc"), None);
    assert_eq!(hex_decode("zz"), None);
}

#[test]
fn txid_prefix_reads_first_four_bytes() {
    assert_eq!(txid_prefix("aabbccdd00112233"), Some(0xaabbccdd));
    assert_eq!(txid_prefix("AABBCCDD"), Some(0xaabbccdd));
    assert_eq!(txid_prefix("aabbccd"), None);
    assert_eq!(txid_prefix("gabbccdd"), None);
}

#[test]
fn txid_prefix_validates_the_whole_txid() {
    // A valid prefix followed by text that is not hex denotes no prefix.
    assert_eq!(txid_prefix("aabbccddzz"), None);
    assert_eq!(txid_prefix("aabbccdd0"), None);
    assert_eq!(txid_prefix("aabbccdd00112233zz"), None);
}
