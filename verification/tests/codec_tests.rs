use hord_db::codec::{CompactedBlock, CompactedTx, CompactedTxIn};
use hord_db::errors::HordError;

fn sample_block() -> CompactedBlock {
    CompactedBlock {
        coinbase_txid_prefix: 0xaabbccdd,
        coinbase_value: 625_000_000,
        transactions: vec![
            CompactedTx {
                txid_prefix: 0x11111111,
                inputs: vec![
                    CompactedTxIn {
                        prev_txid_prefix: 0x22222222,
                        prev_block_height: 799_999,
                        prev_vout: 3,
                        prev_value: 100_000_000,
                    },
                    CompactedTxIn {
                        prev_txid_prefix: 0x33333333,
                        prev_block_height: 12,
                        prev_vout: 65535,
                        prev_value: u64::MAX,
                    },
                ],
                outputs: vec![50_000_000, 0, 24, 255, 65536, 4_294_967_296],
            },
            CompactedTx {
                txid_prefix: 0,
                inputs: vec![],
                outputs: vec![],
            },
        ],
    }
}

fn assert_blocks_equal(a: &CompactedBlock, b: &CompactedBlock) {
    assert_eq!(a.coinbase_txid_prefix, b.coinbase_txid_prefix);
    assert_eq!(a.coinbase_value, b.coinbase_value);
    assert_eq!(a.transactions.len(), b.transactions.len());
    for (ta, tb) in a.transactions.iter().zip(b.transactions.iter()) {
        assert_eq!(ta.txid_prefix, tb.txid_prefix);
        assert_eq!(ta.inputs, tb.inputs);
        assert_eq!(ta.outputs, tb.outputs);
    }
}

#[test]
fn roundtrip_through_bytes() {
    let block = sample_block();
    let bytes = block.encode_bytes();
    let decoded = CompactedBlock::from_bytes(&bytes).expect("decodes");
    assert_blocks_equal(&block, &decoded);
}

#[test]
fn roundtrip_through_hex() {
    let block = sample_block();
    let hex_text = block.to_hex_bytes();
    let decoded = CompactedBlock::from_hex_bytes(&hex_text).expect("decodes");
    assert_blocks_equal(&block, &decoded);
}

#[test]
fn roundtrip_empty_block() {
    let block = CompactedBlock {
        coinbase_txid_prefix: 0,
        coinbase_value: 0,
        transactions: vec![],
    };
    let decoded = CompactedBlock::from_hex_bytes(&block.to_hex_bytes()).expect("decodes");
    assert_blocks_equal(&block, &decoded);
}

#[test]
fn hex_transport_matches_hex_crate() {
    let block = sample_block();
    let bytes = block.encode_bytes();
    assert_eq!(block.to_hex_bytes(), hex::encode(&bytes));
    let back = hex::decode(block.to_hex_bytes()).expect("valid hex");
    assert_eq!(back, bytes);
}

#[test]
fn encoding_is_valid_cbor() {
    let block = sample_block();
    let bytes = block.encode_bytes();
    let value: ciborium::value::Value =
        ciborium::de::from_reader(&bytes[..]).expect("parses as CBOR");
    match value {
        ciborium::value::Value::Array(items) => {
            assert_eq!(items.len(), 3);
            assert_eq!(
                items[0],
                ciborium::value::Value::Integer(0xaabbccddu32.into())
            );
            assert_eq!(
                items[1],
                ciborium::value::Value::Integer(625_000_000u64.into())
            );
            match &items[2] {
                ciborium::value::Value::Array(txs) => assert_eq!(txs.len(), 2),
                other => panic!("transactions should be an array, got {:?}", other),
            }
        }
        other => panic!("block should be an array, got {:?}", other),
    }
}

#[test]
fn encoding_is_deterministic() {
    let a = sample_block().encode_bytes();
    let b = sample_block().encode_bytes();
    assert_eq!(a, b);
}

#[test]
fn from_hex_bytes_rejects_bad_hex() {
    assert_eq!(
        CompactedBlock::from_hex_bytes("zz").unwrap_err(),
        HordError::CorruptBlob
    );
    assert_eq!(
        CompactedBlock::from_hex_bytes("abc").unwrap_err(),
        HordError::CorruptBlob
    );
}

#[test]
fn from_bytes_rejects_garbage() {
    assert_eq!(
        CompactedBlock::from_bytes(&vec![0xffu8, 0x00]).unwrap_err(),
        HordError::CorruptBlob
    );
    assert_eq!(
        CompactedBlock::from_bytes(&vec![]).unwrap_err(),
        HordError::CorruptBlob
    );
    // A valid block followed by trailing bytes is rejected.
    let mut bytes = sample_block().encode_bytes();
    bytes.push(0);
    assert_eq!(
        CompactedBlock::from_bytes(&bytes).unwrap_err(),
        HordError::CorruptBlob
    );
}
