use parity_scale_codec::{Compact, Decode, Encode};
use plasma_exit::scale::{read_byte_list, read_bytes, read_compact, read_le};
use plasma_exit::types::{
    decode_property, decode_state_update, decode_transaction, encode_property, encode_state_update,
    encode_transaction, Property, Range, StateUpdate, Transaction,
};

fn sample_state_update() -> StateUpdate {
    StateUpdate {
        deposit_contract_address: [7u8; 32],
        range: Range { start: 100, end: 200 },
        block_number: 12,
        state_object: Property { predicate_address: [9u8; 32], inputs: vec![vec![1, 2, 3], vec![], vec![0xff; 70]] },
    }
}

fn reference_encoding(su: &StateUpdate) -> Vec<u8> {
    (
        su.deposit_contract_address,
        (su.range.start, su.range.end),
        su.block_number,
        (su.state_object.predicate_address, su.state_object.inputs.clone()),
    )
        .encode()
}

#[test]
fn compact_reader_accepts_scale_codec_at_mode_boundaries() {
    for v in [0u32, 1, 63, 64, 100, 16383, 16384, 1 << 29, (1 << 30) - 1, 1 << 30, u32::MAX] {
        let out = Compact(v).encode();
        assert_eq!(read_compact(&out, 0), Some((v, out.len())), "value {}", v);
    }
    assert_eq!(read_compact(&[0xfc], 0), Some((63, 1)));
    assert_eq!(read_compact(&[0x01, 0x01], 0), Some((64, 2)));
    assert_eq!(read_compact(&[0x03, 0x00, 0x00, 0x00, 0x40], 0), Some((1 << 30, 5)));
}

#[test]
fn compact_refuses_non_canonical_and_short_input() {
    // Two-byte mode holding 0, which fits one byte.
    assert_eq!(read_compact(&[0x01, 0x00], 0), None);
    assert!(Compact::<u32>::decode(&mut &[0x01u8, 0x00][..]).is_err());
    // Four-byte mode holding 64.
    assert_eq!(read_compact(&[0x02, 0x01, 0x00, 0x00], 0), None);
    // Big-integer mode announcing more than four bytes.
    assert_eq!(read_compact(&[0x07, 0, 0, 0, 0x40, 0], 0), None);
    // Truncated inputs.
    assert_eq!(read_compact(&[], 0), None);
    assert_eq!(read_compact(&[0x01], 0), None);
    assert_eq!(read_compact(&[0x03, 0, 0, 0], 0), None);
    // Reading at an offset.
    assert_eq!(read_compact(&[0xaa, 0x08], 1), Some((2, 2)));
}

#[test]
fn little_endian_numbers() {
    let out = 0x0102_0304u32.encode();
    assert_eq!(read_le(&out, 0, 4), 0x0102_0304);
    assert_eq!(read_le(&out, 1, 2), 0x0203);
    assert_eq!(read_le(&u128::MAX.encode(), 0, 16), u128::MAX);
}

#[test]
fn bytes_and_lists_read_back() {
    let b: Vec<u8> = (0..100u8).collect();
    let out = b.encode();
    assert_eq!(read_bytes(&out, 0), Some((b.clone(), out.len())));
    assert_eq!(read_bytes(&out[..out.len() - 1], 0), None);

    let l: Vec<Vec<u8>> = vec![vec![], vec![1], b.clone()];
    let out = l.encode();
    assert_eq!(read_byte_list(&out, 0), Some((l.clone(), out.len())));
    assert_eq!(read_byte_list(&out[..out.len() - 1], 0), None);
}

#[test]
fn state_update_encoding_matches_scale_codec() {
    let su = sample_state_update();
    let bytes = encode_state_update(&su);
    assert_eq!(bytes, reference_encoding(&su));
    assert_eq!(bytes.len(), 32 + 32 + 4 + 32 + 1 + 4 + 1 + 2 + 70);
}

#[test]
fn state_update_roundtrip_and_trailing_bytes() {
    let su = sample_state_update();
    let mut bytes = encode_state_update(&su);
    assert_eq!(decode_state_update(&bytes), Some(su.clone()));
    bytes.extend_from_slice(&[1, 2, 3]);
    assert_eq!(decode_state_update(&bytes), Some(su.clone()));
    let bytes = encode_state_update(&su);
    assert_eq!(decode_state_update(&bytes[..bytes.len() - 1]), None);
    assert_eq!(decode_state_update(&bytes[..67]), None);
    assert_eq!(decode_state_update(&[]), None);
}

#[test]
fn property_and_transaction_roundtrip() {
    let p = Property { predicate_address: [3u8; 32], inputs: vec![b"EXIT_CLAIM".to_vec(), vec![5; 3]] };
    let bytes = encode_property(&p);
    assert_eq!(bytes, (p.predicate_address, p.inputs.clone()).encode());
    assert_eq!(decode_property(&bytes), Some(p.clone()));
    let tx = Transaction {
        deposit_contract_address: [1u8; 32],
        range: Range { start: 0, end: u128::MAX },
        max_block_number: u32::MAX,
        next_state_object: p.clone(),
    };
    let bytes = encode_transaction(&tx);
    assert_eq!(
        bytes,
        (tx.deposit_contract_address, (tx.range.start, tx.range.end), tx.max_block_number, (p.predicate_address, p.inputs.clone()))
            .encode()
    );
    assert_eq!(decode_transaction(&bytes), Some(tx));
}
