use vvtec::codec::{
    decode_instruction, decode_record, encode_instruction, encode_record,
};
use vvtec::errors::Error;
use vvtec::name::{is_canonical_name_field, is_valid_name, name_bytes, unpad_name};
use vvtec::state::{Feed, Oracle, OracleInstruction};

#[test]
fn name_charset_and_length_rules() {
    assert!(is_valid_name(b"a"));
    assert!(is_valid_name(b"crypto.sol.usdt"));
    assert!(is_valid_name(b"a-b_c.0123456789"));
    assert!(is_valid_name(&[b'z'; 32]));
    assert!(!is_valid_name(b""));
    assert!(!is_valid_name(&[b'z'; 33]));
    assert!(!is_valid_name(b"Feed"));
    assert!(!is_valid_name(b"feed@1"));
    assert!(!is_valid_name(b"feed 1"));
}

#[test]
fn padding_is_zero_filled_and_strippable() {
    let padded = name_bytes(b"abc");
    assert_eq!(padded.len(), 32);
    assert_eq!(&padded[..3], b"abc");
    assert!(padded[3..].iter().all(|b| *b == 0));
    assert_eq!(unpad_name(&padded), b"abc".to_vec());

    let full = name_bytes(&[b'q'; 32]);
    assert_eq!(full, vec![b'q'; 32]);
    assert_eq!(unpad_name(&full), vec![b'q'; 32]);
}

#[test]
fn canonical_fields_have_nothing_after_the_first_zero() {
    assert!(is_canonical_name_field(&name_bytes(b"abc")));
    assert!(is_canonical_name_field(&name_bytes(&[b'q'; 32])));
    let mut crafted = name_bytes(b"abc");
    crafted[5] = b'z';
    assert!(!is_canonical_name_field(&crafted));
    assert_eq!(unpad_name(&crafted), b"abc".to_vec());
}

fn sample_record(value: Option<u128>) -> Oracle {
    Oracle {
        owner: vec![1u8; 32],
        name: name_bytes(b"feed1"),
        updated_at: 7,
        value,
    }
}

#[test]
fn record_encoding_layout_is_exact() {
    let bytes = encode_record(&sample_record(Some(5)));
    assert_eq!(bytes.len(), 89);
    assert_eq!(&bytes[..32], &[1u8; 32][..]);
    assert_eq!(&bytes[32..37], b"feed1");
    assert!(bytes[37..64].iter().all(|b| *b == 0));
    assert_eq!(&bytes[64..72], &7i64.to_le_bytes()[..]);
    assert_eq!(bytes[72], 1);
    assert_eq!(&bytes[73..89], &5u128.to_le_bytes()[..]);

    let empty = encode_record(&sample_record(None));
    assert_eq!(empty.len(), 73);
    assert_eq!(empty[72], 0);
}

#[test]
fn record_encoding_round_trips() {
    for value in [None, Some(0u128), Some(u128::MAX)] {
        let record = sample_record(value);
        let bytes = encode_record(&record);
        let back = decode_record(&bytes).unwrap();
        assert_eq!(back.owner, record.owner);
        assert_eq!(back.name, record.name);
        assert_eq!(back.updated_at, record.updated_at);
        assert_eq!(back.value, record.value);
    }
}

#[test]
fn record_decoding_rejects_malformed_bytes() {
    assert_eq!(decode_record(&[]).unwrap_err(), Error::EncodingError);
    assert_eq!(decode_record(&[0u8; 72]).unwrap_err(), Error::EncodingError);
    // right length, wrong presence byte
    let mut bytes = encode_record(&sample_record(None));
    bytes[72] = 9;
    assert_eq!(decode_record(&bytes).unwrap_err(), Error::EncodingError);
    // value-sized record with the absent tag
    let mut bytes = encode_record(&sample_record(Some(1)));
    bytes[72] = 0;
    assert_eq!(decode_record(&bytes).unwrap_err(), Error::EncodingError);
}

#[test]
fn instruction_encoding_layout_is_exact() {
    let create = OracleInstruction::Create {
        feed: Feed { owner: vec![2u8; 32], name: name_bytes(b"feed1"), value: Some(1) },
        balance: 500,
    };
    let bytes = encode_instruction(&create);
    assert_eq!(bytes.len(), 90);
    assert_eq!(bytes[0], 0);
    assert_eq!(&bytes[1..33], &[2u8; 32][..]);
    assert_eq!(&bytes[33..38], b"feed1");
    assert_eq!(bytes[65], 1);
    assert_eq!(&bytes[66..82], &1u128.to_le_bytes()[..]);
    assert_eq!(&bytes[82..90], &500u64.to_le_bytes()[..]);

    let update = encode_instruction(&OracleInstruction::Update(None));
    assert_eq!(update, vec![1, 0]);
    let update_some = encode_instruction(&OracleInstruction::Update(Some(3)));
    assert_eq!(update_some.len(), 18);
    assert_eq!(&update_some[..2], &[1, 1]);
    let delete = encode_instruction(&OracleInstruction::Delete);
    assert_eq!(delete, vec![2]);
}

#[test]
fn instruction_decoding_round_trips_and_rejects_garbage() {
    let create = OracleInstruction::Create {
        feed: Feed { owner: vec![9u8; 32], name: name_bytes(b"x"), value: None },
        balance: 1,
    };
    let bytes = encode_instruction(&create);
    match decode_instruction(&bytes).unwrap() {
        OracleInstruction::Create { feed, balance } => {
            assert_eq!(feed.owner, vec![9u8; 32]);
            assert_eq!(feed.name, name_bytes(b"x"));
            assert_eq!(feed.value, None);
            assert_eq!(balance, 1);
        },
        _ => panic!("wrong variant"),
    }

    match decode_instruction(&encode_instruction(&OracleInstruction::Update(Some(77)))).unwrap() {
        OracleInstruction::Update(v) => assert_eq!(v, Some(77)),
        _ => panic!("wrong variant"),
    }

    assert!(matches!(decode_instruction(&encode_instruction(&OracleInstruction::Delete)),
        Ok(OracleInstruction::Delete)));

    assert_eq!(decode_instruction(&[]).unwrap_err(), Error::EncodingError);
    assert_eq!(decode_instruction(&[3]).unwrap_err(), Error::EncodingError);
    assert_eq!(decode_instruction(&[2, 0]).unwrap_err(), Error::EncodingError);
    assert_eq!(decode_instruction(&[0; 10]).unwrap_err(), Error::EncodingError);
    assert_eq!(decode_instruction(&[1, 1, 0]).unwrap_err(), Error::EncodingError);
}
