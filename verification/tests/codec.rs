use beefy_relay::commitment::{Commitment, PayloadItem, Signature, SignedCommitment};
use beefy_relay::errors::DecodeError;

fn sample_commitment() -> SignedCommitment {
    SignedCommitment {
        commitment: Some(Commitment {
            payloads: vec![PayloadItem { id: vec![0x6d, 0x68], data: vec![0xAA; 32] }],
            block_number: 100,
            validator_set_id: 7,
        }),
        signatures: vec![
            Signature { index: 0, signature: vec![0x11; 65] },
            Signature { index: 2, signature: vec![0x22; 65] },
            Signature { index: 4, signature: vec![0x33; 65] },
        ],
    }
}

#[test]
fn round_trip_signed_commitment() {
    let sc = sample_commitment();
    let bytes = sc.encode();
    let decoded = SignedCommitment::decode(&bytes).expect("decode");
    assert_eq!(decoded, sc);
}

#[test]
fn round_trip_empty_commitment() {
    let sc = SignedCommitment { commitment: None, signatures: vec![] };
    let bytes = sc.encode();
    assert_eq!(bytes, vec![0u8, 0, 0, 0, 0]);
    let decoded = SignedCommitment::decode(&bytes).expect("decode");
    assert_eq!(decoded, sc);
}

#[test]
fn encoding_is_bit_exact() {
    let sc = SignedCommitment {
        commitment: Some(Commitment {
            payloads: vec![PayloadItem { id: vec![0x6d, 0x68], data: vec![0xAB, 0xCD] }],
            block_number: 0x04030201,
            validator_set_id: 0x0807060504030201,
        }),
        signatures: vec![Signature { index: 5, signature: vec![0x77; 65] }],
    };
    let bytes = sc.encode();
    let mut expected = vec![
        1u8, // a commitment is present
        1, 0, 0, 0, // one payload item
        0x6d, 0x68, // payload id
        2, 0, 0, 0, // payload data length
        0xAB, 0xCD, // payload data
        0x01, 0x02, 0x03, 0x04, // block number, little endian
        0x01, 0x02, 0x03, 0x04, 0x05, 0x06, 0x07, 0x08, // validator set id
        1, 0, 0, 0, // one signature
        5, 0, 0, 0, // its leaf index
    ];
    expected.extend(std::iter::repeat(0x77).take(65));
    assert_eq!(bytes, expected);
}

#[test]
fn decode_rejects_trailing_bytes() {
    let mut bytes = sample_commitment().encode();
    bytes.push(0);
    assert_eq!(SignedCommitment::decode(&bytes), Err(DecodeError::Trailing));
}

#[test]
fn decode_rejects_truncated_input() {
    let mut bytes = sample_commitment().encode();
    bytes.pop();
    assert_eq!(SignedCommitment::decode(&bytes), Err(DecodeError::Malformed));
}

#[test]
fn decode_rejects_bad_tag() {
    let bytes = vec![2u8, 0, 0, 0, 0];
    assert_eq!(SignedCommitment::decode(&bytes), Err(DecodeError::Malformed));
}

#[test]
fn decode_rejects_empty_input() {
    let bytes = Vec::new();
    assert_eq!(SignedCommitment::decode(&bytes), Err(DecodeError::Malformed));
}
