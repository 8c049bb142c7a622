use beefy_relay::commitment::Signature;
use beefy_relay::crypto::{beefy_ecdsa_to_ethereum, keccak_256, secp256k1_decompress};
use beefy_relay::errors::SignatureError;
use beefy_relay::merkle::{build_validator_proof, merkle_root};
use beefy_relay::verify::{sparse_signatures, verify_commitment_signatures, verify_one_signature};

/// A signer with a fixed secret key, its compressed public key, and a
/// 65-byte signature over the given 32-byte hash.
fn sign(hash: &[u8], seed: u8) -> (Vec<u8>, Vec<u8>) {
    let sk = libsecp256k1::SecretKey::parse(&[seed; 32]).unwrap();
    let pk = libsecp256k1::PublicKey::from_secret_key(&sk);
    let msg = libsecp256k1::Message::parse_slice(hash).unwrap();
    let (sig, recid) = libsecp256k1::sign(&msg, &sk);
    let mut bytes = sig.serialize().to_vec();
    bytes.push(recid.serialize());
    (pk.serialize_compressed().to_vec(), bytes)
}

fn setup() -> (Vec<u8>, Vec<Vec<u8>>, Vec<Vec<u8>>) {
    let hash = keccak_256(b"a commitment to attest");
    let mut authorities = Vec::new();
    let mut signatures = Vec::new();
    for seed in 1u8..=5 {
        let (compressed, sig) = sign(&hash, seed);
        authorities.push(compressed);
        signatures.push(sig);
    }
    (hash, authorities, signatures)
}

#[test]
fn valid_signature_passes() {
    let (hash, authorities, signatures) = setup();
    let proofs = build_validator_proof(&authorities);
    let addresses: Vec<Vec<u8>> = authorities.iter().map(|a| beefy_ecdsa_to_ethereum(a)).collect();
    let root = merkle_root(&addresses);
    for sig in &signatures {
        assert_eq!(verify_one_signature(&hash, sig, &root, &proofs), Ok(()));
    }
}

#[test]
fn recovery_is_deterministic() {
    let (hash, authorities, signatures) = setup();
    let proofs = build_validator_proof(&authorities);
    let addresses: Vec<Vec<u8>> = authorities.iter().map(|a| beefy_ecdsa_to_ethereum(a)).collect();
    let root = merkle_root(&addresses);
    let first = verify_one_signature(&hash, &signatures[0], &root, &proofs);
    let second = verify_one_signature(&hash, &signatures[0], &root, &proofs);
    assert_eq!(first, second);
    assert_eq!(first, Ok(()));
}

#[test]
fn bit_flipped_signature_fails() {
    let (hash, authorities, signatures) = setup();
    let proofs = build_validator_proof(&authorities);
    let addresses: Vec<Vec<u8>> = authorities.iter().map(|a| beefy_ecdsa_to_ethereum(a)).collect();
    let root = merkle_root(&addresses);
    for byte in 0..65 {
        let mut bad = signatures[1].clone();
        bad[byte] ^= 1;
        let r = verify_one_signature(&hash, &bad, &root, &proofs);
        assert!(r.is_err(), "flipping byte {} still passed", byte);
    }
}

#[test]
fn invalid_recovery_id_is_reported() {
    let (hash, authorities, signatures) = setup();
    let proofs = build_validator_proof(&authorities);
    let addresses: Vec<Vec<u8>> = authorities.iter().map(|a| beefy_ecdsa_to_ethereum(a)).collect();
    let root = merkle_root(&addresses);
    let mut bad = signatures[0].clone();
    bad[64] = 9;
    assert_eq!(
        verify_one_signature(&hash, &bad, &root, &proofs),
        Err(SignatureError::InvalidRecoveryId)
    );
}

#[test]
fn wrong_length_is_invalid_signature() {
    let (hash, authorities, signatures) = setup();
    let proofs = build_validator_proof(&authorities);
    let addresses: Vec<Vec<u8>> = authorities.iter().map(|a| beefy_ecdsa_to_ethereum(a)).collect();
    let root = merkle_root(&addresses);
    let mut bad = signatures[0].clone();
    bad.pop();
    assert_eq!(
        verify_one_signature(&hash, &bad, &root, &proofs),
        Err(SignatureError::InvalidSignature)
    );
}

#[test]
fn non_member_signer_is_not_found() {
    let (hash, authorities, _) = setup();
    let proofs = build_validator_proof(&authorities);
    let addresses: Vec<Vec<u8>> = authorities.iter().map(|a| beefy_ecdsa_to_ethereum(a)).collect();
    let root = merkle_root(&addresses);
    // A signer outside the validator set.
    let (_, stranger_sig) = sign(&hash, 77);
    assert_eq!(
        verify_one_signature(&hash, &stranger_sig, &root, &proofs),
        Err(SignatureError::ValidatorNotFound)
    );
}

#[test]
fn sparse_window_skips_absent_slots() {
    let (hash, authorities, signatures) = setup();
    let proofs = build_validator_proof(&authorities);
    let addresses: Vec<Vec<u8>> = authorities.iter().map(|a| beefy_ecdsa_to_ethereum(a)).collect();
    let root = merkle_root(&addresses);
    let sparse = vec![
        Some(signatures[0].clone()),
        None,
        Some(signatures[2].clone()),
        None,
        Some(signatures[4].clone()),
    ];
    assert_eq!(verify_commitment_signatures(&hash, &sparse, &root, &proofs, 0, 5), Ok(()));
    // An incremental window over the tail only.
    assert_eq!(verify_commitment_signatures(&hash, &sparse, &root, &proofs, 3, 2), Ok(()));
}

#[test]
fn window_reports_first_failure() {
    let (hash, authorities, signatures) = setup();
    let proofs = build_validator_proof(&authorities);
    let addresses: Vec<Vec<u8>> = authorities.iter().map(|a| beefy_ecdsa_to_ethereum(a)).collect();
    let root = merkle_root(&addresses);
    let mut bad = signatures[1].clone();
    bad[64] = 7;
    let sparse = vec![Some(signatures[0].clone()), Some(bad), Some(signatures[2].clone())];
    assert_eq!(
        verify_commitment_signatures(&hash, &sparse, &root, &proofs, 0, 3),
        Err(SignatureError::InvalidRecoveryId)
    );
    // The window before the bad slot is clean.
    assert_eq!(verify_commitment_signatures(&hash, &sparse, &root, &proofs, 0, 1), Ok(()));
}

#[test]
fn signatures_lay_out_positionally() {
    let sigs = vec![
        Signature { index: 0, signature: vec![0x11; 65] },
        Signature { index: 2, signature: vec![0x22; 65] },
        Signature { index: 4, signature: vec![0x33; 65] },
    ];
    let slots = sparse_signatures(&sigs, 5).unwrap();
    assert_eq!(
        slots,
        vec![Some(vec![0x11; 65]), None, Some(vec![0x22; 65]), None, Some(vec![0x33; 65])]
    );
    // An index at the validator count is out of range.
    let bad = vec![Signature { index: 5, signature: vec![0x44; 65] }];
    assert_eq!(sparse_signatures(&bad, 5), Err(SignatureError::InvalidSignature));
}

#[test]
fn decompression_round_trips() {
    let sk = libsecp256k1::SecretKey::parse(&[3; 32]).unwrap();
    let pk = libsecp256k1::PublicKey::from_secret_key(&sk);
    let compressed = pk.serialize_compressed().to_vec();
    let full = secp256k1_decompress(&compressed).expect("valid key");
    assert_eq!(full, pk.serialize().to_vec());
    assert_eq!(full.len(), 65);
    assert_eq!(full[0], 4);
    // Garbage does not decompress.
    assert_eq!(secp256k1_decompress(&[0u8; 33]), None);
}
