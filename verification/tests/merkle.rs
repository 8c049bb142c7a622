use beefy_relay::crypto::keccak_256;
use beefy_relay::merkle::{
    build_validator_proof, hash_pair, merkle_proof, merkle_root, proof_record_verifies,
    verify_proof,
};

fn leaves(n: usize) -> Vec<Vec<u8>> {
    (0..n).map(|i| vec![i as u8; 20]).collect()
}

#[test]
fn keccak_known_vector() {
    // Keccak-256 of the empty string.
    let d = keccak_256(&[]);
    let expected: Vec<u8> = vec![
        0xc5, 0xd2, 0x46, 0x01, 0x86, 0xf7, 0x23, 0x3c, 0x92, 0x7e, 0x7d, 0xb2, 0xdc, 0xc7, 0x03,
        0xc0, 0xe5, 0x00, 0xb6, 0x53, 0xca, 0x82, 0x27, 0x3b, 0x7b, 0xfa, 0xd8, 0x04, 0x5d, 0x85,
        0xa4, 0x70,
    ];
    assert_eq!(d, expected);
}

#[test]
fn single_leaf_root_is_leaf_hash() {
    let ls = leaves(1);
    assert_eq!(merkle_root(&ls), keccak_256(&ls[0]));
}

#[test]
fn two_leaf_root_combines_hashes() {
    let ls = leaves(2);
    let h0 = keccak_256(&ls[0]);
    let h1 = keccak_256(&ls[1]);
    assert_eq!(merkle_root(&ls), hash_pair(&h0, &h1));
}

#[test]
fn every_proof_verifies() {
    for n in 1..=8usize {
        let ls = leaves(n);
        let root = merkle_root(&ls);
        for i in 0..n {
            let proof = merkle_proof(&ls, i);
            assert!(verify_proof(&root, &proof, n, i, &ls[i]), "n={} i={}", n, i);
        }
    }
}

#[test]
fn corrupt_proof_byte_fails() {
    let ls = leaves(5);
    let root = merkle_root(&ls);
    let proof = merkle_proof(&ls, 2);
    for level in 0..proof.len() {
        for byte in 0..proof[level].len() {
            let mut bad = proof.clone();
            bad[level][byte] ^= 1;
            assert!(!verify_proof(&root, &bad, 5, 2, &ls[2]));
        }
    }
}

#[test]
fn corrupt_leaf_byte_fails() {
    let ls = leaves(5);
    let root = merkle_root(&ls);
    let proof = merkle_proof(&ls, 2);
    let mut bad_leaf = ls[2].clone();
    bad_leaf[7] ^= 0x80;
    assert!(!verify_proof(&root, &proof, 5, 2, &bad_leaf));
}

#[test]
fn wrong_index_fails() {
    let ls = leaves(5);
    let root = merkle_root(&ls);
    let proof = merkle_proof(&ls, 2);
    assert!(!verify_proof(&root, &proof, 5, 3, &ls[2]));
    assert!(!verify_proof(&root, &proof, 5, 5, &ls[2]));
}

#[test]
fn validator_proof_records_align_with_indices() {
    // Compressed secp256k1 public keys for small secret keys.
    let authorities: Vec<Vec<u8>> = (1u8..=5)
        .map(|k| {
            let sk = libsecp256k1::SecretKey::parse(&[k; 32]).unwrap();
            libsecp256k1::PublicKey::from_secret_key(&sk).serialize_compressed().to_vec()
        })
        .collect();
    let records = build_validator_proof(&authorities);
    assert_eq!(records.len(), 5);
    let addresses: Vec<Vec<u8>> = authorities
        .iter()
        .map(|a| beefy_relay::crypto::beefy_ecdsa_to_ethereum(a))
        .collect();
    let root = merkle_root(&addresses);
    for (i, record) in records.iter().enumerate() {
        assert_eq!(record.leaf_index, i);
        assert_eq!(record.number_of_leaves, 5);
        assert_eq!(record.leaf, addresses[i]);
        assert!(proof_record_verifies(record, &root));
    }
}
