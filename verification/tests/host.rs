use beefy_relay::errors::HostError;
use beefy_relay::host::{HostFunctionsManager, HostFunctionsProvider, TempTendermintProvider};

#[test]
fn temp_provider_answers_with_stubs() {
    assert_eq!(TempTendermintProvider::keccak_256(b"x"), vec![0u8; 32]);
    assert_eq!(TempTendermintProvider::sha2_256(b"x"), vec![0u8; 32]);
    assert_eq!(TempTendermintProvider::sha2_512(b"x"), vec![0u8; 64]);
    assert_eq!(TempTendermintProvider::sha2_512_truncated(b"x"), vec![0u8; 32]);
    assert_eq!(TempTendermintProvider::sha3_512(b"x"), vec![0u8; 64]);
    assert_eq!(TempTendermintProvider::ripemd160(b"x"), vec![0u8; 20]);
    assert_eq!(TempTendermintProvider::secp256k1_ecdsa_recover_compressed(&[0; 65], &[0; 32]), None);
    assert!(TempTendermintProvider::ed25519_verify(&[0; 64], b"m", b"k"));
    assert_eq!(
        TempTendermintProvider::verify_membership_trie_proof(&[0; 32], &[], b"k", b"v"),
        Ok(())
    );
    assert_eq!(
        TempTendermintProvider::verify_non_membership_trie_proof(&[0; 32], &[], b"k"),
        Ok(())
    );
}

#[test]
fn manager_routes_through_its_provider() {
    type M = HostFunctionsManager<TempTendermintProvider>;
    assert_eq!(M::sha2_256(b"header"), vec![0u8; 32]);
    assert_eq!(M::sha2_512(b"m"), vec![0u8; 64]);
    assert_eq!(M::sha2_512_truncated(b"m"), vec![0u8; 32]);
    assert_eq!(M::sha3_512(b"m"), vec![0u8; 64]);
    assert_eq!(M::ripemd160(b"m"), vec![0u8; 20]);
    assert_eq!(M::ed25519_verify(&[0; 64], b"m", b"k"), Ok(()));
}

#[test]
fn host_error_is_comparable() {
    assert_eq!(HostError::InvalidTrieProof, HostError::InvalidTrieProof);
}

#[test]
fn crypto_wrappers_compute_real_digests() {
    // SHA-256 of the empty string.
    let d = beefy_relay::crypto::sha2_256(&[]);
    let expected: Vec<u8> = vec![
        0xe3, 0xb0, 0xc4, 0x42, 0x98, 0xfc, 0x1c, 0x14, 0x9a, 0xfb, 0xf4, 0xc8, 0x99, 0x6f, 0xb9,
        0x24, 0x27, 0xae, 0x41, 0xe4, 0x64, 0x9b, 0x93, 0x4c, 0xa4, 0x95, 0x99, 0x1b, 0x78, 0x52,
        0xb8, 0x55,
    ];
    assert_eq!(d, expected);
    // Upper-case hex, big nibble first.
    assert_eq!(beefy_relay::crypto::hex_encode_upper(&[0x0F, 0xA0]), b"0FA0".to_vec());
}
