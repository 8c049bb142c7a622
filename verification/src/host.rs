use vstd::prelude::*;
use core::marker::PhantomData;

use crate::errors::HostError;

verus! {

// ---------------------------------------------------------------------------
// The crypto operations a host chain provides, and the adapters that route
// each subsystem's needs through one provider.
// ---------------------------------------------------------------------------

/// Every crypto function a host chain should provide. Implemented by the
/// host: each exec method must return exactly what the implementation's
/// own spec method says, so adapters over a provider can promise the
/// provider's answer; nothing more is assumed of the host's crypto.
pub trait HostFunctionsProvider {
    /// What the host's Keccak-256 yields.
    spec fn spec_keccak_256(input: Seq<u8>) -> Seq<u8>;

    /// What the host's compressed public-key recovery yields.
    spec fn spec_secp256k1_ecdsa_recover_compressed(signature: Seq<u8>, value: Seq<u8>) -> Option<
        Seq<u8>,
    >;

    /// Whether the host accepts an ed25519 signature over a message under
    /// a public key.
    spec fn spec_ed25519_verify(signature: Seq<u8>, msg: Seq<u8>, pubkey: Seq<u8>) -> bool;

    /// What the host's SHA-256 yields, as the consensus layer names it.
    spec fn spec_sha256_digest(data: Seq<u8>) -> Seq<u8>;

    /// What the host's SHA-256 yields.
    spec fn spec_sha2_256(message: Seq<u8>) -> Seq<u8>;

    /// What the host's SHA-512 yields.
    spec fn spec_sha2_512(message: Seq<u8>) -> Seq<u8>;

    /// What the host's truncated SHA-512 yields.
    spec fn spec_sha2_512_truncated(message: Seq<u8>) -> Seq<u8>;

    /// What the host's SHA3-512 yields.
    spec fn spec_sha3_512(message: Seq<u8>) -> Seq<u8>;

    /// What the host's RIPEMD-160 yields.
    spec fn spec_ripemd160(message: Seq<u8>) -> Seq<u8>;

    /// Keccak-256.
    fn keccak_256(input: &[u8]) -> (r: Vec<u8>)
        ensures
            r@ == Self::spec_keccak_256(input@),
            r@.len() == 32,
    ;

    /// Compressed ECDSA public-key recovery from a 65-byte signature over a
    /// 32-byte digest.
    fn secp256k1_ecdsa_recover_compressed(signature: &[u8], value: &[u8]) -> (r: Option<Vec<u8>>)
        ensures
            r.deep_view() == Self::spec_secp256k1_ecdsa_recover_compressed(signature@, value@),
    ;

    /// Whether a 64-byte ed25519 signature over a message checks out under
    /// a public key.
    fn ed25519_verify(signature: &[u8], msg: &[u8], pubkey: &[u8]) -> (b: bool)
        ensures
            b == Self::spec_ed25519_verify(signature@, msg@, pubkey@),
    ;

    /// Membership of a key/value pair in a trie proof.
    fn verify_membership_trie_proof(
        root: &[u8],
        proof: &[Vec<u8>],
        key: &[u8],
        value: &[u8],
    ) -> Result<(), HostError>;

    /// Non-membership of a key in a trie proof.
    fn verify_non_membership_trie_proof(root: &[u8], proof: &[Vec<u8>], key: &[u8]) -> Result<
        (),
        HostError,
    >;

    /// SHA-256, as the consensus layer names it.
    fn sha256_digest(data: &[u8]) -> (r: Vec<u8>)
        ensures
            r@ == Self::spec_sha256_digest(data@),
            r@.len() == 32,
    ;

    /// SHA-256.
    fn sha2_256(message: &[u8]) -> (r: Vec<u8>)
        ensures
            r@ == Self::spec_sha2_256(message@),
            r@.len() == 32,
    ;

    /// SHA-512.
    fn sha2_512(message: &[u8]) -> (r: Vec<u8>)
        ensures
            r@ == Self::spec_sha2_512(message@),
            r@.len() == 64,
    ;

    /// SHA-512 truncated to 256 bits.
    fn sha2_512_truncated(message: &[u8]) -> (r: Vec<u8>)
        ensures
            r@ == Self::spec_sha2_512_truncated(message@),
            r@.len() == 32,
    ;

    /// SHA3-512.
    fn sha3_512(message: &[u8]) -> (r: Vec<u8>)
        ensures
            r@ == Self::spec_sha3_512(message@),
            r@.len() == 64,
    ;

    /// RIPEMD-160.
    fn ripemd160(message: &[u8]) -> (r: Vec<u8>)
        ensures
            r@ == Self::spec_ripemd160(message@),
            r@.len() == 20,
    ;
}

/// One provider routed to every subsystem that needs host crypto: each
/// method forwards to the provider it is parameterized by.
pub struct HostFunctionsManager<T: HostFunctionsProvider>(pub PhantomData<T>);

impl<T: HostFunctionsProvider> HostFunctionsManager<T> {
    /// The digest the light-client verifier hashes headers with: exactly
    /// the provider's consensus digest.
    pub fn sha2_256(preimage: &[u8]) -> (r: Vec<u8>)
        ensures
            r@ == T::spec_sha256_digest(preimage@),
            r@.len() == 32,
    {
        T::sha256_digest(preimage)
    }

    /// Signature checking for the light-client verifier: accepts exactly
    /// when the provider accepts the signature, with the message and key
    /// passed through unchanged.
    pub fn ed25519_verify(sig: &[u8], msg: &[u8], pub_key: &[u8]) -> (r: Result<(), HostError>)
        ensures
            r is Ok <==> T::spec_ed25519_verify(sig@, msg@, pub_key@),
            r is Err ==> r == Err::<(), HostError>(HostError::InvalidSignature),
    {
        if T::ed25519_verify(sig, msg, pub_key) {
            Ok(())
        } else {
            Err(HostError::InvalidSignature)
        }
    }

    /// SHA-512 for the commitment-proof checker: exactly the provider's.
    pub fn sha2_512(message: &[u8]) -> (r: Vec<u8>)
        ensures
            r@ == T::spec_sha2_512(message@),
            r@.len() == 64,
    {
        T::sha2_512(message)
    }

    /// Truncated SHA-512 for the commitment-proof checker: exactly the
    /// provider's.
    pub fn sha2_512_truncated(message: &[u8]) -> (r: Vec<u8>)
        ensures
            r@ == T::spec_sha2_512_truncated(message@),
            r@.len() == 32,
    {
        T::sha2_512_truncated(message)
    }

    /// SHA3-512 for the commitment-proof checker: exactly the provider's.
    pub fn sha3_512(message: &[u8]) -> (r: Vec<u8>)
        ensures
            r@ == T::spec_sha3_512(message@),
            r@.len() == 64,
    {
        T::sha3_512(message)
    }

    /// RIPEMD-160 for the commitment-proof checker: exactly the provider's.
    pub fn ripemd160(message: &[u8]) -> (r: Vec<u8>)
        ensures
            r@ == T::spec_ripemd160(message@),
            r@.len() == 20,
    {
        T::ripemd160(message)
    }
}

/// A stand-in provider with fixed answers, for wiring the verifier before
/// a real host is attached.
#[derive(Clone, Copy, Debug, Default, PartialEq, Eq, Structural)]
pub struct TempTendermintProvider;

impl HostFunctionsProvider for TempTendermintProvider {
    open spec fn spec_keccak_256(input: Seq<u8>) -> Seq<u8> {
        Seq::new(32, |i: int| 0u8)
    }

    open spec fn spec_secp256k1_ecdsa_recover_compressed(
        signature: Seq<u8>,
        value: Seq<u8>,
    ) -> Option<Seq<u8>> {
        None
    }

    open spec fn spec_ed25519_verify(signature: Seq<u8>, msg: Seq<u8>, pubkey: Seq<u8>) -> bool {
        true
    }

    open spec fn spec_sha256_digest(data: Seq<u8>) -> Seq<u8> {
        Seq::new(32, |i: int| 0u8)
    }

    open spec fn spec_sha2_256(message: Seq<u8>) -> Seq<u8> {
        Seq::new(32, |i: int| 0u8)
    }

    open spec fn spec_sha2_512(message: Seq<u8>) -> Seq<u8> {
        Seq::new(64, |i: int| 0u8)
    }

    open spec fn spec_sha2_512_truncated(message: Seq<u8>) -> Seq<u8> {
        Seq::new(32, |i: int| 0u8)
    }

    open spec fn spec_sha3_512(message: Seq<u8>) -> Seq<u8> {
        Seq::new(64, |i: int| 0u8)
    }

    open spec fn spec_ripemd160(message: Seq<u8>) -> Seq<u8> {
        Seq::new(20, |i: int| 0u8)
    }

    fn keccak_256(input: &[u8]) -> (r: Vec<u8>) {
        let _ = input;
        let r = vec![0u8; 32];
        proof {
            assert(r@ =~= Seq::new(32, |i: int| 0u8));
        }
        r
    }

    fn secp256k1_ecdsa_recover_compressed(signature: &[u8], value: &[u8]) -> (r: Option<Vec<u8>>) {
        let _ = signature;
        let _ = value;
        None
    }

    fn ed25519_verify(signature: &[u8], msg: &[u8], pubkey: &[u8]) -> (b: bool) {
        let _ = signature;
        let _ = msg;
        let _ = pubkey;
        true
    }

    fn verify_membership_trie_proof(
        root: &[u8],
        proof: &[Vec<u8>],
        key: &[u8],
        value: &[u8],
    ) -> Result<(), HostError> {
        let _ = root;
        let _ = proof;
        let _ = key;
        let _ = value;
        Ok(())
    }

    fn verify_non_membership_trie_proof(root: &[u8], proof: &[Vec<u8>], key: &[u8]) -> Result<
        (),
        HostError,
    > {
        let _ = root;
        let _ = proof;
        let _ = key;
        Ok(())
    }

    fn sha256_digest(data: &[u8]) -> (r: Vec<u8>) {
        let _ = data;
        let r = vec![0u8; 32];
        proof {
            assert(r@ =~= Seq::new(32, |i: int| 0u8));
        }
        r
    }

    fn sha2_256(message: &[u8]) -> (r: Vec<u8>) {
        let _ = message;
        let r = vec![0u8; 32];
        proof {
            assert(r@ =~= Seq::new(32, |i: int| 0u8));
        }
        r
    }

    fn sha2_512(message: &[u8]) -> (r: Vec<u8>) {
        let _ = message;
        let r = vec![0u8; 64];
        proof {
            assert(r@ =~= Seq::new(64, |i: int| 0u8));
        }
        r
    }

    fn sha2_512_truncated(message: &[u8]) -> (r: Vec<u8>) {
        let _ = message;
        let r = vec![0u8; 32];
        proof {
            assert(r@ =~= Seq::new(32, |i: int| 0u8));
        }
        r
    }

    fn sha3_512(message: &[u8]) -> (r: Vec<u8>) {
        let _ = message;
        let r = vec![0u8; 64];
        proof {
            assert(r@ =~= Seq::new(64, |i: int| 0u8));
        }
        r
    }

    fn ripemd160(message: &[u8]) -> (r: Vec<u8>) {
        let _ = message;
        let r = vec![0u8; 20];
        proof {
            assert(r@ =~= Seq::new(20, |i: int| 0u8));
        }
        r
    }
}

} // verus!
