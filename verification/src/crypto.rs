use vstd::prelude::*;
use vstd::slice::{slice_subrange, slice_to_vec};

use sha2::Digest;

use crate::errors::SignatureError;

verus! {

// ---------------------------------------------------------------------------
// Names for what the outside digest and recovery functions return. Each is a
// function of its arguments alone, in every process and on every machine.
// ---------------------------------------------------------------------------

/// A byte vector's deep view is its view: the two name one sequence, and
/// contracts over uninterpreted digests need them interchangeable.
pub broadcast proof fn lemma_vec_u8_deep_view(v: Vec<u8>)
    ensures
        #[trigger] v.deep_view() == v@,
{
    assert(v.deep_view() =~= v@);
}

/// The Keccak-256 digest of a byte string.
pub uninterp spec fn keccak256_of(data: Seq<u8>) -> Seq<u8>;

/// The SHA-256 digest of a byte string.
pub uninterp spec fn sha256_of(data: Seq<u8>) -> Seq<u8>;

/// Whether 64 bytes are a standard secp256k1 signature: r and s each within
/// the curve order.
pub uninterp spec fn secp_sig_parse_ok(sig: Seq<u8>) -> bool;

/// The uncompressed public key (65 bytes, `0x04`-prefixed) that secp256k1
/// recovery yields for a 32-byte message hash, a 64-byte standard signature
/// and a recovery id below 4; `None` when recovery fails.
pub uninterp spec fn secp_recovered_pubkey(msg: Seq<u8>, sig: Seq<u8>, recovery_id: u8) -> Option<
    Seq<u8>,
>;

/// The uncompressed form (65 bytes) of a compressed secp256k1 public key;
/// `None` when the bytes are not a valid compressed key.
pub uninterp spec fn secp_decompressed_pubkey(compressed: Seq<u8>) -> Option<Seq<u8>>;

// ---------------------------------------------------------------------------
// Trusted wrappers around the outside calls.
// ---------------------------------------------------------------------------

/// Relies on `sha3::Keccak256` through `digest::Digest::digest`: a 32-byte
/// digest determined by the input bytes alone.
#[verifier::external_body]
pub fn keccak_256(data: &[u8]) -> (r: Vec<u8>)
    ensures
        r@ == keccak256_of(data@),
        r@.len() == 32,
{
    sha3::Keccak256::digest(data).to_vec()
}

/// Relies on `sha2::Sha256` through `digest::Digest::digest`: a 32-byte
/// digest determined by the input bytes alone.
#[verifier::external_body]
pub fn sha2_256(data: &[u8]) -> (r: Vec<u8>)
    ensures
        r@ == sha256_of(data@),
        r@.len() == 32,
{
    sha2::Sha256::digest(data).to_vec()
}

/// Relies on `libsecp256k1`, in the order the errors are reported:
/// `Signature::parse_standard_slice` on 64 bytes (named `secp_sig_parse_ok`),
/// `RecoveryId::parse`, which accepts exactly the bytes below 4, and
/// `recover` (named `secp_recovered_pubkey`); together with the conversions
/// `Message::parse_slice`, infallible on 32 bytes, and
/// `PublicKey::serialize`, which yields the 65-byte uncompressed key.
#[verifier::external_body]
pub fn secp256k1_recover(msg: &[u8], sig: &[u8], recovery_id: u8) -> (r: Result<
    Vec<u8>,
    SignatureError,
>)
    requires
        msg@.len() == 32,
        sig@.len() == 64,
    ensures
        match r {
            Ok(pk) => {
                &&& secp_sig_parse_ok(sig@)
                &&& recovery_id < 4
                &&& secp_recovered_pubkey(msg@, sig@, recovery_id) == Some(pk@)
                &&& pk@.len() == 65
            },
            Err(e) => {
                &&& (e == SignatureError::InvalidSignature <==> !secp_sig_parse_ok(sig@))
                &&& (e == SignatureError::InvalidRecoveryId <==> secp_sig_parse_ok(sig@)
                    && recovery_id >= 4)
                &&& (e == SignatureError::WrongSignature <==> secp_sig_parse_ok(sig@)
                    && recovery_id < 4 && secp_recovered_pubkey(msg@, sig@, recovery_id) is None)
            },
        },
        r is Ok <==> (secp_sig_parse_ok(sig@) && recovery_id < 4 && secp_recovered_pubkey(
            msg@,
            sig@,
            recovery_id,
        ) is Some),
{
    let m = libsecp256k1::Message::parse_slice(msg).unwrap();
    let s = match libsecp256k1::Signature::parse_standard_slice(sig) {
        Ok(s) => s,
        Err(_) => return Err(SignatureError::InvalidSignature),
    };
    let rid = match libsecp256k1::RecoveryId::parse(recovery_id) {
        Ok(rid) => rid,
        Err(_) => return Err(SignatureError::InvalidRecoveryId),
    };
    match libsecp256k1::recover(&m, &s, &rid) {
        Ok(pk) => Ok(pk.serialize().to_vec()),
        Err(_) => Err(SignatureError::WrongSignature),
    }
}

/// Relies on `libsecp256k1::PublicKey::parse_slice` with the compressed
/// format and `PublicKey::serialize`: the 65-byte uncompressed key is a
/// function of the compressed bytes alone, and `None` comes exactly when
/// they are not a valid compressed key.
#[verifier::external_body]
pub fn secp256k1_decompress(compressed: &[u8]) -> (r: Option<Vec<u8>>)
    ensures
        match r {
            Some(pk) => {
                &&& secp_decompressed_pubkey(compressed@) == Some(pk@)
                &&& pk@.len() == 65
            },
            None => secp_decompressed_pubkey(compressed@) is None,
        },
{
    libsecp256k1::PublicKey::parse_slice(
        compressed,
        Some(libsecp256k1::PublicKeyFormat::Compressed),
    ).ok().map(|pk| pk.serialize().to_vec())
}

/// Upper-case hex encoding: two digits per byte, big nibble first,
/// digits `0`-`9` then `A`-`F`.
pub open spec fn spec_hex_digit_upper(x: u8) -> u8
    recommends
        x < 16,
{
    if x < 10 {
        (0x30 + x) as u8
    } else {
        (0x37 + x) as u8
    }
}

pub open spec fn spec_hex_upper(data: Seq<u8>) -> Seq<u8> {
    Seq::new(
        data.len() * 2,
        |i: int|
            if i % 2 == 0 {
                spec_hex_digit_upper(data[i / 2] >> 4)
            } else {
                spec_hex_digit_upper(data[i / 2] & 0x0f)
            },
    )
}

/// Relies on `subtle_encoding::hex::encode_upper`: upper-case hex, two
/// digits per byte, big nibble first.
#[verifier::external_body]
pub fn hex_encode_upper(data: &[u8]) -> (r: Vec<u8>)
    ensures
        r@ == spec_hex_upper(data@),
{
    subtle_encoding::hex::encode_upper(data)
}

// ---------------------------------------------------------------------------
// Verified compositions.
// ---------------------------------------------------------------------------

/// The Ethereum-style address of an uncompressed public key: the last 20
/// bytes of the Keccak-256 digest of the key with its prefix byte stripped.
pub open spec fn spec_eth_address_of_pubkey(pubkey: Seq<u8>) -> Seq<u8> {
    keccak256_of(pubkey.skip(1)).skip(12)
}

pub fn eth_address_of_pubkey(pubkey: &Vec<u8>) -> (r: Vec<u8>)
    requires
        pubkey@.len() == 65,
    ensures
        r@ == spec_eth_address_of_pubkey(pubkey@),
        r@.len() == 20,
{
    let tail = slice_subrange(pubkey.as_slice(), 1, 65);
    proof {
        assert(tail@ =~= pubkey@.skip(1));
    }
    let h = keccak_256(tail);
    let addr = slice_to_vec(slice_subrange(h.as_slice(), 12, 32));
    proof {
        assert(addr@ =~= keccak256_of(pubkey@.skip(1)).skip(12));
    }
    addr
}

/// What a compressed validator key stands for in the tree: the Ethereum
/// address of its decompressed form, or an empty string when the key does
/// not decompress.
pub open spec fn spec_beefy_ecdsa_to_ethereum(compressed: Seq<u8>) -> Seq<u8> {
    match secp_decompressed_pubkey(compressed) {
        Some(pk) => spec_eth_address_of_pubkey(pk),
        None => Seq::empty(),
    }
}

/// Convert a compressed BEEFY secp256k1 public key into an Ethereum
/// address; an invalid key yields the empty address.
pub fn beefy_ecdsa_to_ethereum(compressed_key: &[u8]) -> (r: Vec<u8>)
    ensures
        r@ == spec_beefy_ecdsa_to_ethereum(compressed_key@),
        r@.len() == 20 || r@.len() == 0,
{
    match secp256k1_decompress(compressed_key) {
        Some(pk) => eth_address_of_pubkey(&pk),
        None => Vec::new(),
    }
}

} // verus!
