use vstd::prelude::*;
use vstd::slice::slice_subrange;

use crate::crypto::{
    eth_address_of_pubkey, secp256k1_recover, secp_recovered_pubkey, secp_sig_parse_ok,
    spec_eth_address_of_pubkey,
};
use crate::errors::SignatureError;
use crate::commitment::{Signature, SignatureV};
use crate::merkle::{
    bytes_eq, proof_record_verifies, spec_proof_record_verifies, ValidatorMerkleProof,
    ValidatorMerkleProofV,
};

verus! {

broadcast use crate::crypto::lemma_vec_u8_deep_view;

// ---------------------------------------------------------------------------
// The signature verifier: each present signature over the commitment hash
// must recover to an address that a supplied Merkle proof places in the
// validator set.
// ---------------------------------------------------------------------------

/// The signer address that a commitment hash and one 65-byte signature
/// recover to; `None` when the bytes cannot be parsed or recovery fails.
pub open spec fn spec_recovered_address(hash: Seq<u8>, sig: Seq<u8>) -> Option<Seq<u8>> {
    if sig.len() == 65 && secp_sig_parse_ok(sig.take(64)) && sig[64] < 4 {
        match secp_recovered_pubkey(hash, sig.take(64), sig[64]) {
            Some(pk) => Some(spec_eth_address_of_pubkey(pk)),
            None => None,
        }
    } else {
        None
    }
}

/// Recovery determinism: identical commitment hash and signature bytes
/// always recover the identical signer address. The executable checks
/// promise results equal to spec functions of the bytes alone, so two runs
/// on equal inputs cannot diverge.
pub proof fn lemma_recovery_deterministic(h1: Seq<u8>, s1: Seq<u8>, h2: Seq<u8>, s2: Seq<u8>)
    requires
        h1 == h2,
        s1 == s2,
    ensures
        spec_recovered_address(h1, s1) == spec_recovered_address(h2, s2),
{
}

/// The first supplied proof whose leaf is the given address.
pub open spec fn spec_find_proof(proofs: Seq<ValidatorMerkleProofV>, addr: Seq<u8>) -> Option<int>
    decreases proofs.len(),
{
    if proofs.len() == 0 {
        None
    } else if proofs[0].leaf == addr {
        Some(0)
    } else {
        match spec_find_proof(proofs.skip(1), addr) {
            None => None,
            Some(j) => Some(j + 1),
        }
    }
}

proof fn lemma_find_proof_char(proofs: Seq<ValidatorMerkleProofV>, addr: Seq<u8>)
    ensures
        match spec_find_proof(proofs, addr) {
            Some(j) => {
                &&& 0 <= j < proofs.len()
                &&& proofs[j].leaf == addr
                &&& forall|k: int| 0 <= k < j ==> (#[trigger] proofs[k]).leaf != addr
            },
            None => forall|k: int| 0 <= k < proofs.len() ==> (#[trigger] proofs[k]).leaf != addr,
        },
    decreases proofs.len(),
{
    if proofs.len() > 0 && proofs[0].leaf != addr {
        lemma_find_proof_char(proofs.skip(1), addr);
        assert forall|k: int| 1 <= k < proofs.len() implies (#[trigger] proofs[k]).leaf
            == proofs.skip(1)[k - 1].leaf by {}
    }
}

fn find_matching_proof(proofs: &Vec<ValidatorMerkleProof>, addr: &Vec<u8>) -> (r: Option<usize>)
    ensures
        match r {
            Some(j) => spec_find_proof(proofs.deep_view(), addr@) == Some(j as int),
            None => spec_find_proof(proofs.deep_view(), addr@) is None,
        },
{
    let ghost pv = proofs.deep_view();
    for i in 0..proofs.len()
        invariant
            pv == proofs.deep_view(),
            pv.len() == proofs@.len(),
            forall|k: int| 0 <= k < i ==> (#[trigger] pv[k]).leaf != addr@,
    {
        proof {
            assert(pv[i as int].leaf == proofs@[i as int].leaf@);
        }
        if bytes_eq(&proofs[i].leaf, addr) {
            proof {
                lemma_find_proof_char(pv, addr@);
            }
            return Some(i);
        }
    }
    proof {
        lemma_find_proof_char(pv, addr@);
    }
    None
}

/// What checking one present signature yields, in the order the checks run:
/// parse the 64 signature bytes, read the recovery byte, recover the signer,
/// find the proof carrying its address, verify that proof against the root.
pub open spec fn spec_check_signature(
    hash: Seq<u8>,
    sig: Seq<u8>,
    root: Seq<u8>,
    proofs: Seq<ValidatorMerkleProofV>,
) -> Result<(), SignatureError> {
    if sig.len() != 65 || !secp_sig_parse_ok(sig.take(64)) {
        Err(SignatureError::InvalidSignature)
    } else if sig[64] >= 4 {
        Err(SignatureError::InvalidRecoveryId)
    } else {
        match secp_recovered_pubkey(hash, sig.take(64), sig[64]) {
            None => Err(SignatureError::WrongSignature),
            Some(pk) => {
                let addr = spec_eth_address_of_pubkey(pk);
                match spec_find_proof(proofs, addr) {
                    None => Err(SignatureError::ValidatorNotFound),
                    Some(j) => if spec_proof_record_verifies(proofs[j], root) {
                        Ok(())
                    } else {
                        Err(SignatureError::InvalidValidatorProof)
                    },
                }
            },
        }
    }
}

/// Check one present signature against the validator set.
pub fn verify_one_signature(
    commitment_hash: &Vec<u8>,
    sig: &Vec<u8>,
    validator_set_root: &Vec<u8>,
    validator_proofs: &Vec<ValidatorMerkleProof>,
) -> (r: Result<(), SignatureError>)
    requires
        commitment_hash@.len() == 32,
    ensures
        r == spec_check_signature(
            commitment_hash@,
            sig@,
            validator_set_root@,
            validator_proofs.deep_view(),
        ),
{
    if sig.len() != 65 {
        return Err(SignatureError::InvalidSignature);
    }
    let body = slice_subrange(sig.as_slice(), 0, 64);
    proof {
        assert(body@ =~= sig@.take(64));
    }
    let recovery_id = sig[64];
    let pk = match secp256k1_recover(commitment_hash.as_slice(), body, recovery_id) {
        Ok(pk) => pk,
        Err(e) => {
            return Err(e);
        },
    };
    let addr = eth_address_of_pubkey(&pk);
    match find_matching_proof(validator_proofs, &addr) {
        None => Err(SignatureError::ValidatorNotFound),
        Some(j) => {
            proof {
                lemma_find_proof_char(validator_proofs.deep_view(), addr@);
            }
            if proof_record_verifies(&validator_proofs[j], validator_set_root) {
                Ok(())
            } else {
                Err(SignatureError::InvalidValidatorProof)
            }
        },
    }
}

/// The sparse, positionally aligned layout of a commitment's signatures:
/// slot `i` holds the bytes of the signature whose leaf index is `i`, and
/// an index at or beyond the validator count makes the whole list invalid.
/// When one index appears twice, the later record stands.
pub open spec fn spec_sparse_signatures(sigs: Seq<SignatureV>, validator_count: int) -> Option<
    Seq<Option<Seq<u8>>>,
>
    decreases sigs.len(),
{
    if sigs.len() == 0 {
        Some(Seq::new(validator_count as nat, |i: int| None))
    } else {
        match spec_sparse_signatures(sigs.drop_last(), validator_count) {
            None => None,
            Some(slots) => {
                let s = sigs.last();
                if s.index >= validator_count {
                    None
                } else {
                    Some(slots.update(s.index as int, Some(s.signature)))
                }
            },
        }
    }
}

proof fn lemma_sparse_none_extends(sigs: Seq<SignatureV>, n: int, k: int)
    requires
        0 <= k <= sigs.len(),
        spec_sparse_signatures(sigs.take(k), n) is None,
    ensures
        spec_sparse_signatures(sigs, n) is None,
    decreases sigs.len() - k,
{
    if k == sigs.len() {
        assert(sigs.take(k) =~= sigs);
    } else {
        assert(sigs.take(k + 1).drop_last() =~= sigs.take(k));
        lemma_sparse_none_extends(sigs, n, k + 1);
    }
}

/// Lay a commitment's signatures out positionally over the validator set:
/// slot `i` of the result holds the signature claiming leaf index `i`,
/// absent slots stay empty, and any out-of-range index makes the
/// commitment invalid.
pub fn sparse_signatures(signatures: &Vec<Signature>, validator_count: usize) -> (r: Result<
    Vec<Option<Vec<u8>>>,
    SignatureError,
>)
    ensures
        match r {
            Ok(slots) => {
                &&& spec_sparse_signatures(signatures.deep_view(), validator_count as int) == Some(
                    slots.deep_view(),
                )
                &&& slots.deep_view().len() == validator_count
            },
            Err(e) => {
                &&& spec_sparse_signatures(signatures.deep_view(), validator_count as int) is None
                &&& e == SignatureError::InvalidSignature
            },
        },
{
    let ghost sigsv = signatures.deep_view();
    let mut slots: Vec<Option<Vec<u8>>> = Vec::new();
    for _i in 0..validator_count
        invariant
            slots.deep_view().len() == _i,
            forall|j: int| 0 <= j < _i ==> slots.deep_view()[j] is None,
    {
        let ghost prev = slots.deep_view();
        slots.push(None);
        proof {
            assert(slots.deep_view() =~= prev.push(None));
        }
    }
    proof {
        assert(slots.deep_view() =~= Seq::new(validator_count as nat, |i: int| None::<Seq<u8>>));
    }
    for k in 0..signatures.len()
        invariant
            sigsv == signatures.deep_view(),
            sigsv.len() == signatures@.len(),
            slots@.len() == validator_count,
            spec_sparse_signatures(sigsv.take(k as int), validator_count as int) == Some(
                slots.deep_view(),
            ),
    {
        proof {
            assert(sigsv.take(k + 1).drop_last() =~= sigsv.take(k as int));
            assert(sigsv.take(k + 1).last() == sigsv[k as int]);
        }
        let index = signatures[k].index;
        if index as usize >= validator_count {
            proof {
                lemma_sparse_none_extends(sigsv, validator_count as int, k + 1);
            }
            return Err(SignatureError::InvalidSignature);
        }
        let ghost prev = slots.deep_view();
        let bytes = vstd::slice::slice_to_vec(signatures[k].signature.as_slice());
        slots.set(index as usize, Some(bytes));
        proof {
            assert(slots.deep_view() =~~= prev.update(
                sigsv[k as int].index as int,
                Some(sigsv[k as int].signature),
            ));
        }
    }
    proof {
        assert(sigsv.take(signatures@.len() as int) =~= sigsv);
    }
    Ok(slots)
}

/// What checking the window `[start, start + count)` of a sparse signature
/// list yields: absent slots are skipped, the first failure is reported.
pub open spec fn spec_verify_window(
    hash: Seq<u8>,
    sigs: Seq<Option<Seq<u8>>>,
    root: Seq<u8>,
    proofs: Seq<ValidatorMerkleProofV>,
    start: int,
    count: int,
) -> Result<(), SignatureError>
    decreases count,
{
    if count <= 0 {
        Ok(())
    } else {
        let head = if 0 <= start < sigs.len() {
            match sigs[start] {
                None => Ok(()),
                Some(sig) => spec_check_signature(hash, sig, root, proofs),
            }
        } else {
            Ok(())
        };
        match head {
            Err(e) => Err(e),
            Ok(()) => spec_verify_window(hash, sigs, root, proofs, start + 1, count - 1),
        }
    }
}

proof fn lemma_window_past_end(
    hash: Seq<u8>,
    sigs: Seq<Option<Seq<u8>>>,
    root: Seq<u8>,
    proofs: Seq<ValidatorMerkleProofV>,
    start: int,
    count: int,
)
    requires
        start >= sigs.len(),
    ensures
        spec_verify_window(hash, sigs, root, proofs, start, count) == Ok::<(), SignatureError>(()),
    decreases count,
{
    if count > 0 {
        lemma_window_past_end(hash, sigs, root, proofs, start + 1, count - 1);
    }
}

/// Check the commitment signatures in the window
/// `[start_position, start_position + iterations)` of the sparse,
/// positionally aligned signature list: absent slots are skipped, each
/// present signature must recover to a member of the validator set, and
/// the first failure aborts the check. No quorum threshold is enforced
/// here; that policy belongs to the caller.
pub fn verify_commitment_signatures(
    commitment_hash: &Vec<u8>,
    signatures: &Vec<Option<Vec<u8>>>,
    validator_set_root: &Vec<u8>,
    validator_proofs: &Vec<ValidatorMerkleProof>,
    start_position: usize,
    iterations: usize,
) -> (r: Result<(), SignatureError>)
    requires
        commitment_hash@.len() == 32,
        start_position + iterations <= usize::MAX,
    ensures
        r == spec_verify_window(
            commitment_hash@,
            signatures.deep_view(),
            validator_set_root@,
            validator_proofs.deep_view(),
            start_position as int,
            iterations as int,
        ),
{
    let ghost sigsv = signatures.deep_view();
    let ghost rootv = validator_set_root@;
    let ghost proofsv = validator_proofs.deep_view();
    let ghost hashv = commitment_hash@;
    let mut k: usize = 0;
    while k < iterations
        invariant
            commitment_hash@ == hashv,
            hashv.len() == 32,
            sigsv == signatures.deep_view(),
            rootv == validator_set_root@,
            proofsv == validator_proofs.deep_view(),
            sigsv.len() == signatures@.len(),
            k <= iterations,
            start_position + iterations <= usize::MAX,
            spec_verify_window(
                hashv,
                sigsv,
                rootv,
                proofsv,
                start_position as int,
                iterations as int,
            ) == spec_verify_window(
                hashv,
                sigsv,
                rootv,
                proofsv,
                start_position + k,
                iterations - k,
            ),
        decreases iterations - k,
    {
        let pos = start_position + k;
        if pos >= signatures.len() {
            proof {
                lemma_window_past_end(
                    hashv,
                    sigsv,
                    rootv,
                    proofsv,
                    pos as int,
                    iterations - k,
                );
            }
            return Ok(());
        }
        let step = match &signatures[pos] {
            None => Ok(()),
            Some(sig) => verify_one_signature(
                commitment_hash,
                sig,
                validator_set_root,
                validator_proofs,
            ),
        };
        if let Err(e) = step {
            return Err(e);
        }
        k = k + 1;
    }
    Ok(())
}

} // verus!
