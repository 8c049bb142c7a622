use vstd::prelude::*;
use vstd::slice::{slice_subrange, slice_to_vec};

use crate::crypto::{keccak256_of, keccak_256};

verus! {

broadcast use crate::crypto::lemma_vec_u8_deep_view;

// ---------------------------------------------------------------------------
// The validator Merkle tree, over the Keccak-256 digest: leaves are hashed,
// sibling hashes are pairwise combined bottom-up, an unmatched last node of
// an odd row is carried up unchanged, and the single surviving hash is the
// root. A proof is the sibling hash at each level from leaf to root,
// skipping levels where the node was carried.
// ---------------------------------------------------------------------------

/// The hash of an interior node: the digest of the left child's bytes
/// followed by the right child's.
pub open spec fn spec_hash_pair(a: Seq<u8>, b: Seq<u8>) -> Seq<u8> {
    keccak256_of(a + b)
}

pub fn hash_pair(a: &Vec<u8>, b: &Vec<u8>) -> (r: Vec<u8>)
    ensures
        r@ == spec_hash_pair(a@, b@),
        r@.len() == 32,
{
    let mut combined = slice_to_vec(a.as_slice());
    let mut right = slice_to_vec(b.as_slice());
    combined.append(&mut right);
    keccak_256(combined.as_slice())
}

/// The digests of the leaves, the bottom row of the tree.
pub open spec fn spec_leaf_hashes(leaves: Seq<Seq<u8>>) -> Seq<Seq<u8>> {
    Seq::new(leaves.len(), |i: int| keccak256_of(leaves[i]))
}

/// One row up the tree.
pub open spec fn spec_next_row(row: Seq<Seq<u8>>) -> Seq<Seq<u8>>
    decreases row.len(),
{
    if row.len() >= 2 {
        seq![spec_hash_pair(row[0], row[1])] + spec_next_row(row.skip(2))
    } else {
        row
    }
}

proof fn lemma_next_row_len(row: Seq<Seq<u8>>)
    ensures
        spec_next_row(row).len() == (row.len() + 1) / 2,
    decreases row.len(),
{
    if row.len() >= 2 {
        lemma_next_row_len(row.skip(2));
    }
}

proof fn lemma_next_row_index(row: Seq<Seq<u8>>, i: int)
    requires
        0 <= i < (row.len() + 1) / 2,
    ensures
        spec_next_row(row).len() == (row.len() + 1) / 2,
        spec_next_row(row)[i] == if 2 * i + 1 < row.len() {
            spec_hash_pair(row[2 * i], row[2 * i + 1])
        } else {
            row[2 * i]
        },
    decreases row.len(),
{
    lemma_next_row_len(row);
    if row.len() >= 2 && i > 0 {
        lemma_next_row_index(row.skip(2), i - 1);
        assert(row.skip(2)[2 * (i - 1)] == row[2 * i]);
        if 2 * i + 1 < row.len() {
            assert(row.skip(2)[2 * (i - 1) + 1] == row[2 * i + 1]);
        }
    }
}

#[via_fn]
proof fn root_from_row_decreases(row: Seq<Seq<u8>>) {
    lemma_next_row_len(row);
}

/// The root of the tree above a row of hashes.
pub open spec fn spec_root_from_row(row: Seq<Seq<u8>>) -> Seq<u8>
    recommends
        row.len() >= 1,
    decreases row.len(),
    via root_from_row_decreases
{
    if row.len() <= 1 {
        if row.len() == 1 {
            row[0]
        } else {
            Seq::empty()
        }
    } else {
        spec_root_from_row(spec_next_row(row))
    }
}

#[via_fn]
proof fn merkle_proof_from_row_decreases(row: Seq<Seq<u8>>, index: int) {
    lemma_next_row_len(row);
}

/// The inclusion proof of the node at `index` in a row of hashes: its
/// sibling at each level up to the root.
pub open spec fn spec_merkle_proof_from_row(row: Seq<Seq<u8>>, index: int) -> Seq<Seq<u8>>
    recommends
        0 <= index < row.len(),
    decreases row.len(),
    via merkle_proof_from_row_decreases
{
    if row.len() <= 1 {
        Seq::empty()
    } else {
        let sibling = if index % 2 == 0 {
            index + 1
        } else {
            index - 1
        };
        let rest = spec_merkle_proof_from_row(spec_next_row(row), index / 2);
        if sibling < row.len() {
            seq![row[sibling]] + rest
        } else {
            rest
        }
    }
}

/// The root of the validator Merkle tree over a leaf list.
pub open spec fn spec_merkle_root(leaves: Seq<Seq<u8>>) -> Seq<u8> {
    spec_root_from_row(spec_leaf_hashes(leaves))
}

/// The inclusion proof of leaf `index` in the tree over a leaf list.
pub open spec fn spec_merkle_proof(leaves: Seq<Seq<u8>>, index: int) -> Seq<Seq<u8>> {
    spec_merkle_proof_from_row(spec_leaf_hashes(leaves), index)
}

/// What the verifier computes: fold the proof onto the leaf hash, walking
/// the node's position up the tree; `None` when the proof has too few or
/// too many elements for the walk.
pub open spec fn spec_reconstruct(
    h: Seq<u8>,
    proof: Seq<Seq<u8>>,
    position: int,
    width: int,
) -> Option<Seq<u8>>
    decreases width,
{
    if width <= 1 {
        if proof.len() == 0 {
            Some(h)
        } else {
            None
        }
    } else if position % 2 == 1 || position + 1 < width {
        if proof.len() == 0 {
            None
        } else {
            let combined = if position % 2 == 1 {
                spec_hash_pair(proof[0], h)
            } else {
                spec_hash_pair(h, proof[0])
            };
            spec_reconstruct(combined, proof.skip(1), position / 2, (width + 1) / 2)
        }
    } else {
        spec_reconstruct(h, proof, position / 2, (width + 1) / 2)
    }
}

/// Whether `proof` shows that `leaf` stands at `leaf_index` in the tree of
/// `number_of_leaves` leaves whose root is `root`.
pub open spec fn spec_verify_proof(
    root: Seq<u8>,
    proof: Seq<Seq<u8>>,
    number_of_leaves: int,
    leaf_index: int,
    leaf: Seq<u8>,
) -> bool {
    &&& 0 <= leaf_index < number_of_leaves
    &&& spec_reconstruct(keccak256_of(leaf), proof, leaf_index, number_of_leaves) == Some(root)
}

// ---------------------------------------------------------------------------
// Soundness of the pair: a proof built over a row reconstructs that row's
// root.
// ---------------------------------------------------------------------------

proof fn lemma_reconstruct_row(row: Seq<Seq<u8>>, index: int)
    requires
        0 <= index < row.len(),
    ensures
        spec_reconstruct(
            row[index],
            spec_merkle_proof_from_row(row, index),
            index,
            row.len() as int,
        ) == Some(spec_root_from_row(row)),
    decreases row.len(),
{
    lemma_next_row_len(row);
    if row.len() <= 1 {
        // One node: it is the root, the proof is empty, the walk stops at once.
    } else {
        let next = spec_next_row(row);
        lemma_reconstruct_row(next, index / 2);
        lemma_next_row_index(row, index / 2);
        let rest = spec_merkle_proof_from_row(next, index / 2);
        if index % 2 == 1 {
            assert(2 * (index / 2) == index - 1 && 2 * (index / 2) + 1 == index);
            assert(next[index / 2] == spec_hash_pair(row[index - 1], row[index]));
            let pf = seq![row[index - 1]] + rest;
            assert(pf[0] == row[index - 1]);
            assert(pf.skip(1) =~= rest);
        } else if index + 1 < row.len() {
            assert(2 * (index / 2) == index && 2 * (index / 2) + 1 == index + 1);
            assert(next[index / 2] == spec_hash_pair(row[index], row[index + 1]));
            let pf = seq![row[index + 1]] + rest;
            assert(pf[0] == row[index + 1]);
            assert(pf.skip(1) =~= rest);
        } else {
            // The node is the unmatched last one of an odd row: carried up,
            // no proof element at this level.
            assert(2 * (index / 2) == index);
            assert(next[index / 2] == row[index]);
        }
    }
}

/// Merkle soundness: for every leaf list and every index within it, the
/// proof built for that index verifies against the root built from the
/// same list, with the leaf standing at that index.
pub proof fn lemma_merkle_soundness(leaves: Seq<Seq<u8>>, i: int)
    requires
        0 <= i < leaves.len(),
    ensures
        spec_verify_proof(
            spec_merkle_root(leaves),
            spec_merkle_proof(leaves, i),
            leaves.len() as int,
            i,
            leaves[i],
        ),
{
    let row = spec_leaf_hashes(leaves);
    lemma_reconstruct_row(row, i);
    assert(row[i] == keccak256_of(leaves[i]));
}

// ---------------------------------------------------------------------------
// Executable tree construction, proof construction and verification.
// ---------------------------------------------------------------------------

/// Byte-string equality with an exact contract; verified code cannot claim
/// anything of the derived `PartialEq`.
pub fn bytes_eq(a: &Vec<u8>, b: &Vec<u8>) -> (r: bool)
    ensures
        r == (a@ == b@),
{
    if a.len() != b.len() {
        return false;
    }
    for i in 0..a.len()
        invariant
            a@.len() == b@.len(),
            forall|j: int| 0 <= j < i ==> a@[j] == b@[j],
    {
        if a[i] != b[i] {
            return false;
        }
    }
    proof {
        assert(a@ =~= b@);
    }
    true
}

fn leaf_hash_row(leaves: &Vec<Vec<u8>>) -> (row: Vec<Vec<u8>>)
    ensures
        row.deep_view() == spec_leaf_hashes(leaves.deep_view()),
{
    let mut row: Vec<Vec<u8>> = Vec::new();
    for i in 0..leaves.len()
        invariant
            row.deep_view().len() == i,
            forall|j: int|
                0 <= j < i ==> row.deep_view()[j] == keccak256_of(leaves.deep_view()[j]),
    {
        let h = keccak_256(leaves[i].as_slice());
        let ghost prev = row.deep_view();
        row.push(h);
        proof {
            assert(row.deep_view() =~~= prev.push(h@));
        }
    }
    proof {
        assert(row.deep_view() =~= spec_leaf_hashes(leaves.deep_view()));
    }
    row
}

fn next_row_exec(row: &Vec<Vec<u8>>) -> (next: Vec<Vec<u8>>)
    ensures
        next.deep_view() == spec_next_row(row.deep_view()),
{
    let ghost rowv = row.deep_view();
    let mut next: Vec<Vec<u8>> = Vec::new();
    let mut i: usize = 0;
    while i + 1 < row.len()
        invariant
            i % 2 == 0,
            i <= row@.len(),
            rowv == row.deep_view(),
            next.deep_view().len() == i / 2,
            forall|j: int|
                0 <= j < i / 2 ==> next.deep_view()[j] == (if 2 * j + 1 < rowv.len() {
                    spec_hash_pair(rowv[2 * j], rowv[2 * j + 1])
                } else {
                    rowv[2 * j]
                }),
        decreases row@.len() - i,
    {
        let h = hash_pair(&row[i], &row[i + 1]);
        let ghost prev = next.deep_view();
        next.push(h);
        proof {
            assert(next.deep_view() =~~= prev.push(h@));
        }
        i = i + 2;
    }
    if i < row.len() {
        let ghost prev = next.deep_view();
        let carried = slice_to_vec(row[i].as_slice());
        next.push(carried);
        proof {
            assert(next.deep_view() =~~= prev.push(rowv[i as int]));
        }
    }
    proof {
        lemma_next_row_len(rowv);
        assert(next.deep_view().len() == spec_next_row(rowv).len());
        assert forall|j: int| 0 <= j < next.deep_view().len() implies next.deep_view()[j]
            == spec_next_row(rowv)[j] by {
            lemma_next_row_index(rowv, j);
        }
        assert(next.deep_view() =~= spec_next_row(rowv));
    }
    next
}

/// The root of the validator Merkle tree over the given leaves.
pub fn merkle_root(leaves: &Vec<Vec<u8>>) -> (root: Vec<u8>)
    requires
        leaves.deep_view().len() >= 1,
    ensures
        root@ == spec_merkle_root(leaves.deep_view()),
{
    let mut row = leaf_hash_row(leaves);
    while row.len() >= 2
        invariant
            row.deep_view().len() >= 1,
            spec_root_from_row(row.deep_view()) == spec_merkle_root(leaves.deep_view()),
        decreases row@.len(),
    {
        proof {
            lemma_next_row_len(row.deep_view());
        }
        row = next_row_exec(&row);
    }
    slice_to_vec(row[0].as_slice())
}

/// The inclusion proof of leaf `leaf_index` in the tree over the leaves.
pub fn merkle_proof(leaves: &Vec<Vec<u8>>, leaf_index: usize) -> (proof: Vec<Vec<u8>>)
    requires
        leaf_index < leaves.deep_view().len(),
    ensures
        proof.deep_view() == spec_merkle_proof(leaves.deep_view(), leaf_index as int),
{
    let mut row = leaf_hash_row(leaves);
    let mut pos = leaf_index;
    let mut acc: Vec<Vec<u8>> = Vec::new();
    while row.len() >= 2
        invariant
            pos < row.deep_view().len(),
            acc.deep_view() + spec_merkle_proof_from_row(row.deep_view(), pos as int)
                == spec_merkle_proof(leaves.deep_view(), leaf_index as int),
        decreases row@.len(),
    {
        let ghost rowv = row.deep_view();
        let ghost rest = spec_merkle_proof_from_row(spec_next_row(rowv), pos as int / 2);
        proof {
            lemma_next_row_len(rowv);
        }
        let sibling = if pos % 2 == 0 {
            pos + 1
        } else {
            pos - 1
        };
        if sibling < row.len() {
            let ghost prev = acc.deep_view();
            acc.push(slice_to_vec(row[sibling].as_slice()));
            proof {
                assert(acc.deep_view() =~~= prev.push(rowv[sibling as int]));
                assert(prev.push(rowv[sibling as int]) + rest =~= prev + (seq![
                    rowv[sibling as int],
                ] + rest));
            }
        }
        row = next_row_exec(&row);
        pos = pos / 2;
    }
    proof {
        assert(acc.deep_view() + Seq::<Seq<u8>>::empty() =~= acc.deep_view());
    }
    acc
}

/// Check an inclusion proof against a root, walking the leaf position up
/// the tree; bit-for-bit the same combination rule as the builder's.
pub fn verify_proof(
    root: &Vec<u8>,
    proof: &Vec<Vec<u8>>,
    number_of_leaves: usize,
    leaf_index: usize,
    leaf: &Vec<u8>,
) -> (ok: bool)
    ensures
        ok == spec_verify_proof(
            root@,
            proof.deep_view(),
            number_of_leaves as int,
            leaf_index as int,
            leaf@,
        ),
{
    if leaf_index >= number_of_leaves {
        return false;
    }
    let ghost proofv = proof.deep_view();
    let mut h = keccak_256(leaf.as_slice());
    let mut pos = leaf_index;
    let mut width = number_of_leaves;
    let mut k: usize = 0;
    proof {
        assert(proofv.skip(0) =~= proofv);
    }
    while width >= 2
        invariant
            k <= proof@.len(),
            proofv == proof.deep_view(),
            width >= 1,
            pos < width,
            spec_reconstruct(h@, proofv.skip(k as int), pos as int, width as int)
                == spec_reconstruct(
                keccak256_of(leaf@),
                proofv,
                leaf_index as int,
                number_of_leaves as int,
            ),
        decreases width,
    {
        if pos % 2 == 1 || pos + 1 < width {
            if k == proof.len() {
                proof {
                    assert(proofv.skip(k as int).len() == 0);
                }
                return false;
            }
            proof {
                assert(proofv.skip(k as int)[0] == proofv[k as int]);
                assert(proofv.skip(k as int).skip(1) =~= proofv.skip(k as int + 1));
            }
            let sibling = &proof[k];
            h = if pos % 2 == 1 {
                hash_pair(sibling, &h)
            } else {
                hash_pair(&h, sibling)
            };
            k = k + 1;
        }
        pos = pos / 2;
        proof {
            assert(((width - 1) / 2 + 1) as int == (width as int + 1) / 2);
        }
        width = (width - 1) / 2 + 1;
    }
    if k != proof.len() {
        proof {
            assert(proofv.skip(k as int).len() > 0);
        }
        return false;
    }
    proof {
        assert(proofv.skip(k as int).len() == 0);
    }
    bytes_eq(&h, root)
}

// ---------------------------------------------------------------------------
// The validator set prover: one inclusion proof per validator, over the
// Ethereum addresses derived from the compressed authority keys.
// ---------------------------------------------------------------------------

/// A validator's inclusion proof: sibling hashes bottom-up, the width of
/// the tree, the validator's leaf position, and the 20-byte address leaf.
#[derive(Clone, Debug, PartialEq, Eq)]
pub struct ValidatorMerkleProof {
    /// Sibling hash at each level, from leaf to root.
    pub proof: Vec<Vec<u8>>,
    /// Number of leaves in the tree.
    pub number_of_leaves: usize,
    /// Position of this validator's leaf.
    pub leaf_index: usize,
    /// The leaf: the validator's 20-byte address.
    pub leaf: Vec<u8>,
}

/// Mathematical model of a `ValidatorMerkleProof`.
pub struct ValidatorMerkleProofV {
    pub proof: Seq<Seq<u8>>,
    pub number_of_leaves: int,
    pub leaf_index: int,
    pub leaf: Seq<u8>,
}

impl DeepView for ValidatorMerkleProof {
    type V = ValidatorMerkleProofV;

    open spec fn deep_view(&self) -> ValidatorMerkleProofV {
        ValidatorMerkleProofV {
            proof: self.proof.deep_view(),
            number_of_leaves: self.number_of_leaves as int,
            leaf_index: self.leaf_index as int,
            leaf: self.leaf@,
        }
    }
}

impl View for ValidatorMerkleProof {
    type V = ValidatorMerkleProofV;

    open spec fn view(&self) -> ValidatorMerkleProofV {
        self.deep_view()
    }
}

/// Whether one proof record verifies against a validator-set root.
pub open spec fn spec_proof_record_verifies(p: ValidatorMerkleProofV, root: Seq<u8>) -> bool {
    spec_verify_proof(root, p.proof, p.number_of_leaves, p.leaf_index, p.leaf)
}

/// Check one proof record against a validator-set root.
pub fn proof_record_verifies(p: &ValidatorMerkleProof, root: &Vec<u8>) -> (ok: bool)
    ensures
        ok == spec_proof_record_verifies(p.deep_view(), root@),
{
    verify_proof(root, &p.proof, p.number_of_leaves, p.leaf_index, &p.leaf)
}

/// The validator addresses that the compressed authority keys stand for.
pub open spec fn spec_validator_addresses(authorities: Seq<Seq<u8>>) -> Seq<Seq<u8>> {
    Seq::new(authorities.len(), |i: int| crate::crypto::spec_beefy_ecdsa_to_ethereum(authorities[i]))
}

/// Derive the validator addresses from the compressed authority keys read
/// at the commitment's block.
pub fn validator_addresses(authorities: &Vec<Vec<u8>>) -> (validators: Vec<Vec<u8>>)
    ensures
        validators.deep_view() == spec_validator_addresses(authorities.deep_view()),
{
    let mut validators: Vec<Vec<u8>> = Vec::new();
    for i in 0..authorities.len()
        invariant
            validators.deep_view().len() == i,
            forall|j: int|
                0 <= j < i ==> validators.deep_view()[j] == crate::crypto::spec_beefy_ecdsa_to_ethereum(
                    authorities.deep_view()[j],
                ),
    {
        let addr = crate::crypto::beefy_ecdsa_to_ethereum(authorities[i].as_slice());
        let ghost prev = validators.deep_view();
        validators.push(addr);
        proof {
            assert(validators.deep_view() =~~= prev.push(
                crate::crypto::spec_beefy_ecdsa_to_ethereum(authorities.deep_view()[i as int]),
            ));
        }
    }
    proof {
        assert(validators.deep_view() =~= spec_validator_addresses(authorities.deep_view()));
    }
    validators
}

/// Build the inclusion proof of every validator, over the Merkle tree of
/// the addresses derived from the compressed authority keys. The proof at
/// position `i` carries leaf index `i`: signatures align positionally with
/// these records.
pub fn build_validator_proof(authorities: &Vec<Vec<u8>>) -> (proofs: Vec<ValidatorMerkleProof>)
    ensures
        proofs.deep_view().len() == authorities.deep_view().len(),
        forall|i: int|
            0 <= i < proofs.deep_view().len() ==> {
                let vs = spec_validator_addresses(authorities.deep_view());
                &&& (#[trigger] proofs.deep_view()[i]).proof == spec_merkle_proof(vs, i)
                &&& proofs.deep_view()[i].number_of_leaves == authorities.deep_view().len()
                &&& proofs.deep_view()[i].leaf_index == i
                &&& proofs.deep_view()[i].leaf == vs[i]
            },
{
    let validators = validator_addresses(authorities);
    let n = validators.len();
    let mut proofs: Vec<ValidatorMerkleProof> = Vec::new();
    let ghost vs = spec_validator_addresses(authorities.deep_view());
    for l in 0..n
        invariant
            n == validators@.len(),
            validators.deep_view() == vs,
            vs.len() == authorities.deep_view().len(),
            proofs.deep_view().len() == l,
            forall|i: int|
                0 <= i < l ==> {
                    &&& (#[trigger] proofs.deep_view()[i]).proof == spec_merkle_proof(vs, i)
                    &&& proofs.deep_view()[i].number_of_leaves == vs.len()
                    &&& proofs.deep_view()[i].leaf_index == i
                    &&& proofs.deep_view()[i].leaf == vs[i]
                },
    {
        let record = ValidatorMerkleProof {
            proof: merkle_proof(&validators, l),
            number_of_leaves: n,
            leaf_index: l,
            leaf: slice_to_vec(validators[l].as_slice()),
        };
        let ghost recordv = record.deep_view();
        let ghost prev = proofs.deep_view();
        proofs.push(record);
        proof {
            assert(proofs.deep_view() =~= prev.push(recordv));
        }
    }
    proofs
}

} // verus!
