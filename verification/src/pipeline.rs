use vstd::prelude::*;
use vstd::slice::slice_to_vec;

use crate::commitment::{
    spec_decode_signed_commitment, valid_signed_commitment, SignedCommitment, SignedCommitmentV,
};
use crate::errors::UpdateError;
use crate::merkle::{
    build_validator_proof, spec_merkle_proof, spec_validator_addresses, ValidatorMerkleProof,
    ValidatorMerkleProofV,
};
use crate::mmr::{spec_mmr_fetch_target, MmrProof, MmrProofV};

verus! {

broadcast use crate::crypto::lemma_vec_u8_deep_view;

// ---------------------------------------------------------------------------
// The update pipeline: decode, validator proofs, MMR boundary, assembly,
// submission. Per commitment the state runs received, decoded, validator
// proofs built, MMR proof built, assembled, then submitted per destination.
// ---------------------------------------------------------------------------

/// The light-client types a destination chain may host.
#[derive(Clone, Copy, Debug, PartialEq, Eq, Structural)]
pub enum ClientType {
    Grandpa,
    Tendermint,
}

/// One destination client: its identifier and the light-client type it
/// hosts.
#[derive(Clone, Debug, PartialEq, Eq)]
pub struct DestinationClient {
    pub client_id: Vec<u8>,
    pub client_type: ClientType,
}

/// Mathematical model of a `DestinationClient`.
pub struct DestinationClientV {
    pub client_id: Seq<u8>,
    pub client_type: ClientType,
}

impl DeepView for DestinationClient {
    type V = DestinationClientV;

    open spec fn deep_view(&self) -> DestinationClientV {
        DestinationClientV { client_id: self.client_id@, client_type: self.client_type }
    }
}

impl View for DestinationClient {
    type V = DestinationClientV;

    open spec fn view(&self) -> DestinationClientV {
        self.deep_view()
    }
}

/// The clients an update is owed to: those hosting the expected type, in
/// their original order, each exactly once.
pub open spec fn spec_matching_clients(
    clients: Seq<DestinationClientV>,
    expected: ClientType,
) -> Seq<DestinationClientV>
    decreases clients.len(),
{
    if clients.len() == 0 {
        Seq::empty()
    } else {
        let init = spec_matching_clients(clients.drop_last(), expected);
        if clients.last().client_type == expected {
            init.push(clients.last())
        } else {
            init
        }
    }
}

/// Select the destination clients hosting the expected light-client type;
/// the others are skipped.
pub fn matching_clients(clients: &Vec<DestinationClient>, expected: ClientType) -> (r: Vec<
    DestinationClient,
>)
    ensures
        r.deep_view() == spec_matching_clients(clients.deep_view(), expected),
{
    let ghost cv = clients.deep_view();
    let mut r: Vec<DestinationClient> = Vec::new();
    for i in 0..clients.len()
        invariant
            cv == clients.deep_view(),
            cv.len() == clients@.len(),
            r.deep_view() == spec_matching_clients(cv.take(i as int), expected),
    {
        proof {
            assert(cv.take(i + 1).drop_last() =~= cv.take(i as int));
            assert(cv.take(i + 1).last() == cv[i as int]);
        }
        if clients[i].client_type == expected {
            let picked = DestinationClient {
                client_id: slice_to_vec(clients[i].client_id.as_slice()),
                client_type: clients[i].client_type,
            };
            let ghost prev = r.deep_view();
            r.push(picked);
            proof {
                assert(r.deep_view() =~~= prev.push(cv[i as int]));
            }
        }
    }
    proof {
        assert(cv.take(clients@.len() as int) =~= cv);
    }
    r
}

// ---------------------------------------------------------------------------
// The submission round: one independent attempt per matching client.
// ---------------------------------------------------------------------------

/// The record of one submission attempt: which client it addressed and
/// whether it succeeded.
#[derive(Clone, Debug, PartialEq, Eq)]
pub struct SubmissionAttempt {
    pub client_id: Vec<u8>,
    pub success: bool,
}

/// Mathematical model of a `SubmissionAttempt`.
pub struct SubmissionAttemptV {
    pub client_id: Seq<u8>,
    pub success: bool,
}

impl DeepView for SubmissionAttempt {
    type V = SubmissionAttemptV;

    open spec fn deep_view(&self) -> SubmissionAttemptV {
        SubmissionAttemptV { client_id: self.client_id@, success: self.success }
    }
}

impl View for SubmissionAttempt {
    type V = SubmissionAttemptV;

    open spec fn view(&self) -> SubmissionAttemptV {
        self.deep_view()
    }
}

/// One round of submissions of an assembled update: every matching client
/// is attempted once, in order, and each outcome is only recorded — a
/// failure on one client never blocks the others.
pub struct SubmissionRound {
    /// The matching clients, in submission order.
    pub pending: Vec<DestinationClient>,
    /// How many attempts have been made.
    pub next: usize,
    /// The log of the attempts made so far.
    pub attempts: Vec<SubmissionAttempt>,
}

impl SubmissionRound {
    /// The round's invariant: one logged attempt per client already
    /// addressed, in order, whatever each outcome was.
    pub open spec fn wf(self) -> bool {
        &&& self.next == self.attempts@.len()
        &&& self.next <= self.pending@.len()
        &&& forall|i: int|
            0 <= i < self.next ==> (#[trigger] self.attempts@[i]).client_id@
                == self.pending@[i].client_id@
    }

    /// Open a round over every destination client hosting the expected
    /// light-client type.
    pub fn begin(clients: &Vec<DestinationClient>, expected: ClientType) -> (r: SubmissionRound)
        ensures
            r.wf(),
            r.pending.deep_view() == spec_matching_clients(clients.deep_view(), expected),
            r.next == 0,
            r.attempts@.len() == 0,
    {
        SubmissionRound { pending: matching_clients(clients, expected), next: 0, attempts: Vec::new() }
    }

    /// Whether an attempt is still owed.
    pub fn has_next(&self) -> (b: bool)
        ensures
            b == (self.next < self.pending@.len()),
    {
        self.next < self.pending.len()
    }

    /// The id of the client the next attempt addresses.
    pub fn next_client_id(&self) -> (id: Vec<u8>)
        requires
            self.next < self.pending@.len(),
        ensures
            id@ == self.pending@[self.next as int].client_id@,
    {
        slice_to_vec(self.pending[self.next].client_id.as_slice())
    }

    /// Record the outcome of the attempt on the current client and move to
    /// the next client: the rest of the round is the same whether this
    /// attempt succeeded or failed.
    pub fn record_outcome(&mut self, success: bool)
        requires
            old(self).wf(),
            old(self).next < old(self).pending@.len(),
        ensures
            final(self).wf(),
            final(self).pending == old(self).pending,
            final(self).next == old(self).next + 1,
            final(self).attempts@.len() == old(self).attempts@.len() + 1,
            final(self).attempts@.last().client_id@ == old(self).pending@[old(
                self,
            ).next as int].client_id@,
            final(self).attempts@.last().success == success,
            forall|i: int|
                0 <= i < old(self).attempts@.len() ==> final(self).attempts@[i] == old(
                    self,
                ).attempts@[i],
    {
        let id = self.next_client_id();
        self.attempts.push(SubmissionAttempt { client_id: id, success });
        if self.next < self.pending.len() {
            self.next = self.next + 1;
        }
    }
}

/// Partial-failure isolation: at the end of a round, every matching client
/// was attempted exactly once, in order — whatever each attempt's outcome
/// was. Outcomes are only recorded; they never change which clients the
/// round addresses.
pub proof fn lemma_partial_failure_isolation(r: SubmissionRound)
    requires
        r.wf(),
        r.next == r.pending@.len(),
    ensures
        r.attempts@.len() == r.pending@.len(),
        forall|i: int|
            0 <= i < r.attempts@.len() ==> (#[trigger] r.attempts@[i]).client_id@
                == r.pending@[i].client_id@,
{
}

// ---------------------------------------------------------------------------
// Decode, assembly, and the full pass over one commitment.
// ---------------------------------------------------------------------------

/// The block number a raw justification carries, when it decodes and holds
/// a commitment.
pub open spec fn spec_decoded_block_number(raw: Seq<u8>) -> Option<u32> {
    match spec_decode_signed_commitment(raw) {
        Some(sc) => match sc.commitment {
            Some(c) => Some(c.block_number),
            None => None,
        },
        None => None,
    }
}

/// First step of an update: decode the raw justification bytes and read
/// the commitment's block number. A decode failure aborts only this
/// commitment; the stream continues.
pub fn decode_for_update(raw: &Vec<u8>) -> (r: Result<(SignedCommitment, u32), UpdateError>)
    ensures
        match r {
            Ok((sc, bn)) => {
                &&& spec_decode_signed_commitment(raw@) == Some(sc@)
                &&& valid_signed_commitment(sc@)
                &&& spec_decoded_block_number(raw@) == Some(bn)
            },
            Err(e) => {
                &&& (e == UpdateError::CommitmentDecode <==> spec_decode_signed_commitment(
                    raw@,
                ) is None)
                &&& (e == UpdateError::EmptyCommitment <==> (spec_decode_signed_commitment(raw@)
                    matches Some(sc) && sc.commitment is None))
                &&& (e == UpdateError::CommitmentDecode || e == UpdateError::EmptyCommitment)
            },
        },
{
    let sc = match SignedCommitment::decode(raw) {
        Ok(sc) => sc,
        Err(_) => {
            return Err(UpdateError::CommitmentDecode);
        },
    };
    let bn = match &sc.commitment {
        Some(c) => c.block_number,
        None => {
            return Err(UpdateError::EmptyCommitment);
        },
    };
    Ok((sc, bn))
}

/// The submission artifact: the signed commitment, every validator's
/// inclusion proof, and the MMR leaf and proof for the target block.
#[derive(Clone, Debug, PartialEq, Eq)]
pub struct MmrRoot {
    pub signed_commitment: SignedCommitment,
    pub validator_merkle_proofs: Vec<ValidatorMerkleProof>,
    pub mmr_leaf: Vec<u8>,
    pub mmr_leaf_proof: Vec<u8>,
}

/// Mathematical model of an `MmrRoot`.
pub struct MmrRootV {
    pub signed_commitment: SignedCommitmentV,
    pub validator_merkle_proofs: Seq<ValidatorMerkleProofV>,
    pub mmr_leaf: Seq<u8>,
    pub mmr_leaf_proof: Seq<u8>,
}

impl DeepView for MmrRoot {
    type V = MmrRootV;

    open spec fn deep_view(&self) -> MmrRootV {
        MmrRootV {
            signed_commitment: self.signed_commitment.deep_view(),
            validator_merkle_proofs: self.validator_merkle_proofs.deep_view(),
            mmr_leaf: self.mmr_leaf@,
            mmr_leaf_proof: self.mmr_leaf_proof@,
        }
    }
}

impl View for MmrRoot {
    type V = MmrRootV;

    open spec fn view(&self) -> MmrRootV {
        self.deep_view()
    }
}

/// Assembly is pure composition: the update payload holds exactly what the
/// earlier stages produced.
pub fn build_mmr_root(
    signed_commitment: SignedCommitment,
    validator_merkle_proofs: Vec<ValidatorMerkleProof>,
    mmr_proof: MmrProof,
) -> (r: MmrRoot)
    ensures
        r.signed_commitment == signed_commitment,
        r.validator_merkle_proofs == validator_merkle_proofs,
        r.mmr_leaf == mmr_proof.mmr_leaf,
        r.mmr_leaf_proof == mmr_proof.mmr_leaf_proof,
{
    MmrRoot {
        signed_commitment,
        validator_merkle_proofs,
        mmr_leaf: mmr_proof.mmr_leaf,
        mmr_leaf_proof: mmr_proof.mmr_leaf_proof,
    }
}

/// The validator proof records built over a list of compressed authority
/// keys: record `i` proves leaf `i` of the tree over the derived addresses.
pub open spec fn spec_validator_proof_records(authorities: Seq<Seq<u8>>) -> Seq<
    ValidatorMerkleProofV,
> {
    Seq::new(
        authorities.len(),
        |i: int|
            ValidatorMerkleProofV {
                proof: spec_merkle_proof(spec_validator_addresses(authorities), i),
                number_of_leaves: authorities.len() as int,
                leaf_index: i,
                leaf: spec_validator_addresses(authorities)[i],
            },
    )
}

/// What one full pass over a commitment yields, with every outside read
/// handed in as a value: the assembled update, or the error that aborted
/// the attempt.
pub open spec fn spec_process_commitment(
    raw: Seq<u8>,
    authorities: Seq<Seq<u8>>,
    latest_height: u64,
    mmr_leaf: Seq<u8>,
    mmr_leaf_proof: Seq<u8>,
) -> Result<MmrRootV, UpdateError> {
    match spec_decode_signed_commitment(raw) {
        None => Err(UpdateError::CommitmentDecode),
        Some(sc) => match sc.commitment {
            None => Err(UpdateError::EmptyCommitment),
            Some(c) => match spec_mmr_fetch_target(c.block_number, latest_height) {
                Err(e) => Err(e),
                Ok(_) => Ok(
                    MmrRootV {
                        signed_commitment: sc,
                        validator_merkle_proofs: spec_validator_proof_records(authorities),
                        mmr_leaf,
                        mmr_leaf_proof,
                    },
                ),
            },
        },
    }
}

/// One full pass over one commitment: decode the justification, build the
/// validator proofs from the authorities read at the commitment's block,
/// check the finality boundary, and assemble the update. An error at any
/// stage aborts the attempt with no partial result.
pub fn process_commitment(
    raw: &Vec<u8>,
    authorities: &Vec<Vec<u8>>,
    latest_height: u64,
    mmr_proof: &MmrProof,
) -> (r: Result<MmrRoot, UpdateError>)
    requires
        spec_decoded_block_number(raw@) matches Some(bn) ==> bn >= 1,
    ensures
        match r {
            Ok(root) => spec_process_commitment(
                raw@,
                authorities.deep_view(),
                latest_height,
                mmr_proof.mmr_leaf@,
                mmr_proof.mmr_leaf_proof@,
            ) == Ok::<MmrRootV, UpdateError>(root.deep_view()),
            Err(e) => spec_process_commitment(
                raw@,
                authorities.deep_view(),
                latest_height,
                mmr_proof.mmr_leaf@,
                mmr_proof.mmr_leaf_proof@,
            ) == Err::<MmrRootV, UpdateError>(e),
        },
{
    let (sc, block_number) = match decode_for_update(raw) {
        Ok(x) => x,
        Err(e) => {
            return Err(e);
        },
    };
    let validator_merkle_proofs = build_validator_proof(authorities);
    proof {
        assert(validator_merkle_proofs.deep_view() =~= spec_validator_proof_records(
            authorities.deep_view(),
        ));
    }
    if let Err(e) = crate::mmr::mmr_fetch_target(block_number, latest_height) {
        return Err(e);
    }
    let root = build_mmr_root(
        sc,
        validator_merkle_proofs,
        MmrProof {
            mmr_leaf: slice_to_vec(mmr_proof.mmr_leaf.as_slice()),
            mmr_leaf_proof: slice_to_vec(mmr_proof.mmr_leaf_proof.as_slice()),
        },
    );
    Ok(root)
}

// ---------------------------------------------------------------------------
// Service mode: the justification stream, processed strictly sequentially.
// ---------------------------------------------------------------------------

/// Everything one commitment of the stream needs, gathered by the caller
/// between stages: the raw justification, the authorities read at the
/// commitment's block, the latest finalized height, and the fetched MMR
/// blobs.
#[derive(Clone, Debug, PartialEq, Eq)]
pub struct CommitmentInput {
    pub raw: Vec<u8>,
    pub authorities: Vec<Vec<u8>>,
    pub latest_height: u64,
    pub mmr_proof: MmrProof,
}

/// Mathematical model of a `CommitmentInput`.
pub struct CommitmentInputV {
    pub raw: Seq<u8>,
    pub authorities: Seq<Seq<u8>>,
    pub latest_height: u64,
    pub mmr_proof: MmrProofV,
}

impl DeepView for CommitmentInput {
    type V = CommitmentInputV;

    open spec fn deep_view(&self) -> CommitmentInputV {
        CommitmentInputV {
            raw: self.raw@,
            authorities: self.authorities.deep_view(),
            latest_height: self.latest_height,
            mmr_proof: self.mmr_proof.deep_view(),
        }
    }
}

impl View for CommitmentInput {
    type V = CommitmentInputV;

    open spec fn view(&self) -> CommitmentInputV {
        self.deep_view()
    }
}

/// What one stream entry yields.
pub open spec fn spec_process_input(inp: CommitmentInputV) -> Result<MmrRootV, UpdateError> {
    spec_process_commitment(
        inp.raw,
        inp.authorities,
        inp.latest_height,
        inp.mmr_proof.mmr_leaf,
        inp.mmr_proof.mmr_leaf_proof,
    )
}

/// The roots a stream yields, in stream order: one per commitment that
/// processed cleanly, none for a commitment whose attempt aborted.
pub open spec fn spec_stream_roots(inputs: Seq<CommitmentInputV>) -> Seq<MmrRootV>
    decreases inputs.len(),
{
    if inputs.len() == 0 {
        Seq::empty()
    } else {
        let init = spec_stream_roots(inputs.drop_last());
        match spec_process_input(inputs.last()) {
            Ok(root) => init.push(root),
            Err(_) => init,
        }
    }
}

/// Service mode's computation: process the justification stream strictly
/// sequentially — each commitment fully decoded, proved and assembled
/// before the next is taken up — so the returned roots stand in stream
/// order, one per commitment that processed cleanly. A failed commitment
/// aborts only its own attempt; the stream continues.
pub fn process_stream(inputs: &Vec<CommitmentInput>) -> (roots: Vec<MmrRoot>)
    requires
        forall|i: int|
            0 <= i < inputs.deep_view().len() ==> (spec_decoded_block_number(
                (#[trigger] inputs.deep_view()[i]).raw,
            ) matches Some(bn) ==> bn >= 1),
    ensures
        roots.deep_view() == spec_stream_roots(inputs.deep_view()),
{
    let ghost iv = inputs.deep_view();
    let mut roots: Vec<MmrRoot> = Vec::new();
    for i in 0..inputs.len()
        invariant
            iv == inputs.deep_view(),
            iv.len() == inputs@.len(),
            forall|j: int|
                0 <= j < iv.len() ==> (spec_decoded_block_number((#[trigger] iv[j]).raw)
                    matches Some(bn) ==> bn >= 1),
            roots.deep_view() == spec_stream_roots(iv.take(i as int)),
    {
        proof {
            assert(iv.take(i + 1).drop_last() =~= iv.take(i as int));
            assert(iv.take(i + 1).last() == iv[i as int]);
        }
        let input = &inputs[i];
        let r = process_commitment(
            &input.raw,
            &input.authorities,
            input.latest_height,
            &input.mmr_proof,
        );
        match r {
            Ok(root) => {
                let ghost rootv = root.deep_view();
                let ghost prev = roots.deep_view();
                roots.push(root);
                proof {
                    assert(roots.deep_view() =~= prev.push(rootv));
                }
            },
            Err(_) => {},
        }
    }
    proof {
        assert(iv.take(inputs@.len() as int) =~= iv);
    }
    roots
}

/// The block number a stream entry's justification carries; meaningful
/// when the entry processes cleanly.
pub open spec fn spec_input_block_number(inp: CommitmentInputV) -> u32 {
    match spec_decoded_block_number(inp.raw) {
        Some(bn) => bn,
        None => 0,
    }
}

/// The block number an assembled root attests to.
pub open spec fn spec_root_block_number(r: MmrRootV) -> u32 {
    match r.signed_commitment.commitment {
        Some(c) => c.block_number,
        None => 0,
    }
}

/// Sequential causality: when every commitment of the stream processes
/// cleanly, the stream yields exactly one root per commitment, in stream
/// order, and strictly increasing stream block numbers come out strictly
/// increasing — in particular non-decreasing, never interleaved.
pub proof fn lemma_sequential_causality(inputs: Seq<CommitmentInputV>)
    requires
        forall|i: int| 0 <= i < inputs.len() ==> spec_process_input(#[trigger] inputs[i]) is Ok,
        forall|i: int, j: int|
            0 <= i < j < inputs.len() ==> spec_input_block_number(#[trigger] inputs[i])
                < spec_input_block_number(#[trigger] inputs[j]),
    ensures
        spec_stream_roots(inputs).len() == inputs.len(),
        forall|i: int|
            0 <= i < inputs.len() ==> #[trigger] spec_stream_roots(inputs)[i]
                == spec_process_input(inputs[i])->Ok_0,
        forall|i: int, j: int|
            0 <= i < j < inputs.len() ==> spec_root_block_number(
                #[trigger] spec_stream_roots(inputs)[i],
            ) < spec_root_block_number(#[trigger] spec_stream_roots(inputs)[j]),
    decreases inputs.len(),
{
    if inputs.len() > 0 {
        let init = inputs.drop_last();
        assert forall|i: int| 0 <= i < init.len() implies spec_process_input(
            #[trigger] init[i],
        ) is Ok by {
            assert(init[i] == inputs[i]);
        }
        assert forall|i: int, j: int| 0 <= i < j < init.len() implies spec_input_block_number(
            #[trigger] init[i],
        ) < spec_input_block_number(#[trigger] init[j]) by {
            assert(init[i] == inputs[i]);
            assert(init[j] == inputs[j]);
        }
        lemma_sequential_causality(init);
        let last = inputs.last();
        lemma_root_block_of_clean_input(last);
        assert forall|i: int| 0 <= i < inputs.len() implies #[trigger] spec_stream_roots(
            inputs,
        )[i] == spec_process_input(inputs[i])->Ok_0 by {
            if i < inputs.len() - 1 {
                assert(spec_stream_roots(inputs)[i] == spec_stream_roots(init)[i]);
                assert(init[i] == inputs[i]);
            }
        }
        assert forall|i: int, j: int| 0 <= i < j < inputs.len() implies spec_root_block_number(
            #[trigger] spec_stream_roots(inputs)[i],
        ) < spec_root_block_number(#[trigger] spec_stream_roots(inputs)[j]) by {
            lemma_root_block_of_clean_input(inputs[i]);
            lemma_root_block_of_clean_input(inputs[j]);
        }
    }
}

/// A cleanly processed commitment's root attests to exactly the block
/// number its justification carried.
proof fn lemma_root_block_of_clean_input(inp: CommitmentInputV)
    requires
        spec_process_input(inp) is Ok,
    ensures
        spec_root_block_number(spec_process_input(inp)->Ok_0) == spec_input_block_number(inp),
{
}

} // verus!
