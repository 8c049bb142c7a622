use beefy_relay::commitment::{Commitment, PayloadItem, Signature, SignedCommitment};
use beefy_relay::errors::UpdateError;
use beefy_relay::mmr::{mmr_fetch_target, MmrProof};
use beefy_relay::pipeline::{
    build_mmr_root, decode_for_update, matching_clients, process_commitment, process_stream,
    ClientType, CommitmentInput, DestinationClient, SubmissionRound,
};

fn authorities(n: u8) -> Vec<Vec<u8>> {
    (1..=n)
        .map(|k| {
            let sk = libsecp256k1::SecretKey::parse(&[k; 32]).unwrap();
            libsecp256k1::PublicKey::from_secret_key(&sk).serialize_compressed().to_vec()
        })
        .collect()
}

fn sample_raw(block_number: u32, signature_indices: &[u32]) -> Vec<u8> {
    SignedCommitment {
        commitment: Some(Commitment {
            payloads: vec![PayloadItem { id: vec![0x6d, 0x68], data: vec![0x42; 32] }],
            block_number,
            validator_set_id: 0,
        }),
        signatures: signature_indices
            .iter()
            .map(|&i| Signature { index: i, signature: vec![0x11; 65] })
            .collect(),
    }
    .encode()
}

#[test]
fn boundary_rejects_blocks_above_latest() {
    assert_eq!(mmr_fetch_target(100, 99), Err(UpdateError::BlockTooNew));
    assert_eq!(mmr_fetch_target(100, 100), Ok(99));
    assert_eq!(mmr_fetch_target(100, 101), Ok(99));
    assert_eq!(mmr_fetch_target(1, 1), Ok(0));
}

#[test]
fn decode_failure_aborts_only_this_commitment() {
    let bad = vec![9u8, 9, 9];
    assert_eq!(decode_for_update(&bad), Err(UpdateError::CommitmentDecode));
    let empty = SignedCommitment { commitment: None, signatures: vec![] }.encode();
    assert_eq!(decode_for_update(&empty), Err(UpdateError::EmptyCommitment));
}

#[test]
fn end_to_end_commitment_yields_full_update() {
    // A commitment at block 100, a 5-member validator set, signatures
    // present at indices 0, 2 and 4.
    let raw = sample_raw(100, &[0, 2, 4]);
    let auths = authorities(5);
    let mmr = MmrProof { mmr_leaf: vec![1, 2, 3], mmr_leaf_proof: vec![4, 5, 6] };
    let root = process_commitment(&raw, &auths, 100, &mmr).expect("pipeline");
    assert_eq!(root.validator_merkle_proofs.len(), 5);
    assert_eq!(root.signed_commitment.signatures.len(), 3);
    assert_eq!(root.mmr_leaf, vec![1, 2, 3]);
    assert_eq!(root.mmr_leaf_proof, vec![4, 5, 6]);

    // One submission attempt per matching destination client.
    let clients = vec![
        DestinationClient { client_id: b"10-grandpa-0".to_vec(), client_type: ClientType::Grandpa },
        DestinationClient { client_id: b"07-tendermint-0".to_vec(), client_type: ClientType::Tendermint },
        DestinationClient { client_id: b"10-grandpa-1".to_vec(), client_type: ClientType::Grandpa },
    ];
    let mut round = SubmissionRound::begin(&clients, ClientType::Grandpa);
    let mut attempted = Vec::new();
    while round.has_next() {
        attempted.push(round.next_client_id());
        round.record_outcome(true);
    }
    assert_eq!(attempted, vec![b"10-grandpa-0".to_vec(), b"10-grandpa-1".to_vec()]);
}

#[test]
fn pipeline_rejects_block_above_latest() {
    let raw = sample_raw(100, &[0]);
    let auths = authorities(3);
    let mmr = MmrProof::default();
    assert_eq!(process_commitment(&raw, &auths, 99, &mmr), Err(UpdateError::BlockTooNew));
}

#[test]
fn three_clients_one_failure_others_still_attempted() {
    let clients: Vec<DestinationClient> = (0..3)
        .map(|i| DestinationClient {
            client_id: vec![b'c', b'0' + i],
            client_type: ClientType::Grandpa,
        })
        .collect();
    let mut round = SubmissionRound::begin(&clients, ClientType::Grandpa);
    let outcomes = [true, false, true];
    let mut k = 0;
    while round.has_next() {
        let _ = round.next_client_id();
        round.record_outcome(outcomes[k]);
        k += 1;
    }
    assert_eq!(round.attempts.len(), 3);
    for (i, attempt) in round.attempts.iter().enumerate() {
        assert_eq!(attempt.client_id, clients[i].client_id);
        assert_eq!(attempt.success, outcomes[i]);
    }
}

#[test]
fn matching_clients_skips_other_types() {
    let clients = vec![
        DestinationClient { client_id: b"a".to_vec(), client_type: ClientType::Tendermint },
        DestinationClient { client_id: b"b".to_vec(), client_type: ClientType::Grandpa },
    ];
    let picked = matching_clients(&clients, ClientType::Grandpa);
    assert_eq!(picked.len(), 1);
    assert_eq!(picked[0].client_id, b"b".to_vec());
}

#[test]
fn stream_keeps_commitment_order() {
    let auths = authorities(3);
    let inputs: Vec<CommitmentInput> = [5u32, 6, 7]
        .iter()
        .map(|&bn| CommitmentInput {
            raw: sample_raw(bn, &[0]),
            authorities: auths.clone(),
            latest_height: 10,
            mmr_proof: MmrProof::default(),
        })
        .collect();
    let roots = process_stream(&inputs);
    assert_eq!(roots.len(), 3);
    let blocks: Vec<u32> = roots
        .iter()
        .map(|r| r.signed_commitment.commitment.as_ref().unwrap().block_number)
        .collect();
    assert_eq!(blocks, vec![5, 6, 7]);
}

#[test]
fn stream_drops_failed_commitment_and_continues() {
    let auths = authorities(3);
    let mut inputs: Vec<CommitmentInput> = [5u32, 6, 7]
        .iter()
        .map(|&bn| CommitmentInput {
            raw: sample_raw(bn, &[0]),
            authorities: auths.clone(),
            latest_height: 10,
            mmr_proof: MmrProof::default(),
        })
        .collect();
    inputs[1].raw = vec![9, 9, 9];
    let roots = process_stream(&inputs);
    let blocks: Vec<u32> = roots
        .iter()
        .map(|r| r.signed_commitment.commitment.as_ref().unwrap().block_number)
        .collect();
    assert_eq!(blocks, vec![5, 7]);
}

#[test]
fn assembly_is_pure_composition() {
    let raw = sample_raw(42, &[1]);
    let (sc, bn) = decode_for_update(&raw).unwrap();
    assert_eq!(bn, 42);
    let mmr = MmrProof { mmr_leaf: vec![7], mmr_leaf_proof: vec![8] };
    let root = build_mmr_root(sc.clone(), Vec::new(), mmr);
    assert_eq!(root.signed_commitment, sc);
    assert_eq!(root.validator_merkle_proofs.len(), 0);
    assert_eq!(root.mmr_leaf, vec![7]);
    assert_eq!(root.mmr_leaf_proof, vec![8]);
}
