use vstd::prelude::*;

use crate::errors::UpdateError;

verus! {

/// The MMR leaf and its inclusion proof for one block, as the source chain
/// hands them out: opaque encoded blobs, uninterpreted by this core.
#[derive(Clone, Debug, Default, PartialEq, Eq)]
pub struct MmrProof {
    /// The encoded MMR leaf.
    pub mmr_leaf: Vec<u8>,
    /// The encoded inclusion proof of that leaf.
    pub mmr_leaf_proof: Vec<u8>,
}

/// Mathematical model of an `MmrProof`.
pub struct MmrProofV {
    pub mmr_leaf: Seq<u8>,
    pub mmr_leaf_proof: Seq<u8>,
}

impl DeepView for MmrProof {
    type V = MmrProofV;

    open spec fn deep_view(&self) -> MmrProofV {
        MmrProofV { mmr_leaf: self.mmr_leaf@, mmr_leaf_proof: self.mmr_leaf_proof@ }
    }
}

impl View for MmrProof {
    type V = MmrProofV;

    open spec fn view(&self) -> MmrProofV {
        self.deep_view()
    }
}

/// What the boundary check decides: the MMR target index for a commitment
/// at `block_number`, or `BlockTooNew` when the block is above the latest
/// finalized height.
pub open spec fn spec_mmr_fetch_target(block_number: u32, latest_height: u64) -> Result<
    u32,
    UpdateError,
> {
    if block_number as u64 <= latest_height {
        Ok((block_number - 1) as u32)
    } else {
        Err(UpdateError::BlockTooNew)
    }
}

/// Decide the MMR fetch for a commitment at `block_number`, bounded by the
/// source chain's latest finalized height. On success the target index is
/// `block_number - 1`: the last finalized header before the commitment's
/// own block. Above the latest finalized height the decision is
/// `BlockTooNew`, and the caller makes no further chain call for this
/// commitment.
pub fn mmr_fetch_target(block_number: u32, latest_height: u64) -> (r: Result<u32, UpdateError>)
    requires
        block_number >= 1,
    ensures
        r == spec_mmr_fetch_target(block_number, latest_height),
        r is Err <==> block_number as u64 > latest_height,
        r matches Ok(idx) ==> idx == block_number - 1,
{
    if block_number as u64 <= latest_height {
        Ok(block_number - 1)
    } else {
        Err(UpdateError::BlockTooNew)
    }
}

} // verus!
