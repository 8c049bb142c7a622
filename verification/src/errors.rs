use vstd::prelude::*;

verus! {

/// Failure to decode a wire-level value. Local to the one commitment or
/// event being decoded; never fatal to the stream that carried it.
#[derive(Clone, Copy, Debug, PartialEq, Eq, Structural)]
pub enum DecodeError {
    /// The bytes do not spell a complete value of the expected schema.
    Malformed,
    /// A complete value was read but bytes were left over.
    Trailing,
}

/// Failure while checking one commitment signature against the validator
/// set. Aborts only the current update attempt.
#[derive(Clone, Copy, Debug, PartialEq, Eq, Structural)]
pub enum SignatureError {
    /// The 65-byte signature's (r, s) part is not a standard signature.
    InvalidSignature,
    /// The recovery byte is not in 0..4.
    InvalidRecoveryId,
    /// Public-key recovery failed for this (hash, signature) pair.
    WrongSignature,
    /// No supplied proof carries the recovered signer address as its leaf.
    ValidatorNotFound,
    /// The matching proof does not verify against the validator-set root.
    InvalidValidatorProof,
}

/// Failure while building a light-client update.
#[derive(Clone, Copy, Debug, PartialEq, Eq, Structural)]
pub enum UpdateError {
    /// The commitment's block number is above the latest finalized height.
    BlockTooNew,
    /// The signed commitment bytes did not decode.
    CommitmentDecode,
    /// The decoded signed commitment carries no commitment.
    EmptyCommitment,
}

/// Failure inside the event monitor.
#[derive(Clone, Copy, Debug, PartialEq, Eq, Structural)]
pub enum MonitorError {
    /// Connecting to the node failed.
    ConnectionError,
    /// Opening the event or finality subscription failed.
    SubscriptionError,
    /// A known event kind carried a payload that did not decode.
    InvalidCodecDecode,
    /// A non-blocking send found the outbound channel full or closed.
    ChannelSendFailed,
    /// The cumulative reconnect backoff budget is spent.
    RetryBudgetExhausted,
}

/// Failure in the transfer module's channel callbacks.
#[derive(Clone, Copy, Debug, PartialEq, Eq, Structural)]
pub enum Ics20Error {
    /// The channel sequence does not fit 32 bits.
    ChanSeqExceedsLimit,
    /// The channel is not unordered.
    ChannelNotUnordered,
    /// The proposed port is not the transfer module's bound port.
    InvalidPort,
    /// The proposed version is not the transfer module's.
    InvalidVersion,
    /// The counterparty's version is not the transfer module's.
    InvalidCounterpartyVersion,
    /// A transfer channel cannot be closed from this side.
    CantCloseChannel,
    /// The host could not hand out the bound port.
    PortNotBound,
}

/// Failure of a host-provided proof check.
#[derive(Clone, Copy, Debug, PartialEq, Eq, Structural)]
pub enum HostError {
    /// A trie proof did not check out.
    InvalidTrieProof,
    /// A signature did not check out.
    InvalidSignature,
}

} // verus!
