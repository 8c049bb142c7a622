//! A BEEFY-based light-client update pipeline and event monitor for a
//! cross-chain relayer: the commitment wire codec, the validator Merkle
//! prover and verifier, commitment-signature checking by public-key
//! recovery, the MMR finality boundary, sequential update assembly and
//! per-destination submission rounds, and the event-ingestion state
//! machine with its bounded reconnect backoff.

pub mod commitment;
pub mod crypto;
pub mod errors;
pub mod host;
pub mod ics20;
pub mod merkle;
pub mod mmr;
pub mod monitor;
pub mod paths;
pub mod pipeline;
pub mod verify;
