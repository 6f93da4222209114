//! The persisted outcome of an evaluation.
//!
//! The artifact is a single byte, `0x01` for "satisfied" and `0x00` for "not
//! satisfied". Reading goes by the first byte alone: any value but `0x01`
//! reads as "not satisfied", and an artifact with no byte at all is rejected
//! as truncated rather than read as "not satisfied".

use crate::error::ProofError;
use vstd::prelude::*;

verus! {

/// The artifact that records `valid`.
pub open spec fn validity_bytes(valid: bool) -> Seq<u8> {
    if valid {
        seq![1u8]
    } else {
        seq![0u8]
    }
}

/// The outcome that an artifact records.
pub open spec fn recorded_validity(bytes: Seq<u8>) -> Result<bool, ProofError> {
    if bytes.len() == 0 {
        Err(ProofError::Truncated)
    } else {
        Ok(bytes[0] == 1)
    }
}

/// Writes the outcome of an evaluation as an artifact.
pub fn encode_validity(valid: bool) -> (bytes: Vec<u8>)
    ensures
        bytes@ == validity_bytes(valid),
{
    let mut bytes: Vec<u8> = Vec::new();
    if valid {
        bytes.push(1u8);
    } else {
        bytes.push(0u8);
    }
    bytes
}

/// Reads the outcome of an evaluation back from an artifact.
pub fn decode_validity(bytes: &[u8]) -> (outcome: Result<bool, ProofError>)
    ensures
        outcome == recorded_validity(bytes@),
{
    if bytes.len() == 0 {
        Err(ProofError::Truncated)
    } else {
        Ok(bytes[0] == 1)
    }
}

/// Reading an artifact that was just written gives back the outcome that was
/// written: `true` for "satisfied", `false` for "not satisfied".
pub proof fn lemma_validity_round_trip(valid: bool)
    ensures
        recorded_validity(validity_bytes(valid)) == Ok::<bool, ProofError>(valid),
{
}

} // verus!
