//! Arithmetic circuits lowered to rank-1 constraint systems, the evaluation
//! of such systems against an assignment, and Merkle authentication paths
//! that feed hash-gate constraints.
//!
//! This is a teaching substrate, not a proof system: the "proof" of a circuit
//! is the outcome of evaluating its constraints, one byte on disk. There is
//! no soundness against a cheating prover, no zero knowledge and no
//! succinctness.
//!
//! * [`integer`]: what the contracts know of `num_bigint::BigInt`.
//! * [`hash_function`]: the hash as a capability.
//! * [`merkle`]: Merkle roots and authentication paths.
//! * [`r1cs`]: constraint systems and their evaluation.
//! * [`circuit`]: building circuits and lowering them.
//! * [`artifact`]: the one-byte record of an outcome.
//! * [`error`]: what can keep the library from giving an answer.

pub mod artifact;
pub mod circuit;
pub mod error;
pub mod hash_function;
pub mod integer;
pub mod merkle;
pub mod r1cs;
