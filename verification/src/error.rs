//! What can keep the library from giving an answer.

use vstd::prelude::*;

verus! {

/// Why there is no outcome. None of these means "not satisfied": an
/// assignment that violates a constraint is an outcome, not an error.
#[derive(Clone, Copy, Debug, PartialEq, Eq, Structural)]
pub enum ProofError {
    /// Gate number `gate` refers to variable `index`, which does not exist.
    IndexOutOfRange { gate: usize, index: usize },
    /// The artifact holds no byte.
    Truncated,
}

} // verus!
