//! Two-to-one hashing over arbitrary-precision integers.
//!
//! A hash is a capability: anything that implements [`HashFunction`] can stand
//! in the Merkle tree and in the circuit. Contracts speak of the mathematical
//! function behind it, a `spec_fn(int, int) -> int`.

use crate::integer::{big_add, int_value};
use num_bigint::BigInt;
use vstd::prelude::*;

verus! {

/// A pure, deterministic, total function from two integers to one.
///
/// An implementation names the mathematical function it computes,
/// [`HashFunction::hash_spec`], and `hash` returns exactly its value.
pub trait HashFunction {
    /// The function that `hash` computes.
    spec fn hash_spec(&self, a: int, b: int) -> int;

    /// Hashes the pair `(a, b)`.
    fn hash(&self, a: &BigInt, b: &BigInt) -> (r: BigInt)
        ensures
            int_value(r) == self.hash_spec(int_value(*a), int_value(*b)),
    ;
}

/// The mathematical function behind a hash capability.
pub open spec fn hash_model<H: HashFunction>(hash_function: H) -> spec_fn(int, int) -> int {
    |a: int, b: int| hash_function.hash_spec(a, b)
}

/// Addition, the hash a circuit falls back on when none is configured.
pub open spec fn additive_hash() -> spec_fn(int, int) -> int {
    |a: int, b: int| a + b
}

/// Every call of the executable function `f` returns the value of `h` on the
/// integers its arguments hold.
pub open spec fn computes<F: Fn(&BigInt, &BigInt) -> BigInt>(
    f: F,
    h: spec_fn(int, int) -> int,
) -> bool {
    forall|a: &BigInt, b: &BigInt, r: BigInt|
        call_ensures(f, (a, b), r) ==> int_value(r) == h(int_value(*a), int_value(*b))
}

/// The additive stand-in: `hash(a, b) = a + b`. Not a cryptographic hash.
pub struct SimpleAddHash;

impl HashFunction for SimpleAddHash {
    open spec fn hash_spec(&self, a: int, b: int) -> int {
        a + b
    }

    fn hash(&self, a: &BigInt, b: &BigInt) -> (r: BigInt) {
        big_add(a, b)
    }
}

/// A caller-chosen hash, numerically the same as addition. Not a
/// cryptographic hash.
pub struct CustomHash;

impl HashFunction for CustomHash {
    open spec fn hash_spec(&self, a: int, b: int) -> int {
        a + b
    }

    fn hash(&self, a: &BigInt, b: &BigInt) -> (r: BigInt) {
        big_add(a, b)
    }
}

} // verus!
