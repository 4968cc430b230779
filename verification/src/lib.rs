//! Keccak-prime: a composite cryptographic puzzle function for
//! proof-of-work / proof-of-delay consensus.
//!
//! Given a previous block hash, a Merkle root and a nonce, the `prime`
//! function derives a fixed-size digest through three stages: an
//! authenticated expansion of the inputs, a strictly sequential chain of
//! verifiable-delay-function evaluations, and a penalized sponge
//! finalization that performs a configurable number of extra permutations
//! before the digest is extracted.

pub mod expansion;
pub mod keccak;
pub mod prime;
