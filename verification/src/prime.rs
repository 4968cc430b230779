//! The Keccak-prime puzzle function.
//!
//! `prime` composes three stages in a strictly linear pipeline: the
//! authenticated expansion of `(prev_hash, root_hash, nonce)` into a block,
//! a chain of exactly `vdf_iterations` sequential verifiable-delay-function
//! evaluations in which each iteration's seed is the previous iteration's
//! output, and a penalized sponge finalization that absorbs the final chain
//! output and squeezes the digest after `penalty` extra permutations.

use vstd::prelude::*;
use crate::expansion::{expand, expanded_block};
use crate::keccak::{keccak_digest, Keccak};

verus! {

#[verifier::external_type_specification]
#[verifier::external_body]
pub struct ExInvalidIterations(vdf::InvalidIterations);

/// Keccak-prime error.
#[derive(Debug)]
pub enum KeccakPrimeError {
    /// Opaque AES function failure.
    AesError(aes_gcm_siv::aead::Error),
    /// An error return indicating an invalid number of VDF iterations.  The
    /// string it carries is a human-readable message describing the valid
    /// iterations.  It should not be interpreted by programs.
    VdfInvalidIterations(vdf::InvalidIterations),
}

impl From<aes_gcm_siv::aead::Error> for KeccakPrimeError {
    fn from(e: aes_gcm_siv::aead::Error) -> (r: Self) {
        KeccakPrimeError::AesError(e)
    }
}

impl vstd::std_specs::convert::FromSpecImpl<aes_gcm_siv::aead::Error> for KeccakPrimeError {
    open spec fn obeys_from_spec() -> bool {
        true
    }

    open spec fn from_spec(e: aes_gcm_siv::aead::Error) -> Self {
        KeccakPrimeError::AesError(e)
    }
}

impl From<vdf::InvalidIterations> for KeccakPrimeError {
    fn from(e: vdf::InvalidIterations) -> (r: Self) {
        KeccakPrimeError::VdfInvalidIterations(e)
    }
}

impl vstd::std_specs::convert::FromSpecImpl<vdf::InvalidIterations> for KeccakPrimeError {
    open spec fn obeys_from_spec() -> bool {
        true
    }

    open spec fn from_spec(e: vdf::InvalidIterations) -> Self {
        KeccakPrimeError::VdfInvalidIterations(e)
    }
}

/// The difficulties that the Pietrzak VDF accepts: an even iteration count of
/// at least 66.
pub open spec fn valid_vdf_difficulty(difficulty: u64) -> bool {
    difficulty % 2 == 0 && difficulty >= 66
}

/// What one Pietrzak VDF evaluation at the system's fixed 2048-bit parameter
/// set returns for a given challenge and difficulty.  The crate documents
/// `solve` as deterministic: a fixed function of exactly these two values.
pub uninterp spec fn vdf_solve(challenge: Seq<u8>, difficulty: u64) -> Seq<u8>;

/// Relies on `vdf::PietrzakVDFParams(2048)`, whose `VDFParams::new` cheaply
/// builds a fresh stateless solver for the fixed 2048-bit parameter set, and
/// on `vdf::VDF::solve` for `PietrzakVDF`: it rejects the difficulty exactly
/// when it is odd or below 66, and otherwise deterministically returns the
/// serialized proof-of-time for the challenge.
#[verifier::external_body]
fn pietrzak_solve(challenge: &Vec<u8>, difficulty: u64) -> (r: Result<
    Vec<u8>,
    vdf::InvalidIterations,
>)
    ensures
        r is Ok <==> valid_vdf_difficulty(difficulty),
        r matches Ok(out) ==> out@ == vdf_solve(challenge@, difficulty),
{
    let pietrzak_vdf = vdf::VDFParams::new(vdf::PietrzakVDFParams(2048));
    vdf::VDF::solve(&pietrzak_vdf, challenge.as_slice(), difficulty)
}

/// The state of the delay chain after `n` sequential VDF evaluations seeded
/// with `seed`: zero iterations pass the seed through unchanged, and each
/// further iteration solves on the previous iteration's output.
pub open spec fn vdf_chain(seed: Seq<u8>, delay: u64, n: nat) -> Seq<u8>
    decreases n,
{
    if n == 0 {
        seed
    } else {
        vdf_solve(vdf_chain(seed, delay, (n - 1) as nat), delay)
    }
}

/// The digest that `prime` produces on success: the penalized sponge digest
/// of the delay chain's final output, seeded with the expanded block.
pub open spec fn prime_digest(
    prev_hash: Seq<u8>,
    root_hash: Seq<u8>,
    nonce: Seq<u8>,
    penalty: nat,
    delay: u64,
    vdf_iterations: nat,
) -> Seq<u8> {
    keccak_digest(vdf_chain(expanded_block(prev_hash, root_hash, nonce), delay, vdf_iterations), penalty)
}

/// Keccak-prime function.
///
/// ### Arguments
/// - `prev_hash`: previous block hash.
/// - `root_hash`: Merkle root hash.
/// - `nonce`: block nonce.
/// - `penalty`: applied penalty (regulates a number of extra Keccak permutations).
/// - `delay`: delay parameter used in the VDF function.
/// - `vdf_iterations`: a number of VDF iterations.
///
/// The pipeline is strictly linear — expand, chain, finalize — and the first
/// failure aborts the call: an expansion failure is returned before any VDF
/// work, and a rejected delay parameter is returned from the first chain
/// iteration, without attempting the remaining ones.
pub fn prime(
    prev_hash: [u8; 32],
    root_hash: [u8; 32],
    nonce: [u8; 12],
    penalty: usize,
    delay: u64,
    vdf_iterations: usize,
) -> (r: Result<[u8; 32], KeccakPrimeError>)
    ensures
        r is Ok <==> (vdf_iterations == 0 || valid_vdf_difficulty(delay)),
        r matches Ok(digest) ==> digest@ == prime_digest(
            prev_hash@,
            root_hash@,
            nonce@,
            penalty as nat,
            delay,
            vdf_iterations as nat,
        ),
        r matches Err(e) ==> e is VdfInvalidIterations && vdf_iterations > 0
            && !valid_vdf_difficulty(delay),
{
    // Expand the block.
    let block = match expand(prev_hash, root_hash, nonce) {
        Ok(block) => block,
        Err(e) => {
            return Err(KeccakPrimeError::AesError(e));
        },
    };
    let ghost seed = block@;

    // Execute a chain of VDFs.
    let mut vdf_output = block;
    let mut i: usize = 0;
    while i < vdf_iterations
        invariant
            i <= vdf_iterations,
            i > 0 ==> valid_vdf_difficulty(delay),
            vdf_output@ == vdf_chain(seed, delay, i as nat),
        decreases vdf_iterations - i,
    {
        match pietrzak_solve(&vdf_output, delay) {
            Ok(out) => {
                vdf_output = out;
            },
            Err(e) => {
                return Err(KeccakPrimeError::VdfInvalidIterations(e));
            },
        }
        i = i + 1;
    }

    // Construct a Keccak function with rate=1088 and capacity=512.
    let mut keccak = Keccak::new(1088 / 8);
    keccak.update(vdf_output.as_slice());
    proof {
        assert(keccak@ =~= vdf_chain(seed, delay, vdf_iterations as nat));
    }
    Ok(keccak.finalize_with_penalty(penalty))
}

/// Determinism: for fixed inputs, repeated calls to `prime` produce the
/// identical digest — the digest is a function of the six arguments alone.
pub proof fn lemma_prime_deterministic(
    prev_hash: Seq<u8>,
    root_hash: Seq<u8>,
    nonce: Seq<u8>,
    penalty: nat,
    delay: u64,
    vdf_iterations: nat,
    d1: Seq<u8>,
    d2: Seq<u8>,
)
    requires
        d1 == prime_digest(prev_hash, root_hash, nonce, penalty, delay, vdf_iterations),
        d2 == prime_digest(prev_hash, root_hash, nonce, penalty, delay, vdf_iterations),
    ensures
        d1 == d2,
{
}

/// Zero-iteration identity: with no VDF iterations the delay chain is a
/// no-op, and the digest is the penalized sponge digest of the expanded
/// block itself.
pub proof fn lemma_zero_iterations(
    prev_hash: Seq<u8>,
    root_hash: Seq<u8>,
    nonce: Seq<u8>,
    penalty: nat,
    delay: u64,
)
    ensures
        prime_digest(prev_hash, root_hash, nonce, penalty, delay, 0) == keccak_digest(
            expanded_block(prev_hash, root_hash, nonce),
            penalty,
        ),
{
}

/// Chaining order: iteration `n + 1` of the delay chain solves on exactly
/// the output of iteration `n`, so the chain is the n-fold composition of
/// the solver with itself and cannot be reordered or parallelized.
pub proof fn lemma_chain_step(seed: Seq<u8>, delay: u64, n: nat)
    ensures
        vdf_chain(seed, delay, n + 1) == vdf_solve(vdf_chain(seed, delay, n), delay),
{
}

} // verus!
