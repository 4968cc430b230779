//! Block expansion: the keyed, authenticated transform that turns
//! `(prev_hash, root_hash, nonce)` into a fixed-size expanded block.
//!
//! The mixing itself is done by AES-256-GCM-SIV (RFC 8452): the previous
//! block hash keys the cipher, the block nonce is the AEAD nonce, and the
//! Merkle root hash is the plaintext.  The expanded block is the first
//! `INPUT_HASH_SIZE` bytes of the ciphertext.

use vstd::prelude::*;
use aes_gcm_siv::Aes256GcmSiv;
use aes_gcm_siv::aead::{Aead, KeyInit};

verus! {

/// Number of bytes in a block hash (both `prev_hash` and `root_hash`).
pub const INPUT_HASH_SIZE: usize = 32;

/// Number of bytes in a block nonce.
pub const NONCE_SIZE: usize = 12;

/// Number of bytes AES-GCM-SIV appends to the plaintext: the authentication tag.
pub const TAG_SIZE: usize = 16;

#[verifier::external_type_specification]
#[verifier::external_body]
pub struct ExAeadError(aes_gcm_siv::aead::Error);

/// The AES-256-GCM-SIV ciphertext (with the 16-byte tag appended) for a given
/// key, nonce and plaintext, with no associated data.  RFC 8452 encryption is
/// a function of exactly these three values.
pub uninterp spec fn aes_gcm_siv_ct(key: Seq<u8>, nonce: Seq<u8>, plaintext: Seq<u8>) -> Seq<u8>;

/// Relies on `aes_gcm_siv::Aes256GcmSiv`: `aead::KeyInit::new` builds the
/// cipher from the 32-byte key, and `aead::Aead::encrypt` (with no associated
/// data) returns the ciphertext with the 16-byte tag appended.  Encryption is
/// deterministic in the key, nonce and plaintext, and fails only when the
/// plaintext or associated data exceed the RFC 8452 length limits (2^36
/// bytes), which a 32-byte plaintext never does.
#[verifier::external_body]
fn aes256_gcm_siv_encrypt(
    key: &[u8; 32],
    nonce: &[u8; 12],
    plaintext: &[u8; 32],
) -> (r: Result<Vec<u8>, aes_gcm_siv::aead::Error>)
    ensures
        r is Ok,
        r matches Ok(ct) ==> ct@ == aes_gcm_siv_ct(key@, nonce@, plaintext@)
            && ct@.len() == plaintext@.len() + TAG_SIZE,
{
    let cipher = Aes256GcmSiv::new(key.into());
    cipher.encrypt(nonce.into(), plaintext.as_slice())
}

/// The expanded block: the first `INPUT_HASH_SIZE` bytes of the AES-256-GCM-SIV
/// ciphertext of `root_hash` under key `prev_hash` and nonce `nonce`.
pub open spec fn expanded_block(prev_hash: Seq<u8>, root_hash: Seq<u8>, nonce: Seq<u8>) -> Seq<u8> {
    aes_gcm_siv_ct(prev_hash, nonce, root_hash).take(INPUT_HASH_SIZE as int)
}

/// Expand `(prev_hash, root_hash, nonce)` into a block of `INPUT_HASH_SIZE`
/// bytes.  Deterministic in its inputs; a single changed input byte changes
/// the underlying ciphertext unpredictably.
pub fn expand(
    prev_hash: [u8; 32],
    root_hash: [u8; 32],
    nonce: [u8; 12],
) -> (r: Result<Vec<u8>, aes_gcm_siv::aead::Error>)
    ensures
        r is Ok,
        r matches Ok(block) ==> block@ == expanded_block(prev_hash@, root_hash@, nonce@)
            && block@.len() == INPUT_HASH_SIZE,
{
    match aes256_gcm_siv_encrypt(&prev_hash, &nonce, &root_hash) {
        Ok(mut ct) => {
            ct.truncate(INPUT_HASH_SIZE);
            assert(ct@ =~= expanded_block(prev_hash@, root_hash@, nonce@));
            Ok(ct)
        },
        Err(e) => Err(e),
    }
}

} // verus!
