use keccak_prime::expansion::expand;
use keccak_prime::keccak::Keccak;
use keccak_prime::prime::{prime, KeccakPrimeError};

#[test]
fn keccak_prime_test() {
    let prev_hash = [1u8; 32];
    let root_hash = [2u8; 32];
    let nonce = [3u8; 12];

    let digest = prime(prev_hash, root_hash, nonce, 100, 100, 10)
        .expect("Failed to execute Keccak-prime");
    assert_eq!(digest.len(), 32);
}

#[test]
fn prime_is_deterministic() {
    let prev_hash = [7u8; 32];
    let root_hash = [8u8; 32];
    let nonce = [9u8; 12];

    let d1 = prime(prev_hash, root_hash, nonce, 3, 100, 0).expect("prime failed");
    let d2 = prime(prev_hash, root_hash, nonce, 3, 100, 0).expect("prime failed");
    assert_eq!(d1, d2);
}

#[test]
fn prime_is_sensitive_to_single_byte_changes() {
    let prev_hash = [7u8; 32];
    let root_hash = [8u8; 32];
    let nonce = [9u8; 12];
    let base = prime(prev_hash, root_hash, nonce, 0, 100, 0).expect("prime failed");

    let mut prev2 = prev_hash;
    prev2[13] = 0xfe;
    let d_prev = prime(prev2, root_hash, nonce, 0, 100, 0).expect("prime failed");
    assert_ne!(base, d_prev);

    let mut root2 = root_hash;
    root2[0] = 0xfe;
    let d_root = prime(prev_hash, root2, nonce, 0, 100, 0).expect("prime failed");
    assert_ne!(base, d_root);

    let mut nonce2 = nonce;
    nonce2[11] = 0xfe;
    let d_nonce = prime(prev_hash, root_hash, nonce2, 0, 100, 0).expect("prime failed");
    assert_ne!(base, d_nonce);
}

#[test]
fn zero_iterations_skip_the_vdf() {
    let prev_hash = [4u8; 32];
    let root_hash = [5u8; 32];
    let nonce = [6u8; 12];
    let penalty = 11;

    let via_prime = prime(prev_hash, root_hash, nonce, penalty, 100, 0).expect("prime failed");

    let block = expand(prev_hash, root_hash, nonce).expect("expansion failed");
    let mut keccak = Keccak::new(1088 / 8);
    keccak.update(block.as_slice());
    let direct = keccak.finalize_with_penalty(penalty);

    assert_eq!(via_prime, direct);
}

#[test]
fn penalty_keeps_output_size_and_is_reproducible() {
    let prev_hash = [10u8; 32];
    let root_hash = [11u8; 32];
    let nonce = [12u8; 12];
    let block = expand(prev_hash, root_hash, nonce).expect("expansion failed");

    let mut digests = Vec::new();
    for &penalty in &[0usize, 1, 100] {
        let mut k1 = Keccak::new(1088 / 8);
        k1.update(block.as_slice());
        let d1 = k1.finalize_with_penalty(penalty);
        assert_eq!(d1.len(), 32);

        let mut k2 = Keccak::new(1088 / 8);
        k2.update(block.as_slice());
        let d2 = k2.finalize_with_penalty(penalty);
        assert_eq!(d1, d2);

        digests.push(d1);
    }
    assert_ne!(digests[0], digests[1]);
    assert_ne!(digests[1], digests[2]);
    assert_ne!(digests[0], digests[2]);
}

#[test]
fn one_iteration_differs_from_two() {
    let prev_hash = [13u8; 32];
    let root_hash = [14u8; 32];
    let nonce = [15u8; 12];

    let d0 = prime(prev_hash, root_hash, nonce, 0, 66, 0).expect("prime failed");
    let d1 = prime(prev_hash, root_hash, nonce, 0, 66, 1).expect("prime failed");
    let d2 = prime(prev_hash, root_hash, nonce, 0, 66, 2).expect("prime failed");
    assert_ne!(d0, d1);
    assert_ne!(d1, d2);
    assert_ne!(d0, d2);
}

#[test]
fn invalid_delay_is_rejected_only_when_iterating() {
    let prev_hash = [16u8; 32];
    let root_hash = [17u8; 32];
    let nonce = [18u8; 12];

    // An odd delay is rejected by the VDF.
    let odd = prime(prev_hash, root_hash, nonce, 0, 67, 1);
    assert!(matches!(odd, Err(KeccakPrimeError::VdfInvalidIterations(_))));

    // An even delay below 66 is rejected too.
    let small = prime(prev_hash, root_hash, nonce, 0, 10, 1);
    assert!(matches!(small, Err(KeccakPrimeError::VdfInvalidIterations(_))));

    // With zero iterations the delay parameter is never handed to the VDF.
    let skipped = prime(prev_hash, root_hash, nonce, 0, 67, 0);
    assert!(skipped.is_ok());
}

#[test]
fn empty_sponge_matches_keccak_256() {
    // Keccak-256 of the empty message; penalty zero is the ordinary
    // finalization, so the sponge must reproduce the well-known digest.
    let expected: [u8; 32] = [
        0xc5, 0xd2, 0x46, 0x01, 0x86, 0xf7, 0x23, 0x3c, 0x92, 0x7e, 0x7d, 0xb2, 0xdc, 0xc7,
        0x03, 0xc0, 0xe5, 0x00, 0xb6, 0x53, 0xca, 0x82, 0x27, 0x3b, 0x7b, 0xfa, 0xd8, 0x04,
        0x5d, 0x85, 0xa4, 0x70,
    ];
    let keccak = Keccak::new(1088 / 8);
    assert_eq!(keccak.finalize_with_penalty(0), expected);
}

#[test]
fn sponge_absorbs_incrementally() {
    let mut one_call = Keccak::new(1088 / 8);
    one_call.update(b"sequential delay");
    let d1 = one_call.finalize_with_penalty(2);

    let mut two_calls = Keccak::new(1088 / 8);
    two_calls.update(b"sequential ");
    two_calls.update(b"delay");
    let d2 = two_calls.finalize_with_penalty(2);

    assert_eq!(d1, d2);
}

#[test]
fn error_conversions_tag_the_right_variant() {
    let from_aes = KeccakPrimeError::from(aes_gcm_siv::aead::Error);
    assert!(matches!(from_aes, KeccakPrimeError::AesError(_)));

    // A VDF error value can only come out of the VDF itself.
    let from_vdf = prime([0u8; 32], [0u8; 32], [0u8; 12], 0, 1, 1).unwrap_err();
    let round_trip = KeccakPrimeError::from(match from_vdf {
        KeccakPrimeError::VdfInvalidIterations(e) => e,
        KeccakPrimeError::AesError(_) => panic!("expansion cannot fail"),
    });
    assert!(matches!(round_trip, KeccakPrimeError::VdfInvalidIterations(_)));
}

#[test]
fn expansion_mixes_its_inputs() {
    let prev_hash = [19u8; 32];
    let root_hash = [20u8; 32];
    let nonce = [21u8; 12];

    let block = expand(prev_hash, root_hash, nonce).expect("expansion failed");
    assert_eq!(block.len(), 32);
    // The expanded block is a keyed transform of the inputs, not any input
    // echoed back.
    assert_ne!(block.as_slice(), prev_hash.as_slice());
    assert_ne!(block.as_slice(), root_hash.as_slice());

    let again = expand(prev_hash, root_hash, nonce).expect("expansion failed");
    assert_eq!(block, again);
}
