//! Penalized sponge digest extraction.
//!
//! A sponge construction over the Keccak-f[1600] permutation with a rate of
//! 1088 bits (136 bytes) and a capacity of 512 bits.  `update` absorbs bytes;
//! `finalize_with_penalty` pads the absorbed input (multi-rate padding),
//! absorbs it block by block, then applies `penalty` extra permutation
//! rounds before squeezing a 32-byte digest.  A penalty of zero is the
//! sponge's ordinary finalization.
//!
//! The permutation itself is an external primitive; the sponge construction
//! around it — buffering, padding, absorption, the penalty rounds and the
//! squeeze — is verified against the spec functions below.

use vstd::prelude::*;

verus! {

/// Sponge rate in bytes: 1088 bits.
pub const RATE_BYTES: usize = 136;

/// Number of 64-bit lanes covered by the rate.
pub const RATE_LANES: usize = 17;

/// Digest size in bytes.
pub const DIGEST_SIZE: usize = 32;

/// What `tiny_keccak::keccakf` computes: the Keccak-f[1600] permutation on
/// the 25-lane state.  A fixed function of the state alone.
pub uninterp spec fn keccak_f(state: Seq<u64>) -> Seq<u64>;

/// Relies on `tiny_keccak::keccakf`: the Keccak-f[1600, 24] permutation,
/// applied in place to the 25-lane state.  It is a fixed function of the
/// state alone and always succeeds.
#[verifier::external_body]
fn keccak_f_in_place(state: &mut [u64; 25])
    ensures
        final(state)@ == keccak_f(old(state)@),
{
    tiny_keccak::keccakf(state);
}

/// A 64-bit lane read little-endian from 8 bytes.
pub open spec fn le_u64(b: Seq<u8>) -> u64 {
    ((b[0] as u64) | ((b[1] as u64) << 8) | ((b[2] as u64) << 16) | ((b[3] as u64) << 24)
        | ((b[4] as u64) << 32) | ((b[5] as u64) << 40) | ((b[6] as u64) << 48)
        | ((b[7] as u64) << 56)) as u64
}

/// XOR one rate-sized block into the first `RATE_LANES` lanes of the state,
/// little-endian, but only for the first `k` lanes; the rest are unchanged.
pub open spec fn xor_lanes_upto(state: Seq<u64>, block: Seq<u8>, k: int) -> Seq<u64> {
    Seq::new(25, |i: int| if i < k {
        (state[i] ^ le_u64(block.subrange(8 * i, 8 * i + 8))) as u64
    } else {
        state[i]
    })
}

/// XOR one rate-sized block into the first `RATE_LANES` lanes of the state.
pub open spec fn xor_block(state: Seq<u64>, block: Seq<u8>) -> Seq<u64> {
    xor_lanes_upto(state, block, RATE_LANES as int)
}

/// Absorb one rate-sized block: XOR it into the state, then permute.
pub open spec fn absorb_block(state: Seq<u64>, block: Seq<u8>) -> Seq<u64> {
    keccak_f(xor_block(state, block))
}

/// Absorb a padded message, one rate-sized block at a time, front to back.
pub open spec fn absorb_blocks(state: Seq<u64>, data: Seq<u8>) -> Seq<u64>
    decreases data.len(),
{
    if data.len() < RATE_BYTES {
        state
    } else {
        absorb_blocks(
            absorb_block(state, data.take(RATE_BYTES as int)),
            data.skip(RATE_BYTES as int),
        )
    }
}

/// Multi-rate padding: append the 0x01 domain byte, zeros, and a final 0x80,
/// bringing the length to the next multiple of the rate.  When a single byte
/// of room is left in the block, the two markers merge into 0x81.
pub open spec fn pad_message(data: Seq<u8>) -> Seq<u8> {
    let q = RATE_BYTES - (data.len() % (RATE_BYTES as nat));
    if q == 1 {
        data + seq![0x81u8]
    } else {
        data + seq![0x01u8] + Seq::new((q - 2) as nat, |i: int| 0u8) + seq![0x80u8]
    }
}

/// `n` applications of the permutation: the penalty rounds.
pub open spec fn iter_keccak_f(state: Seq<u64>, n: nat) -> Seq<u64>
    decreases n,
{
    if n == 0 {
        state
    } else {
        keccak_f(iter_keccak_f(state, (n - 1) as nat))
    }
}

/// The all-zero initial sponge state.
pub open spec fn zero_state() -> Seq<u64> {
    Seq::new(25, |i: int| 0u64)
}

/// The first `DIGEST_SIZE` bytes of the state, lanes read little-endian.
pub open spec fn squeeze_digest(state: Seq<u64>) -> Seq<u8> {
    Seq::new(DIGEST_SIZE as nat, |i: int| ((state[i / 8] >> ((8 * (i % 8)) as u64)) & 0xff) as u8)
}

/// The penalized sponge digest of an absorbed byte sequence: pad, absorb
/// block by block, apply `penalty` extra permutations, squeeze 32 bytes.
pub open spec fn keccak_digest(data: Seq<u8>, penalty: nat) -> Seq<u8> {
    squeeze_digest(iter_keccak_f(absorb_blocks(zero_state(), pad_message(data)), penalty))
}

/// Fixed output size: whatever is absorbed and whatever the penalty, the
/// penalized sponge digest is exactly `DIGEST_SIZE` bytes.
pub proof fn lemma_digest_len(data: Seq<u8>, penalty: nat)
    ensures
        keccak_digest(data, penalty).len() == DIGEST_SIZE,
{
}

/// The sponge.  Absorbed bytes are buffered; all permutation work happens in
/// `finalize_with_penalty`, which produces the same digest as absorbing
/// incrementally.  The view of a `Keccak` is the sequence of absorbed bytes.
pub struct Keccak {
    buffer: Vec<u8>,
    rate: usize,
}

impl View for Keccak {
    type V = Seq<u8>;

    closed spec fn view(&self) -> Seq<u8> {
        self.buffer@
    }
}

impl Keccak {
    /// A fresh sponge with the system's fixed rate of 136 bytes (1088 bits),
    /// leaving a capacity of 512 bits.  Nothing absorbed yet.
    pub fn new(rate: usize) -> (k: Keccak)
        requires
            rate == RATE_BYTES,
        ensures
            k@ == Seq::<u8>::empty(),
    {
        let k = Keccak { buffer: Vec::new(), rate };
        assert(k@ =~= Seq::<u8>::empty());
        k
    }

    /// Absorb bytes.  May be called repeatedly; the absorbed sequence grows
    /// by exactly the input.
    pub fn update(&mut self, input: &[u8])
        ensures
            final(self)@ == old(self)@ + input@,
    {
        let mut i: usize = 0;
        while i < input.len()
            invariant
                i <= input@.len(),
                self.buffer@ == old(self).buffer@ + input@.take(i as int),
            decreases input@.len() - i,
        {
            let b = input[i];
            self.buffer.push(b);
            assert(old(self).buffer@ + input@.take(i as int) + seq![input@[i as int]]
                =~= old(self).buffer@ + input@.take(i as int + 1));
            i = i + 1;
        }
        assert(old(self).buffer@ + input@.take(input@.len() as int) =~= old(self).buffer@ + input@);
    }

    /// Extract the digest, performing `penalty` extra permutation rounds
    /// after absorption and before the squeeze.  A penalty of zero is the
    /// ordinary sponge finalization.  The digest is always exactly 32 bytes
    /// and is a function of the absorbed bytes and the penalty alone.
    pub fn finalize_with_penalty(self, penalty: usize) -> (digest: [u8; 32])
        ensures
            digest@ == keccak_digest(self@, penalty as nat),
    {
        let mut data = self.buffer;
        let ghost message = data@;

        // Multi-rate padding.
        let q = RATE_BYTES - (data.len() % RATE_BYTES);
        if q == 1 {
            data.push(0x81);
            assert(data@ =~= pad_message(message));
        } else {
            data.push(0x01);
            let mut z: usize = 0;
            while z < q - 2
                invariant
                    z <= q - 2,
                    q == RATE_BYTES - (message.len() % (RATE_BYTES as nat)),
                    2 <= q <= RATE_BYTES,
                    data@ == message + seq![0x01u8] + Seq::new(z as nat, |i: int| 0u8),
                decreases q - 2 - z,
            {
                data.push(0x00);
                assert(message + seq![0x01u8] + Seq::new(z as nat, |i: int| 0u8) + seq![0u8]
                    =~= message + seq![0x01u8] + Seq::new(z as nat + 1, |i: int| 0u8));
                z = z + 1;
            }
            data.push(0x80);
            assert(data@ =~= pad_message(message));
        }
        proof {
            lemma_mod_bound(message.len() as int, RATE_BYTES as int);
            assert(data@.len() % (RATE_BYTES as nat) == 0) by {
                lemma_pad_len(message);
            }
        }

        // Absorption.
        let ghost padded = data@;
        let n = data.len();
        let mut state: [u64; 25] = [0u64; 25];
        assert(state@ =~= zero_state());
        let mut off: usize = 0;
        while off < data.len()
            invariant
                off <= data@.len(),
                data@.len() == n,
                off % RATE_BYTES == 0,
                data@ == padded,
                padded.len() % (RATE_BYTES as nat) == 0,
                state@.len() == 25,
                state@ == absorb_blocks(zero_state(), padded.take(off as int)),
            decreases data@.len() - off,
        {
            proof {
                lemma_mod_multiple_bound(off as int, data@.len() as int, RATE_BYTES as int);
            }
            let ghost pre = state@;
            let ghost block = padded.subrange(off as int, off as int + RATE_BYTES as int);
            let mut lane: usize = 0;
            while lane < RATE_LANES
                invariant
                    lane <= RATE_LANES,
                    off + RATE_BYTES <= data@.len(),
                    data@.len() == n,
                    data@ == padded,
                    block == padded.subrange(off as int, off as int + RATE_BYTES as int),
                    state@.len() == 25,
                    state@ == xor_lanes_upto(pre, block, lane as int),
                decreases RATE_LANES - lane,
            {
                let lo = le_load(&data, off + 8 * lane);
                let x = state[lane] ^ lo;
                state[lane] = x;
                proof {
                    assert(block.subrange(8 * lane as int, 8 * lane as int + 8)
                        =~= data@.subrange((off + 8 * lane) as int, (off + 8 * lane) as int + 8));
                    assert(state@ =~= xor_lanes_upto(pre, block, lane as int + 1));
                }
                lane = lane + 1;
            }
            assert(state@ =~= xor_block(pre, block));
            keccak_f_in_place(&mut state);
            proof {
                lemma_absorb_blocks_snoc(zero_state(), padded.take(off as int), block);
                assert(padded.take(off as int) + block =~= padded.take(off as int + RATE_BYTES as int));
            }
            off = off + RATE_BYTES;
        }
        proof {
            assert(padded.take(padded.len() as int) =~= padded);
        }

        // Penalty rounds.
        let ghost absorbed = state@;
        let mut p: usize = 0;
        while p < penalty
            invariant
                p <= penalty,
                state@ == iter_keccak_f(absorbed, p as nat),
            decreases penalty - p,
        {
            keccak_f_in_place(&mut state);
            p = p + 1;
        }

        // Squeeze.
        let ghost fin = state@;
        let mut digest: [u8; 32] = [0u8; 32];
        let mut i: usize = 0;
        while i < DIGEST_SIZE
            invariant
                i <= DIGEST_SIZE,
                state@ == fin,
                fin.len() == 25,
                digest@.len() == 32,
                forall|j: int| 0 <= j < i ==> digest@[j] == squeeze_digest(fin)[j],
            decreases DIGEST_SIZE - i,
        {
            let w = state[i / 8];
            let sh = (8 * (i % 8)) as u64;
            assert((w >> sh) & 0xff < 256) by (bit_vector);
            let b = ((w >> sh) & 0xff) as u8;
            digest[i] = b;
            i = i + 1;
        }
        assert(digest@ =~= squeeze_digest(fin));
        digest
    }
}

/// Read a 64-bit little-endian lane out of `data` at `off`.
fn le_load(data: &Vec<u8>, off: usize) -> (r: u64)
    requires
        off + 8 <= data@.len(),
    ensures
        r == le_u64(data@.subrange(off as int, off as int + 8)),
{
    let n = data.len();
    assert(off + 8 <= n);
    let r = (data[off] as u64) | ((data[off + 1] as u64) << 8u64) | ((data[off + 2] as u64)
        << 16u64) | ((data[off + 3] as u64) << 24u64) | ((data[off + 4] as u64) << 32u64) | ((
    data[off + 5] as u64) << 40u64) | ((data[off + 6] as u64) << 48u64) | ((data[off + 7] as u64)
        << 56u64);
    proof {
        let b = data@.subrange(off as int, off as int + 8);
        assert(b[0] == data@[off as int] && b[1] == data@[off as int + 1] && b[2] == data@[
            off as int + 2] && b[3] == data@[off as int + 3] && b[4] == data@[off as int + 4]
            && b[5] == data@[off as int + 5] && b[6] == data@[off as int + 6] && b[7] == data@[
            off as int + 7]);
    }
    r
}

/// The padded message's length is a multiple of the rate.
proof fn lemma_pad_len(data: Seq<u8>)
    ensures
        pad_message(data).len() % (RATE_BYTES as nat) == 0,
{
    lemma_mod_bound(data.len() as int, RATE_BYTES as int);
    let q = RATE_BYTES - (data.len() % (RATE_BYTES as nat));
    assert(pad_message(data).len() == data.len() + q);
    lemma_mod_add_cancel(data.len() as int, RATE_BYTES as int);
}

/// `0 <= a % m < m` for positive `m`.
proof fn lemma_mod_bound(a: int, m: int)
    requires
        0 <= a,
        0 < m,
    ensures
        0 <= a % m < m,
{
}

/// Adding the distance to the next multiple gives remainder zero.
proof fn lemma_mod_add_cancel(a: int, m: int)
    requires
        0 <= a,
        0 < m,
    ensures
        (a + (m - a % m)) % m == 0,
{
    let r = a % m;
    let d = a / m;
    assert(a == m * d + r) by {
        vstd::arithmetic::div_mod::lemma_fundamental_div_mod(a, m);
    }
    assert(a + (m - r) == m * (d + 1)) by (nonlinear_arith)
        requires a == m * d + r,
    ;
    assert((m * (d + 1)) % m == 0) by {
        vstd::arithmetic::div_mod::lemma_mod_multiples_basic(d + 1, m);
    }
}

/// A multiple of `m` strictly below another multiple of `m` leaves room for
/// one more whole block of `m`.
proof fn lemma_mod_multiple_bound(a: int, b: int, m: int)
    requires
        0 < m,
        0 <= a < b,
        a % m == 0,
        b % m == 0,
    ensures
        a + m <= b,
{
    if a + m > b {
        assert(a < b < a + m);
        vstd::arithmetic::div_mod::lemma_fundamental_div_mod(a, m);
        vstd::arithmetic::div_mod::lemma_fundamental_div_mod(b, m);
        let da = a / m;
        let db = b / m;
        assert(m * da < m * db < m * da + m);
        assert(da < db < da + 1) by (nonlinear_arith)
            requires m * da < m * db < m * da + m, 0 < m,
        ;
    }
}

/// Absorbing `data + block` is absorbing `data`, then absorbing `block`:
/// the whole-block absorption folds from the front, one block at a time.
proof fn lemma_absorb_blocks_snoc(state: Seq<u64>, data: Seq<u8>, block: Seq<u8>)
    requires
        data.len() % (RATE_BYTES as nat) == 0,
        block.len() == RATE_BYTES,
    ensures
        absorb_blocks(state, data + block) == absorb_block(absorb_blocks(state, data), block),
    decreases data.len(),
{
    let r = RATE_BYTES as int;
    if data.len() == 0 {
        assert(data + block =~= block);
        assert(absorb_blocks(state, block) == absorb_blocks(
            absorb_block(state, block.take(r)),
            block.skip(r),
        ));
        assert(block.take(r) =~= block);
        assert(block.skip(r) =~= Seq::<u8>::empty());
        assert(absorb_blocks(absorb_block(state, block), Seq::<u8>::empty()) == absorb_block(
            state,
            block,
        ));
        assert(absorb_blocks(state, data) == state);
    } else {
        lemma_mod_bound(data.len() as int, RATE_BYTES as int);
        assert(data.len() >= RATE_BYTES) by {
            if data.len() < RATE_BYTES {
                assert(data.len() % (RATE_BYTES as nat) == data.len());
            }
        }
        assert(absorb_blocks(state, data + block) == absorb_blocks(
            absorb_block(state, (data + block).take(r)),
            (data + block).skip(r),
        ));
        assert((data + block).take(r) =~= data.take(r));
        assert((data + block).skip(r) =~= data.skip(r) + block);
        assert(data.skip(r).len() % (RATE_BYTES as nat) == 0) by {
            lemma_mod_sub_multiple(data.len() as int, RATE_BYTES as int);
        }
        lemma_absorb_blocks_snoc(absorb_block(state, data.take(r)), data.skip(r), block);
        assert(absorb_blocks(state, data) == absorb_blocks(
            absorb_block(state, data.take(r)),
            data.skip(r),
        ));
    }
}

/// Removing one whole block keeps the length a multiple of the rate.
proof fn lemma_mod_sub_multiple(a: int, m: int)
    requires
        0 < m,
        m <= a,
        a % m == 0,
    ensures
        (a - m) % m == 0,
{
    vstd::arithmetic::div_mod::lemma_fundamental_div_mod(a, m);
    let d = a / m;
    assert(a - m == m * (d - 1)) by (nonlinear_arith)
        requires a == m * d,
    ;
    vstd::arithmetic::div_mod::lemma_mod_multiples_basic(d - 1, m);
}

} // verus!
