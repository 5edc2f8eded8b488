//! AES-128 in counter mode on 128-bit registers, one block per register.
//!
//! The kernels have the shape of AES-NI code: whole rounds on a register, `W`
//! independent blocks in flight. They run on the software registers of
//! [`crate::register`], on any CPU: no AES-NI instruction is used, and no CPU
//! feature is tested.

use crate::bits::lemma_bytes_of_words;
use crate::counter::{counter_block_at, xor_blocks};
use crate::model::{
    add_round_key, bytes_of, cipher, counter_at, ctr_block, encrypt_words, full_round, is_ctr,
    last_round, round_key, rounds, same_from, words_of,
};
use crate::parallel::{encrypt_ctr_parallel, Kernel};
use crate::register::{
    byte_swap_of_native, byte_swap_of_state, lemma_native_counter_step, lemma_native_xor,
    native_bytes, V128, BYTE_SWAP,
};
use vstd::prelude::*;

verus! {

/// `keys` are the eleven round keys of the key schedule `rk`.
pub open spec fn are_round_keys(keys: Seq<V128>, rk: Seq<u32>) -> bool {
    keys.len() == 11 && forall|r: int| 0 <= r < 11 ==> #[trigger] keys[r]@ == round_key(rk, r)
}

/// Pack 4 big-endian-within-word u32s into a 16-byte AES state, the most
/// significant byte of `w[0]` first.
pub fn load_words(w: [u32; 4]) -> (v: V128)
    ensures
        v@ == bytes_of(w@),
{
    let mut bytes: [u8; 16] = [0u8; 16];
    let mut c: usize = 0;
    while c < 4
        invariant
            c <= 4,
            forall|i: int| 0 <= i < 4 * c ==> #[trigger] bytes@[i] == bytes_of(w@)[i],
        decreases 4 - c,
    {
        let x: u32 = w[c];
        bytes[4 * c] = (x >> 24) as u8;
        bytes[4 * c + 1] = (x >> 16) as u8;
        bytes[4 * c + 2] = (x >> 8) as u8;
        bytes[4 * c + 3] = x as u8;
        c = c + 1;
    }
    assert(bytes@ =~= bytes_of(w@));
    V128 { bytes }
}

/// Inverse of [`load_words`]: read a 16-byte state back out as 4 big-endian words.
pub fn store_words(v: V128) -> (w: [u32; 4])
    ensures
        w@ == words_of(v@),
        bytes_of(w@) == v@,
{
    let mut w: [u32; 4] = [0u32; 4];
    let mut c: usize = 0;
    while c < 4
        invariant
            c <= 4,
            forall|j: int| 0 <= j < c ==> #[trigger] w@[j] == words_of(v@)[j],
        decreases 4 - c,
    {
        w[c] = ((v.bytes[4 * c] as u32) << 24) | ((v.bytes[4 * c + 1] as u32) << 16) | ((
        v.bytes[4 * c + 2] as u32) << 8) | (v.bytes[4 * c + 3] as u32);
        c = c + 1;
    }
    proof {
        assert(w@ =~= words_of(v@));
        lemma_bytes_of_words(v@);
    }
    w
}

/// Pack the 44-word key schedule into 11 round keys.
pub fn round_keys(rk: &[u32]) -> (keys: [V128; 11])
    requires
        rk.len() >= 44,
    ensures
        are_round_keys(keys@, rk@),
{
    let mut keys: [V128; 11] = [V128::zero(); 11];
    let mut r: usize = 0;
    while r < 11
        invariant
            rk.len() >= 44,
            r <= 11,
            forall|j: int| 0 <= j < r ==> #[trigger] keys@[j]@ == round_key(rk@, j),
        decreases 11 - r,
    {
        let w: [u32; 4] = [rk[4 * r], rk[4 * r + 1], rk[4 * r + 2], rk[4 * r + 3]];
        assert(w@ =~= rk@.subrange(4 * r as int, 4 * r as int + 4));
        keys[r] = load_words(w);
        r = r + 1;
    }
    keys
}

/// The state after the rounds 1 to `n` on the state `s`, which already holds the
/// initial AddRoundKey.
pub open spec fn keyed_rounds(keys: Seq<V128>, s: Seq<u8>, n: nat) -> Seq<u8>
    decreases n,
{
    if n == 0 {
        s
    } else {
        full_round(keyed_rounds(keys, s, (n - 1) as nat), keys[n as int]@)
    }
}

/// The state after all ten rounds on the state `s`, which already holds the
/// initial AddRoundKey.
#[verifier::opaque]
pub open spec fn ten_rounds(keys: Seq<V128>, s: Seq<u8>) -> Seq<u8> {
    last_round(keyed_rounds(keys, s, 9), keys[10]@)
}

proof fn lemma_keyed_rounds(keys: Seq<V128>, rk: Seq<u32>, b: Seq<u8>, n: nat)
    requires
        are_round_keys(keys, rk),
        n < 10,
    ensures
        keyed_rounds(keys, add_round_key(b, keys[0]@), n) == rounds(rk, b, n),
    decreases n,
{
    if n > 0 {
        lemma_keyed_rounds(keys, rk, b, (n - 1) as nat);
    }
}

/// Ten rounds with the round keys of `rk` are AES-128 under `rk`.
pub proof fn lemma_ten_rounds(keys: Seq<V128>, rk: Seq<u32>, block: Seq<u32>)
    requires
        are_round_keys(keys, rk),
    ensures
        ten_rounds(keys, add_round_key(bytes_of(block), keys[0]@)) == cipher(rk, bytes_of(block)),
        words_of(ten_rounds(keys, add_round_key(bytes_of(block), keys[0]@))) == encrypt_words(
            rk,
            block,
        ),
{
    reveal(encrypt_words);
    reveal(ten_rounds);
    lemma_keyed_rounds(keys, rk, bytes_of(block), 9);
}

/// Run the ten rounds on `W` states in lockstep: one round on every state before
/// the next round starts.
fn run_rounds<const W: usize>(keys: &[V128; 11], states: [V128; W]) -> (s: [V128; W])
    ensures
        forall|l: int| 0 <= l < W ==> #[trigger] s@[l]@ == ten_rounds(keys@, states@[l]@),
{
    let mut s: [V128; W] = states;
    let mut r: usize = 1;
    while r < 10
        invariant
            1 <= r <= 10,
            forall|l: int|
                0 <= l < W ==> #[trigger] s@[l]@ == keyed_rounds(
                    keys@,
                    states@[l]@,
                    (r - 1) as nat,
                ),
        decreases 10 - r,
    {
        let mut j: usize = 0;
        while j < W
            invariant
                1 <= r < 10,
                j <= W,
                forall|l: int|
                    0 <= l < j ==> #[trigger] s@[l]@ == keyed_rounds(
                        keys@,
                        states@[l]@,
                        r as nat,
                    ),
                forall|l: int|
                    j <= l < W ==> #[trigger] s@[l]@ == keyed_rounds(
                        keys@,
                        states@[l]@,
                        (r - 1) as nat,
                    ),
            decreases W - j,
        {
            s[j] = s[j].aesenc(keys[r]);
            j = j + 1;
        }
        r = r + 1;
    }
    let mut j: usize = 0;
    while j < W
        invariant
            j <= W,
            forall|l: int| 0 <= l < j ==> #[trigger] s@[l]@ == ten_rounds(keys@, states@[l]@),
            forall|l: int|
                j <= l < W ==> #[trigger] s@[l]@ == keyed_rounds(keys@, states@[l]@, 9),
        decreases W - j,
    {
        s[j] = s[j].aesenclast(keys[10]);
        proof {
            reveal(ten_rounds);
        }
        j = j + 1;
    }
    s
}

/// Encrypt one block: initial AddRoundKey, 9 full rounds, then the last round.
pub fn encrypt_one(keys: &[V128; 11], block: [u32; 4]) -> (ct: [u32; 4])
    ensures
        ct@ == words_of(ten_rounds(keys@, add_round_key(bytes_of(block@), keys@[0]@))),
        forall|rk: Seq<u32>| #[trigger]
            are_round_keys(keys@, rk) ==> ct@ == encrypt_words(rk, block@),
{
    let mut s: V128 = load_words(block).xor(keys[0]);
    let ghost s0 = s@;
    let mut r: usize = 1;
    while r < 10
        invariant
            1 <= r <= 10,
            s@ == keyed_rounds(keys@, s0, (r - 1) as nat),
        decreases 10 - r,
    {
        s = s.aesenc(keys[r]);
        r = r + 1;
    }
    s = s.aesenclast(keys[10]);
    proof {
        reveal(ten_rounds);
        assert forall|rk: Seq<u32>| #[trigger] are_round_keys(keys@, rk) implies words_of(s@)
            == encrypt_words(rk, block@) by {
            lemma_ten_rounds(keys@, rk, block@);
        }
    }
    store_words(s)
}

/// Encrypt the blocks from position `start` on one at a time: the part of a
/// message that does not fill a group.
pub fn encrypt_tail(
    keys: &[V128; 11],
    counter0: [u32; 4],
    blocks: &[[u32; 4]],
    out: &mut [[u32; 4]],
    start: usize,
)
    requires
        start <= blocks.len() <= old(out).len(),
    ensures
        final(out)@.len() == old(out)@.len(),
        forall|i: int| 0 <= i < start ==> #[trigger] final(out)@[i] == old(out)@[i],
        forall|rk: Seq<u32>, i: int| #![trigger are_round_keys(keys@, rk), final(out)@[i]]
            are_round_keys(keys@, rk) && start <= i < blocks.len() ==> final(out)@[i]@ == ctr_block(
                rk,
                counter0@,
                i,
                blocks@[i]@,
            ),
        same_from(old(out)@, final(out)@, blocks.len() as int),
{
    let n: usize = blocks.len();
    let mut i: usize = start;
    while i < n
        invariant
            start <= i <= n,
            n == blocks.len(),
            n <= out.len(),
            forall|l: int| 0 <= l < start ==> #[trigger] out@[l] == old(out)@[l],
            forall|rk: Seq<u32>, l: int| #![trigger are_round_keys(keys@, rk), out@[l]]
                are_round_keys(keys@, rk) && start <= l < i ==> out@[l]@ == ctr_block(
                    rk,
                    counter0@,
                    l,
                    blocks@[l]@,
                ),
            same_from(old(out)@, out@, i as int),
        decreases n - i,
    {
        let ks: [u32; 4] = encrypt_one(keys, counter_block_at(counter0, i));
        out[i] = xor_blocks(blocks[i], ks);
        i = i + 1;
    }
}

/// Encrypt `blocks` in counter mode, interleaving `W` independent blocks per
/// iteration: `out[i] = blocks[i] ^ E(rk, counter0 + i)`.
///
/// The result is the same for every `W`. `rk` is the 44-word expanded key, and
/// `out` must be at least as long as `blocks`.
pub fn encrypt_ctr<const W: usize>(
    rk: &[u32],
    counter0: [u32; 4],
    blocks: &[[u32; 4]],
    out: &mut [[u32; 4]],
)
    requires
        W > 0,
        rk.len() >= 44,
        old(out).len() >= blocks.len(),
    ensures
        is_ctr(rk@, counter0@, blocks@, final(out)@, blocks.len() as int),
        same_from(old(out)@, final(out)@, blocks.len() as int),
{
    let keys: [V128; 11] = round_keys(rk);
    let n: usize = blocks.len();
    let mut i: usize = 0;
    // W independent counter blocks at a time.
    while n - i >= W
        invariant
            W > 0,
            are_round_keys(keys@, rk@),
            n == blocks.len(),
            n <= out.len(),
            i <= n,
            is_ctr(rk@, counter0@, blocks@, out@, i as int),
            same_from(old(out)@, out@, i as int),
        decreases n - i,
    {
        let mut s: [V128; W] = [V128::zero(); W];
        let mut j: usize = 0;
        while j < W
            invariant
                j <= W,
                i + W <= n,
                forall|l: int|
                    0 <= l < j ==> #[trigger] s@[l]@ == add_round_key(
                        bytes_of(counter_at(counter0@, i + l)),
                        keys@[0]@,
                    ),
            decreases W - j,
        {
            s[j] = load_words(counter_block_at(counter0, i + j)).xor(keys[0]);
            j = j + 1;
        }
        let s: [V128; W] = run_rounds(&keys, s);
        let mut j: usize = 0;
        while j < W
            invariant
                are_round_keys(keys@, rk@),
                n == blocks.len(),
                n <= out.len(),
                j <= W,
                i + W <= n,
                forall|l: int|
                    0 <= l < W ==> #[trigger] s@[l]@ == ten_rounds(
                        keys@,
                        add_round_key(bytes_of(counter_at(counter0@, i + l)), keys@[0]@),
                    ),
                is_ctr(rk@, counter0@, blocks@, out@, i + j),
                same_from(old(out)@, out@, i + j),
            decreases W - j,
        {
            proof {
                lemma_ten_rounds(keys@, rk@, counter_at(counter0@, i + j));
            }
            let ks: [u32; 4] = store_words(s[j]);
            out[i + j] = xor_blocks(blocks[i + j], ks);
            j = j + 1;
        }
        i = i + W;
    }
    // Fewer than W blocks left.
    encrypt_tail(&keys, counter0, blocks, out, i);
}

/// Same result as [`encrypt_ctr`], with the data of each block kept in registers
/// throughout: the counter is held in native order and advanced by a word-wise
/// addition, one byte shuffle takes it to the AES state order and one takes the
/// keystream back, and the plaintext is XORed as a register.
///
/// `out` must be as long as `blocks`.
pub fn encrypt_ctr_pshufb<const W: usize>(
    rk: &[u32],
    counter0: [u32; 4],
    blocks: &[[u32; 4]],
    out: &mut [[u32; 4]],
)
    requires
        W > 0,
        rk.len() >= 44,
        old(out).len() == blocks.len(),
    ensures
        final(out).len() == blocks.len(),
        is_ctr(rk@, counter0@, blocks@, final(out)@, blocks.len() as int),
{
    let keys: [V128; 11] = round_keys(rk);
    let n: usize = blocks.len();
    let bswap: V128 = V128 { bytes: BYTE_SWAP };
    let step1: V128 = V128::from_words([0, 0, 0, 1]);
    // The counter for block i, in native order.
    let mut ctr: V128 = V128::from_words(counter0);
    let mut i: usize = 0;
    proof {
        assert([0u32, 0u32, 0u32, 1u32]@ =~= seq![0u32, 0u32, 0u32, 1u32]);
        assert(counter_at(counter0@, 0) =~= counter0@);
    }
    while n - i >= W
        invariant
            W > 0,
            are_round_keys(keys@, rk@),
            bswap@ == BYTE_SWAP@,
            step1@ == native_bytes(seq![0u32, 0u32, 0u32, 1u32]),
            ctr@ == native_bytes(counter_at(counter0@, i as int)),
            n == blocks.len(),
            n == out.len(),
            i <= n,
            is_ctr(rk@, counter0@, blocks@, out@, i as int),
        decreases n - i,
    {
        // Initial AddRoundKey for W counters, advancing the counter.
        let mut s: [V128; W] = [V128::zero(); W];
        let mut j: usize = 0;
        while j < W
            invariant
                bswap@ == BYTE_SWAP@,
                step1@ == native_bytes(seq![0u32, 0u32, 0u32, 1u32]),
                ctr@ == native_bytes(counter_at(counter0@, i + j)),
                j <= W,
                i + W <= n,
                forall|l: int|
                    0 <= l < j ==> #[trigger] s@[l]@ == add_round_key(
                        bytes_of(counter_at(counter0@, i + l)),
                        keys@[0]@,
                    ),
            decreases W - j,
        {
            proof {
                byte_swap_of_native(counter_at(counter0@, i + j));
                lemma_native_counter_step(counter0@, i + j, 1);
            }
            s[j] = ctr.shuffle(bswap).xor(keys[0]);
            ctr = ctr.add(step1);
            j = j + 1;
        }
        let s: [V128; W] = run_rounds(&keys, s);
        // XOR each keystream, swapped back to native order, into its block.
        let mut j: usize = 0;
        while j < W
            invariant
                are_round_keys(keys@, rk@),
                bswap@ == BYTE_SWAP@,
                n == blocks.len(),
                n == out.len(),
                j <= W,
                i + W <= n,
                forall|l: int|
                    0 <= l < W ==> #[trigger] s@[l]@ == ten_rounds(
                        keys@,
                        add_round_key(bytes_of(counter_at(counter0@, i + l)), keys@[0]@),
                    ),
                is_ctr(rk@, counter0@, blocks@, out@, i + j),
            decreases W - j,
        {
            let pt: V128 = V128::from_words(blocks[i + j]);
            let ks: V128 = s[j].shuffle(bswap);
            proof {
                lemma_ten_rounds(keys@, rk@, counter_at(counter0@, i + j));
                byte_swap_of_state(s@[j as int]@);
                lemma_native_xor(blocks@[i + j]@, ks@);
            }
            out[i + j] = pt.xor(ks).to_words();
            j = j + 1;
        }
        i = i + W;
    }
    // Fewer than W blocks left.
    encrypt_tail(&keys, counter0, blocks, out, i);
}

/// Like [`encrypt_ctr_pshufb`], with the work fanned across the cores. The result
/// is the same; `out` must be as long as `blocks`.
pub fn encrypt_ctr_pshufb_parallel<const W: usize>(
    rk: &[u32],
    counter0: [u32; 4],
    blocks: &[[u32; 4]],
    out: &mut [[u32; 4]],
)
    requires
        blocks.len() > 0 ==> W > 0 && rk.len() >= 44,
        old(out).len() == blocks.len(),
    ensures
        final(out).len() == blocks.len(),
        is_ctr(rk@, counter0@, blocks@, final(out)@, blocks.len() as int),
{
    encrypt_ctr_parallel::<W>(Kernel::Pshufb, rk, counter0, blocks, out)
}

} // verus!
