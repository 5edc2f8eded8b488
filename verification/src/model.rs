//! The mathematical model of AES-128 (FIPS-197) and of counter mode
//! (NIST SP 800-38A), over which every contract of this library is stated.
//!
//! A state is a sequence of sixteen bytes in column order: byte `4 * c + r` is
//! row `r` of column `c`. A block of four 32-bit words stands for the state
//! whose column `c` is word `c`, most significant byte first.

use crate::field::{gf_inv, gf_mul};
use vstd::prelude::*;

verus! {

// ---------------------------------------------------------------------------
// Words and bytes.
// ---------------------------------------------------------------------------

/// The word with these four bytes, most significant first.
pub open spec fn word(b0: u8, b1: u8, b2: u8, b3: u8) -> u32 {
    ((b0 as u32) << 24) | ((b1 as u32) << 16) | ((b2 as u32) << 8) | (b3 as u32)
}

/// Byte `r` of a word, byte 0 being the most significant.
pub open spec fn byte_at(w: u32, r: int) -> u8 {
    if r == 0 {
        (w >> 24) as u8
    } else if r == 1 {
        (w >> 16) as u8
    } else if r == 2 {
        (w >> 8) as u8
    } else {
        w as u8
    }
}

/// The state that four words stand for.
pub open spec fn bytes_of(words: Seq<u32>) -> Seq<u8> {
    Seq::new(16, |i: int| byte_at(words[i / 4], i % 4))
}

/// The four words that stand for a state.
pub open spec fn words_of(state: Seq<u8>) -> Seq<u32> {
    Seq::new(
        4,
        |c: int| word(state[4 * c], state[4 * c + 1], state[4 * c + 2], state[4 * c + 3]),
    )
}

/// A word rotated right by `r` bits.
pub open spec fn rotr(w: u32, r: u32) -> u32 {
    let k = r % 32;
    if k == 0 {
        w
    } else {
        (w >> k) | (w << ((32 - k) as u32))
    }
}

/// The word-wise sum of two blocks.
pub open spec fn xor_words(a: Seq<u32>, b: Seq<u32>) -> Seq<u32> {
    Seq::new(4, |k: int| a[k] ^ b[k])
}

// ---------------------------------------------------------------------------
// The S-box, the round constants and the T-tables.
// ---------------------------------------------------------------------------

/// A byte rotated left by `k` bits (1 <= k <= 7).
pub open spec fn rotl8(b: u8, k: u8) -> u8 {
    (b << k) | (b >> ((8 - k) as u8))
}

/// The AES affine transform.
pub open spec fn affine(b: u8) -> u8 {
    b ^ rotl8(b, 1) ^ rotl8(b, 2) ^ rotl8(b, 3) ^ rotl8(b, 4) ^ 0x63
}

/// The AES S-box: inversion in GF(2^8) followed by the affine transform.
#[verifier::opaque]
pub open spec fn sbox(x: u8) -> u8 {
    affine(gf_inv(x))
}

/// The power x^i (the byte 2 to the power `i`) in GF(2^8).
pub open spec fn x_power(i: nat) -> u8
    decreases i,
{
    if i == 0 {
        1
    } else {
        gf_mul(x_power((i - 1) as nat), 2)
    }
}

/// Entry `x` of the T-table T0: the column that MixColumns makes of the S-box
/// output in row 0.
pub open spec fn t0_entry(x: u8) -> u32 {
    word(gf_mul(sbox(x), 2), sbox(x), sbox(x), gf_mul(sbox(x), 3))
}

/// Entry `x` of the T-table for row `r`: T0 rotated right by `r` bytes.
pub open spec fn t_entry(r: u32, x: u8) -> u32 {
    rotr(t0_entry(x), (8 * r) as u32)
}

// ---------------------------------------------------------------------------
// The rounds.
// ---------------------------------------------------------------------------

/// SubBytes: the S-box on every byte.
pub open spec fn sub_bytes(s: Seq<u8>) -> Seq<u8> {
    Seq::new(16, |i: int| sbox(s[i]))
}

/// ShiftRows: row `r` moves left by `r` columns.
pub open spec fn shift_rows(s: Seq<u8>) -> Seq<u8> {
    Seq::new(16, |i: int| s[4 * ((i / 4 + i % 4) % 4) + i % 4])
}

/// Row `r` of the column that MixColumns makes of the column `a0, a1, a2, a3`.
pub open spec fn mix_byte(a0: u8, a1: u8, a2: u8, a3: u8, r: int) -> u8 {
    if r == 0 {
        gf_mul(a0, 2) ^ gf_mul(a1, 3) ^ a2 ^ a3
    } else if r == 1 {
        a0 ^ gf_mul(a1, 2) ^ gf_mul(a2, 3) ^ a3
    } else if r == 2 {
        a0 ^ a1 ^ gf_mul(a2, 2) ^ gf_mul(a3, 3)
    } else {
        gf_mul(a0, 3) ^ a1 ^ a2 ^ gf_mul(a3, 2)
    }
}

/// MixColumns: every column times the AES matrix.
pub open spec fn mix_columns(s: Seq<u8>) -> Seq<u8> {
    Seq::new(
        16,
        |i: int|
            mix_byte(
                s[4 * (i / 4)],
                s[4 * (i / 4) + 1],
                s[4 * (i / 4) + 2],
                s[4 * (i / 4) + 3],
                i % 4,
            ),
    )
}

/// AddRoundKey: the byte-wise sum.
pub open spec fn add_round_key(s: Seq<u8>, k: Seq<u8>) -> Seq<u8> {
    Seq::new(16, |i: int| s[i] ^ k[i])
}

/// One of the rounds 1 to 9.
pub open spec fn full_round(s: Seq<u8>, k: Seq<u8>) -> Seq<u8> {
    add_round_key(mix_columns(shift_rows(sub_bytes(s))), k)
}

/// The last round, which has no MixColumns.
pub open spec fn last_round(s: Seq<u8>, k: Seq<u8>) -> Seq<u8> {
    add_round_key(shift_rows(sub_bytes(s)), k)
}

/// Round key `r` of a key schedule of 44 words.
pub open spec fn round_key(rk: Seq<u32>, r: int) -> Seq<u8> {
    bytes_of(rk.subrange(4 * r, 4 * r + 4))
}

/// The state after the initial AddRoundKey and the rounds 1 to `n`.
pub open spec fn rounds(rk: Seq<u32>, s: Seq<u8>, n: nat) -> Seq<u8>
    decreases n,
{
    if n == 0 {
        add_round_key(s, round_key(rk, 0))
    } else {
        full_round(rounds(rk, s, (n - 1) as nat), round_key(rk, n as int))
    }
}

/// AES-128 on a state, under a key schedule of 44 words.
pub open spec fn cipher(rk: Seq<u32>, s: Seq<u8>) -> Seq<u8> {
    last_round(rounds(rk, s, 9), round_key(rk, 10))
}

/// AES-128 on a block of four words.
#[verifier::opaque]
pub open spec fn encrypt_words(rk: Seq<u32>, block: Seq<u32>) -> Seq<u32> {
    words_of(cipher(rk, bytes_of(block)))
}

// ---------------------------------------------------------------------------
// The same cipher by table lookup.
// ---------------------------------------------------------------------------

/// Word `c` of a round by table lookup: one table for each row of ShiftRows,
/// plus the word `k` of the round key.
pub open spec fn lookup_word(
    s: Seq<u32>,
    k: u32,
    t0: Seq<u32>,
    t1: Seq<u32>,
    t2: Seq<u32>,
    t3: Seq<u32>,
    c: int,
) -> u32 {
    t0[byte_at(s[c], 0) as int] ^ t1[byte_at(s[(c + 1) % 4], 1) as int] ^ t2[byte_at(
        s[(c + 2) % 4],
        2,
    ) as int] ^ t3[byte_at(s[(c + 3) % 4], 3) as int] ^ k
}

/// The words after the initial AddRoundKey and the rounds 1 to `n`, by table
/// lookup.
pub open spec fn lookup_rounds(
    rk: Seq<u32>,
    block: Seq<u32>,
    t0: Seq<u32>,
    t1: Seq<u32>,
    t2: Seq<u32>,
    t3: Seq<u32>,
    n: nat,
) -> Seq<u32>
    decreases n,
{
    if n == 0 {
        Seq::new(4, |c: int| block[c] ^ rk[c])
    } else {
        let s = lookup_rounds(rk, block, t0, t1, t2, t3, (n - 1) as nat);
        Seq::new(4, |c: int| lookup_word(s, rk[4 * n + c], t0, t1, t2, t3, c))
    }
}

/// Word `c` of the last round by table lookup.
pub open spec fn lookup_last_word(s: Seq<u32>, k: u32, sb: Seq<u32>, c: int) -> u32 {
    ((sb[byte_at(s[c], 0) as int] << 24) | (sb[byte_at(s[(c + 1) % 4], 1) as int] << 16) | (
    sb[byte_at(s[(c + 2) % 4], 2) as int] << 8) | sb[byte_at(s[(c + 3) % 4], 3) as int]) ^ k
}

/// What ten rounds of table lookup make of a block, for any tables.
#[verifier::opaque]
pub open spec fn lookup_cipher(
    rk: Seq<u32>,
    block: Seq<u32>,
    t0: Seq<u32>,
    t1: Seq<u32>,
    t2: Seq<u32>,
    t3: Seq<u32>,
    sb: Seq<u32>,
) -> Seq<u32> {
    let s = lookup_rounds(rk, block, t0, t1, t2, t3, 9);
    Seq::new(4, |c: int| lookup_last_word(s, rk[40 + c], sb, c))
}

/// The five tables are the AES tables.
#[verifier::opaque]
pub open spec fn are_aes_tables(
    t0: Seq<u32>,
    t1: Seq<u32>,
    t2: Seq<u32>,
    t3: Seq<u32>,
    sb: Seq<u32>,
) -> bool {
    &&& forall|x: u8| #[trigger] t0[x as int] == t0_entry(x)
    &&& forall|x: u8| #[trigger] t1[x as int] == t_entry(1, x)
    &&& forall|x: u8| #[trigger] t2[x as int] == t_entry(2, x)
    &&& forall|x: u8| #[trigger] t3[x as int] == t_entry(3, x)
    &&& forall|x: u8| #[trigger] sb[x as int] == sbox(x)
}

// ---------------------------------------------------------------------------
// The key schedule.
// ---------------------------------------------------------------------------

/// RotWord: the bytes of a word move up by one place.
pub open spec fn rot_word(w: u32) -> u32 {
    word(byte_at(w, 1), byte_at(w, 2), byte_at(w, 3), byte_at(w, 0))
}

/// SubWord: the S-box on every byte of a word.
pub open spec fn sub_word(w: u32) -> u32 {
    word(sbox(byte_at(w, 0)), sbox(byte_at(w, 1)), sbox(byte_at(w, 2)), sbox(byte_at(w, 3)))
}

/// Word `i` of the key schedule of a four-word key.
pub open spec fn schedule_word(key: Seq<u32>, i: nat) -> u32
    decreases i,
{
    if i < 4 {
        key[i as int]
    } else if i % 4 == 0 {
        schedule_word(key, (i - 4) as nat) ^ (sub_word(
            rot_word(schedule_word(key, (i - 1) as nat)),
        ) ^ word(x_power((i / 4 - 1) as nat), 0, 0, 0))
    } else {
        schedule_word(key, (i - 4) as nat) ^ schedule_word(key, (i - 1) as nat)
    }
}

/// The key schedule of a four-word key.
pub open spec fn key_schedule(key: Seq<u32>) -> Seq<u32> {
    Seq::new(44, |i: int| schedule_word(key, i as nat))
}

// ---------------------------------------------------------------------------
// Counter mode.
// ---------------------------------------------------------------------------

/// The counter block for position `i`: the last word of `counter0` advanced by
/// `i` modulo 2^32, the other words kept.
pub open spec fn counter_at(counter0: Seq<u32>, i: int) -> Seq<u32> {
    counter0.update(3, ((counter0[3] + i) % 0x1_0000_0000) as u32)
}

/// Counter mode on the block at position `i`.
pub open spec fn ctr_block(rk: Seq<u32>, counter0: Seq<u32>, i: int, block: Seq<u32>) -> Seq<u32> {
    xor_words(block, encrypt_words(rk, counter_at(counter0, i)))
}

/// The first `n` blocks of `out` are those of `blocks` in counter mode.
pub open spec fn is_ctr(
    rk: Seq<u32>,
    counter0: Seq<u32>,
    blocks: Seq<[u32; 4]>,
    out: Seq<[u32; 4]>,
    n: int,
) -> bool {
    forall|i: int|
        0 <= i < n ==> #[trigger] out[i]@ == ctr_block(rk, counter0, i, blocks[i]@)
}

/// The blocks of `after` from position `n` on are those of `before`.
pub open spec fn same_from(before: Seq<[u32; 4]>, after: Seq<[u32; 4]>, n: int) -> bool {
    &&& after.len() == before.len()
    &&& forall|i: int| n <= i < before.len() ==> #[trigger] after[i] == before[i]
}

} // verus!
