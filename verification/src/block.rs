//! The AES-128 key schedule and the table-based encryption of one block.
//!
//! [`encrypt_block`] uses the four T-tables for the rounds 1 to 9 and the S-box
//! for the last round. Every backend of this library that works by table lookup
//! goes through it.

use crate::bits::lemma_word_of_bytes;
use crate::lookup::lookup_cipher_is_aes;
use crate::model::{
    are_aes_tables, encrypt_words, key_schedule, lookup_cipher, lookup_rounds, rot_word, sbox,
    schedule_word, sub_word, word,
};
use crate::tables::{rcon_of, sbox_of};
use vstd::prelude::*;

verus! {

/// FIPS-197 known answers (Appendix B, then Appendix C.1), each as plaintext,
/// key and ciphertext, in big-endian words.
pub const KAT_VECTORS: [([u32; 4], [u32; 4], [u32; 4]); 2] = [
    (
        [0x3243F6A8, 0x885A308D, 0x313198A2, 0xE0370734],
        [0x2B7E1516, 0x28AED2A6, 0xABF71588, 0x09CF4F3C],
        [0x3925841D, 0x02DC09FB, 0xDC118597, 0x196A0B32],
    ),
    (
        [0x00112233, 0x44556677, 0x8899AABB, 0xCCDDEEFF],
        [0x00010203, 0x04050607, 0x08090A0B, 0x0C0D0E0F],
        [0x69C4E0D8, 0x6A7B0430, 0xD8CDB780, 0x70B4C55A],
    ),
];

/// RotWord is a rotation, and XOR with a round constant touches one byte.
proof fn lemma_rot_word(w: u32, b: u8)
    by (bit_vector)
    ensures
        rot_word(w) == (w << 8) | (w >> 24),
        ((b as u32) << 24) == word(b, 0, 0, 0),
{
}

/// RotWord of the key schedule.
fn rotate_word(w: u32) -> (r: u32)
    ensures
        r == rot_word(w),
{
    proof {
        lemma_rot_word(w, 0);
    }
    (w << 8) | (w >> 24)
}

/// SubWord of the key schedule.
fn substitute_word(w: u32) -> (r: u32)
    ensures
        r == sub_word(w),
{
    proof {
        lemma_word_of_bytes(w);
    }
    let b0: u8 = sbox_of((w >> 24) as u8);
    let b1: u8 = sbox_of(((w >> 16) & 0xff) as u8);
    let b2: u8 = sbox_of(((w >> 8) & 0xff) as u8);
    let b3: u8 = sbox_of((w & 0xff) as u8);
    ((b0 as u32) << 24) | ((b1 as u32) << 16) | ((b2 as u32) << 8) | (b3 as u32)
}

/// Expand the 4 key words into 44 round-key words.
pub fn key_expansion(key: [u32; 4]) -> (w: [u32; 44])
    ensures
        w@ == key_schedule(key@),
{
    let mut w: [u32; 44] = [0u32; 44];
    w[0] = key[0];
    w[1] = key[1];
    w[2] = key[2];
    w[3] = key[3];
    let mut i: usize = 4;
    while i < 44
        invariant
            4 <= i <= 44,
            forall|j: int| 0 <= j < i ==> #[trigger] w@[j] == schedule_word(key@, j as nat),
        decreases 44 - i,
    {
        let mut temp: u32 = w[i - 1];
        if i % 4 == 0 {
            let rcon: u8 = rcon_of(i / 4 - 1);
            proof {
                lemma_rot_word(0, rcon);
            }
            temp = substitute_word(rotate_word(temp)) ^ ((rcon as u32) << 24);
        }
        w[i] = w[i - 4] ^ temp;
        i = i + 1;
    }
    w
}

/// Encrypt one AES-128 block.
///
/// - `pt`: 4 words of plaintext (big-endian within each word).
/// - `rk`: 44 expanded round-key words.
/// - `t0..t3`: the four T-tables (256 words each).
/// - `sbox`: the S-box (256 words) for the last round.
///
/// Returns the 4 ciphertext words.
pub fn encrypt_block(
    pt: [u32; 4],
    rk: &[u32],
    t0: &[u32],
    t1: &[u32],
    t2: &[u32],
    t3: &[u32],
    sbox: &[u32],
) -> (ct: [u32; 4])
    requires
        rk.len() >= 44,
        t0.len() >= 256,
        t1.len() >= 256,
        t2.len() >= 256,
        t3.len() >= 256,
        sbox.len() >= 256,
    ensures
        ct@ == lookup_cipher(rk@, pt@, t0@, t1@, t2@, t3@, sbox@),
        are_aes_tables(t0@, t1@, t2@, t3@, sbox@) ==> ct@ == encrypt_words(rk@, pt@),
{
    // Initial AddRoundKey.
    let mut s0: u32 = pt[0] ^ rk[0];
    let mut s1: u32 = pt[1] ^ rk[1];
    let mut s2: u32 = pt[2] ^ rk[2];
    let mut s3: u32 = pt[3] ^ rk[3];

    // Rounds 1..=9: table-based SubBytes+ShiftRows+MixColumns+AddRoundKey.
    let mut round: usize = 1;
    assert(seq![s0, s1, s2, s3] =~= lookup_rounds(rk@, pt@, t0@, t1@, t2@, t3@, 0));
    while round < 10
        invariant
            1 <= round <= 10,
            rk.len() >= 44,
            t0.len() >= 256,
            t1.len() >= 256,
            t2.len() >= 256,
            t3.len() >= 256,
            seq![s0, s1, s2, s3] == lookup_rounds(
                rk@,
                pt@,
                t0@,
                t1@,
                t2@,
                t3@,
                (round - 1) as nat,
            ),
        decreases 10 - round,
    {
        let ghost s = seq![s0, s1, s2, s3];
        proof {
            lemma_word_of_bytes(s0);
            lemma_word_of_bytes(s1);
            lemma_word_of_bytes(s2);
            lemma_word_of_bytes(s3);
        }
        let k: usize = round * 4;
        let n0: u32 = t0[(s0 >> 24) as usize] ^ t1[((s1 >> 16) & 0xff) as usize] ^ t2[((s2 >> 8)
            & 0xff) as usize] ^ t3[(s3 & 0xff) as usize] ^ rk[k];
        let n1: u32 = t0[(s1 >> 24) as usize] ^ t1[((s2 >> 16) & 0xff) as usize] ^ t2[((s3 >> 8)
            & 0xff) as usize] ^ t3[(s0 & 0xff) as usize] ^ rk[k + 1];
        let n2: u32 = t0[(s2 >> 24) as usize] ^ t1[((s3 >> 16) & 0xff) as usize] ^ t2[((s0 >> 8)
            & 0xff) as usize] ^ t3[(s1 & 0xff) as usize] ^ rk[k + 2];
        let n3: u32 = t0[(s3 >> 24) as usize] ^ t1[((s0 >> 16) & 0xff) as usize] ^ t2[((s1 >> 8)
            & 0xff) as usize] ^ t3[(s2 & 0xff) as usize] ^ rk[k + 3];
        s0 = n0;
        s1 = n1;
        s2 = n2;
        s3 = n3;
        assert(seq![s0, s1, s2, s3] =~= lookup_rounds(
            rk@,
            pt@,
            t0@,
            t1@,
            t2@,
            t3@,
            round as nat,
        ));
        round = round + 1;
    }

    proof {
        lemma_word_of_bytes(s0);
        lemma_word_of_bytes(s1);
        lemma_word_of_bytes(s2);
        lemma_word_of_bytes(s3);
    }
    // Last round: SubBytes + ShiftRows + AddRoundKey (no MixColumns).
    let o0: u32 = (sbox[(s0 >> 24) as usize] << 24) | (sbox[((s1 >> 16) & 0xff) as usize] << 16) | (
    sbox[((s2 >> 8) & 0xff) as usize] << 8) | sbox[(s3 & 0xff) as usize];
    let o1: u32 = (sbox[(s1 >> 24) as usize] << 24) | (sbox[((s2 >> 16) & 0xff) as usize] << 16) | (
    sbox[((s3 >> 8) & 0xff) as usize] << 8) | sbox[(s0 & 0xff) as usize];
    let o2: u32 = (sbox[(s2 >> 24) as usize] << 24) | (sbox[((s3 >> 16) & 0xff) as usize] << 16) | (
    sbox[((s0 >> 8) & 0xff) as usize] << 8) | sbox[(s1 & 0xff) as usize];
    let o3: u32 = (sbox[(s3 >> 24) as usize] << 24) | (sbox[((s0 >> 16) & 0xff) as usize] << 16) | (
    sbox[((s1 >> 8) & 0xff) as usize] << 8) | sbox[(s2 & 0xff) as usize];
    let ct: [u32; 4] = [o0 ^ rk[40], o1 ^ rk[41], o2 ^ rk[42], o3 ^ rk[43]];
    proof {
        reveal(lookup_cipher);
        assert(ct@ =~= lookup_cipher(rk@, pt@, t0@, t1@, t2@, t3@, sbox@));
        if are_aes_tables(t0@, t1@, t2@, t3@, sbox@) {
            lookup_cipher_is_aes(rk@, pt@, t0@, t1@, t2@, t3@, sbox@);
        }
    }
    ct
}

} // verus!
