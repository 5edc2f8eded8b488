//! Counter mode on one block: `ct = pt ^ E(rk, counter0 + i)`, where the last
//! 32-bit word of the counter block is advanced by `i` modulo 2^32 and the other
//! words are kept (the increment of NIST SP 800-38A).

use crate::block::encrypt_block;
use crate::model::{are_aes_tables, counter_at, ctr_block, lookup_cipher, xor_words};
use vstd::prelude::*;

verus! {

/// NIST SP 800-38A F.5.1 (CTR-AES128.Encrypt): key, initial counter block,
/// plaintext blocks and ciphertext blocks, in big-endian words.
pub const CTR_KAT: ([u32; 4], [u32; 4], [[u32; 4]; 4], [[u32; 4]; 4]) = (
    [0x2b7e1516, 0x28aed2a6, 0xabf71588, 0x09cf4f3c],
    [0xf0f1f2f3, 0xf4f5f6f7, 0xf8f9fafb, 0xfcfdfeff],
    [
        [0x6bc1bee2, 0x2e409f96, 0xe93d7e11, 0x7393172a],
        [0xae2d8a57, 0x1e03ac9c, 0x9eb76fac, 0x45af8e51],
        [0x30c81c46, 0xa35ce411, 0xe5fbc119, 0x1a0a52ef],
        [0xf69f2445, 0xdf4f9b17, 0xad2b417b, 0xe66c3710],
    ],
    [
        [0x874d6191, 0xb620e326, 0x1bef6864, 0x990db6ce],
        [0x9806f66b, 0x7970fdff, 0x8617187b, 0xb9fffdff],
        [0x5ae4df3e, 0xdbd5d35e, 0x5b4f0902, 0x0db03eab],
        [0x1e031dda, 0x2fbe03d1, 0x792170a0, 0xf3009cee],
    ],
);

/// A known answer of counter mode.
#[derive(Clone, Copy, Debug)]
pub struct CtrKat {
    /// The key.
    pub key: [u32; 4],
    /// The initial counter block.
    pub counter0: [u32; 4],
    /// The plaintext blocks.
    pub plaintext: [[u32; 4]; 4],
    /// The ciphertext blocks.
    pub ciphertext: [[u32; 4]; 4],
}

/// [`CTR_KAT`] with its parts named.
pub fn ctr_kat() -> (kat: CtrKat)
    ensures
        (kat.key, kat.counter0, kat.plaintext, kat.ciphertext) == CTR_KAT,
{
    let (key, counter0, plaintext, ciphertext) = CTR_KAT;
    CtrKat { key, counter0, plaintext, ciphertext }
}

/// Truncation to a 32-bit word keeps the value modulo 2^32.
pub proof fn lemma_truncate(i: usize)
    ensures
        (i as u32) as int == (i as int) % 0x1_0000_0000,
{
    let j = i as u64;
    assert((j as u32) as u64 == j % 0x1_0000_0000) by (bit_vector);
}

/// Advancing a counter twice advances it by the sum: the part of a message that
/// starts at block `a` is a message of its own, whose counter starts at `a`.
pub proof fn counter_at_composes(counter0: Seq<u32>, a: int, b: int)
    requires
        counter0.len() == 4,
    ensures
        counter_at(counter_at(counter0, a), b) == counter_at(counter0, a + b),
{
    assert(((counter0[3] + a) % 0x1_0000_0000 + b) % 0x1_0000_0000 == (counter0[3] + a + b)
        % 0x1_0000_0000);
    assert(counter_at(counter_at(counter0, a), b) =~= counter_at(counter0, a + b));
}

/// Advancing by `k` modulo 2^32 advances by `k`.
pub proof fn lemma_counter_wraps(counter0: Seq<u32>, a: int, k: int)
    ensures
        counter_at(counter0, a + k % 0x1_0000_0000) == counter_at(counter0, a + k),
{
    assert((counter0[3] + (a + k % 0x1_0000_0000)) % 0x1_0000_0000 == (counter0[3] + (a + k))
        % 0x1_0000_0000);
}

/// The counter block for position `idx`: `counter0` with its low 32-bit word
/// advanced by `idx`.
pub fn counter_block(counter0: [u32; 4], idx: u32) -> (c: [u32; 4])
    ensures
        c@ == counter_at(counter0@, idx as int),
{
    let c: [u32; 4] = [counter0[0], counter0[1], counter0[2], counter0[3].wrapping_add(idx)];
    assert(c@ =~= counter_at(counter0@, idx as int));
    c
}

/// The counter block for position `i`, of which the low 32 bits count.
pub fn counter_block_at(counter0: [u32; 4], i: usize) -> (c: [u32; 4])
    ensures
        c@ == counter_at(counter0@, i as int),
{
    proof {
        lemma_truncate(i);
        lemma_counter_wraps(counter0@, 0, i as int);
    }
    counter_block(counter0, i as u32)
}

/// The word-wise XOR of two blocks.
pub fn xor_blocks(a: [u32; 4], b: [u32; 4]) -> (r: [u32; 4])
    ensures
        r@ == xor_words(a@, b@),
{
    let r: [u32; 4] = [a[0] ^ b[0], a[1] ^ b[1], a[2] ^ b[2], a[3] ^ b[3]];
    assert(r@ =~= xor_words(a@, b@));
    r
}

/// Encrypt the block at position `idx` in counter mode: `pt` XOR the encryption
/// of `counter0` advanced by `idx`.
///
/// `rk`, `t0..t3` and `sbox` are those of [`encrypt_block`].
pub fn encrypt_ctr_block(
    counter0: [u32; 4],
    idx: u32,
    pt: [u32; 4],
    rk: &[u32],
    t0: &[u32],
    t1: &[u32],
    t2: &[u32],
    t3: &[u32],
    sbox: &[u32],
) -> (ct: [u32; 4])
    requires
        rk.len() >= 44,
        t0.len() >= 256,
        t1.len() >= 256,
        t2.len() >= 256,
        t3.len() >= 256,
        sbox.len() >= 256,
    ensures
        ct@ == xor_words(
            pt@,
            lookup_cipher(
                rk@,
                counter_at(counter0@, idx as int),
                t0@,
                t1@,
                t2@,
                t3@,
                sbox@,
            ),
        ),
        are_aes_tables(t0@, t1@, t2@, t3@, sbox@) ==> ct@ == ctr_block(
            rk@,
            counter0@,
            idx as int,
            pt@,
        ),
{
    let ks: [u32; 4] = encrypt_block(counter_block(counter0, idx), rk, t0, t1, t2, t3, sbox);
    xor_blocks(pt, ks)
}

} // verus!
