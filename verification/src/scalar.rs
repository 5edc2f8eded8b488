//! Portable AES-128 over a batch of blocks, by table lookup.

use crate::block::encrypt_block;
use crate::counter::{encrypt_ctr_block, lemma_counter_wraps, lemma_truncate};
use crate::model::{encrypt_words, is_ctr, same_from};
use crate::table_entries::constants_are_aes_tables;
use crate::tables::{SBOX_U32, T0, T1, T2, T3};
use vstd::prelude::*;

verus! {

/// Encrypt each block independently (ECB): `out[i] = AES-128(rk, blocks[i])`.
///
/// `rk` is the 44-word expanded key. `out` should be at least as long as
/// `blocks`; the blocks that it has no room for are skipped.
pub fn encrypt_blocks(rk: &[u32], blocks: &[[u32; 4]], out: &mut [[u32; 4]])
    requires
        blocks.len() > 0 && old(out).len() > 0 ==> rk.len() >= 44,
    ensures
        final(out)@.len() == old(out)@.len(),
        forall|i: int|
            0 <= i < blocks.len() && i < old(out).len() ==> #[trigger] final(out)@[i]@
                == encrypt_words(rk@, blocks@[i]@),
        same_from(old(out)@, final(out)@, blocks.len() as int),
{
    let n: usize = if out.len() < blocks.len() {
        out.len()
    } else {
        blocks.len()
    };
    let mut i: usize = 0;
    while i < n
        invariant
            n > 0 ==> rk.len() >= 44,
            n <= blocks.len(),
            n <= out.len(),
            i <= n,
            forall|j: int|
                0 <= j < i ==> #[trigger] out@[j]@ == encrypt_words(rk@, blocks@[j]@),
            same_from(old(out)@, out@, i as int),
        decreases n - i,
    {
        proof {
            constants_are_aes_tables();
        }
        out[i] = encrypt_block(blocks[i], rk, &T0, &T1, &T2, &T3, &SBOX_U32);
        i = i + 1;
    }
}

/// Encrypt `blocks` in counter mode: `out[i] = blocks[i] ^ E(rk, counter0 + i)`.
///
/// `rk` is the 44-word expanded key; `out` must be at least as long as `blocks`.
pub fn encrypt_ctr(
    rk: &[u32],
    counter0: [u32; 4],
    blocks: &[[u32; 4]],
    out: &mut [[u32; 4]],
)
    requires
        blocks.len() > 0 ==> rk.len() >= 44,
        old(out).len() >= blocks.len(),
    ensures
        is_ctr(rk@, counter0@, blocks@, final(out)@, blocks.len() as int),
        same_from(old(out)@, final(out)@, blocks.len() as int),
{
    let n: usize = blocks.len();
    let mut i: usize = 0;
    while i < n
        invariant
            n > 0 ==> rk.len() >= 44,
            n == blocks.len(),
            n <= out.len(),
            i <= n,
            is_ctr(rk@, counter0@, blocks@, out@, i as int),
            same_from(old(out)@, out@, i as int),
        decreases n - i,
    {
        proof {
            constants_are_aes_tables();
            lemma_truncate(i);
            lemma_counter_wraps(counter0@, 0, i as int);
        }
        out[i] = encrypt_ctr_block(
            counter0,
            i as u32,
            blocks[i],
            rk,
            &T0,
            &T1,
            &T2,
            &T3,
            &SBOX_U32,
        );
        i = i + 1;
    }
}

} // verus!
