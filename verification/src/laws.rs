//! What holds of AES-128 and of counter mode as a whole.

use crate::bits::{lemma_bytes_of_words, lemma_words_of_bytes, lemma_xor_bytes, lemma_xor_words};
use crate::field::{gf_inv, gf_inv_is_involution, lemma_mul_xtime, xtime};
use crate::model::{
    add_round_key, affine, bytes_of, cipher, counter_at, ctr_block, encrypt_words, is_ctr,
    key_schedule, mix_byte, mix_columns, round_key, rounds, sbox, shift_rows, sub_bytes,
};
use crate::table_entries::lemma_sbox;
use crate::tables::SBOX;
use vstd::prelude::*;

verus! {

// ---------------------------------------------------------------------------
// The S-box.
// ---------------------------------------------------------------------------

/// The affine transform has an inverse.
proof fn lemma_affine_inverse(b: u8)
    by (bit_vector)
    ensures
        ({
            let a = affine(b);
            ((a << 1) | (a >> 7)) ^ ((a << 3) | (a >> 5)) ^ ((a << 6) | (a >> 2)) ^ 0x05
        }) == b,
        affine(((b << 1) | (b >> 7)) ^ ((b << 3) | (b >> 5)) ^ ((b << 6) | (b >> 2)) ^ 0x05) == b,
{
}

/// The S-box is a permutation of the bytes: different inputs have different
/// outputs, and every byte is an output.
pub proof fn sbox_is_permutation(x: u8, y: u8)
    ensures
        sbox(x) == sbox(y) ==> x == y,
        exists|z: u8| sbox(z) == y,
{
    reveal(sbox);
    lemma_affine_inverse(gf_inv(x));
    lemma_affine_inverse(gf_inv(y));
    gf_inv_is_involution(x);
    gf_inv_is_involution(y);
    lemma_affine_inverse(y);
    let b = ((y << 1) | (y >> 7)) ^ ((y << 3) | (y >> 5)) ^ ((y << 6) | (y >> 2)) ^ 0x05;
    gf_inv_is_involution(b);
    assert(sbox(gf_inv(b)) == y);
}

/// No value occurs twice in the constant `SBOX`.
pub proof fn sbox_constant_has_no_duplicates(i: int, j: int)
    requires
        0 <= i < j < 256,
    ensures
        SBOX@[i] != SBOX@[j],
{
    let (x, y) = (i as u8, j as u8);
    lemma_sbox();
    sbox_is_permutation(x, y);
    assert(SBOX@[x as int] == sbox(x));
    assert(SBOX@[y as int] == sbox(y));
}

// ---------------------------------------------------------------------------
// The block cipher is injective.
// ---------------------------------------------------------------------------

/// The MixColumns matrix is invertible.
proof fn lemma_mix_invertible(
    a0: u8,
    a1: u8,
    a2: u8,
    a3: u8,
    m0: u8,
    m1: u8,
    m2: u8,
    m3: u8,
)
    by (bit_vector)
    requires
        m0 == xtime(a0) ^ (xtime(a1) ^ a1) ^ a2 ^ a3,
        m1 == a0 ^ xtime(a1) ^ (xtime(a2) ^ a2) ^ a3,
        m2 == a0 ^ a1 ^ xtime(a2) ^ (xtime(a3) ^ a3),
        m3 == (xtime(a0) ^ a0) ^ a1 ^ a2 ^ xtime(a3),
    ensures
        a0 == unmix(m0, m1, m2, m3),
        a1 == unmix(m1, m2, m3, m0),
        a2 == unmix(m2, m3, m0, m1),
        a3 == unmix(m3, m0, m1, m2),
{
}

/// 14 * m0 + 11 * m1 + 13 * m2 + 9 * m3 in GF(2^8): a row of the inverse of the
/// MixColumns matrix.
spec fn unmix(m0: u8, m1: u8, m2: u8, m3: u8) -> u8 {
    xtime(xtime(xtime(m0 ^ m1 ^ m2 ^ m3) ^ m0 ^ m2) ^ m0 ^ m1) ^ m1 ^ m2 ^ m3
}

/// A mixed column determines the column.
proof fn lemma_mix_byte_injective(
    a0: u8,
    a1: u8,
    a2: u8,
    a3: u8,
    b0: u8,
    b1: u8,
    b2: u8,
    b3: u8,
)
    requires
        mix_byte(a0, a1, a2, a3, 0) == mix_byte(b0, b1, b2, b3, 0),
        mix_byte(a0, a1, a2, a3, 1) == mix_byte(b0, b1, b2, b3, 1),
        mix_byte(a0, a1, a2, a3, 2) == mix_byte(b0, b1, b2, b3, 2),
        mix_byte(a0, a1, a2, a3, 3) == mix_byte(b0, b1, b2, b3, 3),
    ensures
        a0 == b0,
        a1 == b1,
        a2 == b2,
        a3 == b3,
{
    lemma_mul_xtime(a0, 0);
    lemma_mul_xtime(a1, 0);
    lemma_mul_xtime(a2, 0);
    lemma_mul_xtime(a3, 0);
    lemma_mul_xtime(b0, 0);
    lemma_mul_xtime(b1, 0);
    lemma_mul_xtime(b2, 0);
    lemma_mul_xtime(b3, 0);
    let m0 = mix_byte(a0, a1, a2, a3, 0);
    let m1 = mix_byte(a0, a1, a2, a3, 1);
    let m2 = mix_byte(a0, a1, a2, a3, 2);
    let m3 = mix_byte(a0, a1, a2, a3, 3);
    lemma_mix_invertible(a0, a1, a2, a3, m0, m1, m2, m3);
    lemma_mix_invertible(b0, b1, b2, b3, m0, m1, m2, m3);
}

proof fn lemma_add_round_key_injective(s: Seq<u8>, t: Seq<u8>, k: Seq<u8>)
    requires
        s.len() == 16,
        t.len() == 16,
        add_round_key(s, k) == add_round_key(t, k),
    ensures
        s == t,
{
    lemma_xor_bytes();
    assert forall|i: int| 0 <= i < 16 implies s[i] == t[i] by {
        assert(add_round_key(s, k)[i] == s[i] ^ k[i]);
        assert(add_round_key(t, k)[i] == t[i] ^ k[i]);
        assert((s[i] ^ k[i]) ^ k[i] == (t[i] ^ k[i]) ^ k[i]);
    }
    assert(s =~= t);
}

proof fn lemma_sub_bytes_injective(s: Seq<u8>, t: Seq<u8>)
    requires
        s.len() == 16,
        t.len() == 16,
        sub_bytes(s) == sub_bytes(t),
    ensures
        s == t,
{
    assert forall|i: int| 0 <= i < 16 implies s[i] == t[i] by {
        assert(sub_bytes(s)[i] == sbox(s[i]));
        assert(sub_bytes(t)[i] == sbox(t[i]));
        sbox_is_permutation(s[i], t[i]);
    }
    assert(s =~= t);
}

proof fn lemma_shift_rows_injective(s: Seq<u8>, t: Seq<u8>)
    requires
        s.len() == 16,
        t.len() == 16,
        shift_rows(s) == shift_rows(t),
    ensures
        s == t,
{
    assert forall|i: int| 0 <= i < 16 implies s[i] == t[i] by {
        // The place that byte `i` moves to.
        let j = 4 * ((i / 4 + 4 - i % 4) % 4) + i % 4;
        assert(4 * ((j / 4 + j % 4) % 4) + j % 4 == i);
        assert(shift_rows(s)[j] == s[i]);
        assert(shift_rows(t)[j] == t[i]);
    }
    assert(s =~= t);
}

/// The bytes of column `c` after MixColumns.
proof fn lemma_mixed_column(s: Seq<u8>, c: int)
    requires
        0 <= c < 4,
    ensures
        forall|r: int|
            0 <= r < 4 ==> mix_columns(s)[4 * c + r] == #[trigger] mix_byte(
                s[4 * c],
                s[4 * c + 1],
                s[4 * c + 2],
                s[4 * c + 3],
                r,
            ),
{
    assert forall|r: int| 0 <= r < 4 implies mix_columns(s)[4 * c + r] == #[trigger] mix_byte(
        s[4 * c],
        s[4 * c + 1],
        s[4 * c + 2],
        s[4 * c + 3],
        r,
    ) by {
        assert((4 * c + r) / 4 == c && (4 * c + r) % 4 == r);
    }
}

proof fn lemma_mix_columns_injective(s: Seq<u8>, t: Seq<u8>)
    requires
        s.len() == 16,
        t.len() == 16,
        mix_columns(s) == mix_columns(t),
    ensures
        s == t,
{
    assert forall|i: int| 0 <= i < 16 implies s[i] == t[i] by {
        let c = i / 4;
        lemma_mixed_column(s, c);
        lemma_mixed_column(t, c);
        lemma_mix_byte_injective(
            s[4 * c],
            s[4 * c + 1],
            s[4 * c + 2],
            s[4 * c + 3],
            t[4 * c],
            t[4 * c + 1],
            t[4 * c + 2],
            t[4 * c + 3],
        );
    }
    assert(s =~= t);
}

proof fn lemma_rounds_injective(rk: Seq<u32>, s: Seq<u8>, t: Seq<u8>, n: nat)
    requires
        s.len() == 16,
        t.len() == 16,
        rounds(rk, s, n) == rounds(rk, t, n),
    ensures
        s == t,
    decreases n,
{
    let k = round_key(rk, n as int);
    if n == 0 {
        lemma_add_round_key_injective(s, t, k);
    } else {
        let a = rounds(rk, s, (n - 1) as nat);
        let b = rounds(rk, t, (n - 1) as nat);
        lemma_add_round_key_injective(
            mix_columns(shift_rows(sub_bytes(a))),
            mix_columns(shift_rows(sub_bytes(b))),
            k,
        );
        lemma_mix_columns_injective(shift_rows(sub_bytes(a)), shift_rows(sub_bytes(b)));
        lemma_shift_rows_injective(sub_bytes(a), sub_bytes(b));
        lemma_rounds_length(rk, s, (n - 1) as nat);
        lemma_rounds_length(rk, t, (n - 1) as nat);
        lemma_sub_bytes_injective(a, b);
        lemma_rounds_injective(rk, s, t, (n - 1) as nat);
    }
}

proof fn lemma_rounds_length(rk: Seq<u32>, s: Seq<u8>, n: nat)
    ensures
        rounds(rk, s, n).len() == 16,
{
}

/// Under one key schedule, different blocks have different encryptions.
pub proof fn encryption_is_injective(rk: Seq<u32>, a: Seq<u32>, b: Seq<u32>)
    requires
        a.len() == 4,
        b.len() == 4,
        encrypt_words(rk, a) == encrypt_words(rk, b),
    ensures
        a == b,
{
    reveal(encrypt_words);
    let (s, t) = (bytes_of(a), bytes_of(b));
    let (x, y) = (rounds(rk, s, 9), rounds(rk, t, 9));
    lemma_bytes_of_words(cipher(rk, s));
    lemma_bytes_of_words(cipher(rk, t));
    lemma_add_round_key_injective(
        shift_rows(sub_bytes(x)),
        shift_rows(sub_bytes(y)),
        round_key(rk, 10),
    );
    lemma_shift_rows_injective(sub_bytes(x), sub_bytes(y));
    lemma_rounds_length(rk, s, 9);
    lemma_rounds_length(rk, t, 9);
    lemma_sub_bytes_injective(x, y);
    lemma_rounds_injective(rk, s, t, 9);
    lemma_words_of_bytes(a);
    lemma_words_of_bytes(b);
}

/// The key schedule starts with the key itself.
pub proof fn key_schedule_starts_with_key(key: Seq<u32>)
    requires
        key.len() == 4,
    ensures
        key_schedule(key).len() == 44,
        key_schedule(key).subrange(0, 4) == key,
{
    assert(key_schedule(key).subrange(0, 4) =~= key);
}

// ---------------------------------------------------------------------------
// Counter mode.
// ---------------------------------------------------------------------------

/// Counter mode undoes itself: encrypting a ciphertext block with the same key,
/// counter and position gives the plaintext block back.
pub proof fn ctr_undoes_itself(rk: Seq<u32>, counter0: Seq<u32>, i: int, block: Seq<u32>)
    requires
        block.len() == 4,
    ensures
        ctr_block(rk, counter0, i, ctr_block(rk, counter0, i, block)) == block,
{
    lemma_xor_words();
    assert(ctr_block(rk, counter0, i, ctr_block(rk, counter0, i, block)) =~= block);
}

/// Encrypting twice gives the message back: if `ct` is `pt` in counter mode and
/// `back` is `ct` in counter mode, under the same key and counter, then `back`
/// is `pt`.
pub proof fn ctr_decrypts(
    rk: Seq<u32>,
    counter0: Seq<u32>,
    pt: Seq<[u32; 4]>,
    ct: Seq<[u32; 4]>,
    back: Seq<[u32; 4]>,
)
    requires
        ct.len() == pt.len(),
        back.len() == pt.len(),
        is_ctr(rk, counter0, pt, ct, pt.len() as int),
        is_ctr(rk, counter0, ct, back, pt.len() as int),
    ensures
        back == pt,
{
    assert forall|i: int| 0 <= i < pt.len() implies back[i] == pt[i] by {
        assert(ct[i]@ == ctr_block(rk, counter0, i, pt[i]@));
        assert(back[i]@ == ctr_block(rk, counter0, i, ct[i]@));
        ctr_undoes_itself(rk, counter0, i, pt[i]@);
        assert(back[i] =~= pt[i]);
    }
    assert(back =~= pt);
}

/// Counter mode has one result: all kernels, at every width and on any number of
/// threads, agree on it.
pub proof fn ctr_has_one_result(
    rk: Seq<u32>,
    counter0: Seq<u32>,
    blocks: Seq<[u32; 4]>,
    a: Seq<[u32; 4]>,
    b: Seq<[u32; 4]>,
)
    requires
        a.len() == blocks.len(),
        b.len() == blocks.len(),
        is_ctr(rk, counter0, blocks, a, blocks.len() as int),
        is_ctr(rk, counter0, blocks, b, blocks.len() as int),
    ensures
        a == b,
{
    assert forall|i: int| 0 <= i < blocks.len() implies a[i] == b[i] by {
        assert(a[i]@ == b[i]@);
        assert(a[i] =~= b[i]);
    }
    assert(a =~= b);
}

/// Counter mode on a zero block at position 0 is the encryption of the counter
/// block.
pub proof fn ctr_of_zero_is_the_cipher(rk: Seq<u32>, counter0: Seq<u32>)
    requires
        counter0.len() == 4,
    ensures
        ctr_block(rk, counter0, 0, seq![0u32, 0u32, 0u32, 0u32]) == encrypt_words(rk, counter0),
{
    reveal(encrypt_words);
    lemma_xor_words();
    assert(counter_at(counter0, 0) =~= counter0);
    assert(ctr_block(rk, counter0, 0, seq![0u32, 0u32, 0u32, 0u32]) =~= encrypt_words(
        rk,
        counter0,
    ));
}

/// Within 2^32 blocks no counter block, and so no keystream block, comes twice.
pub proof fn keystream_does_not_repeat(rk: Seq<u32>, counter0: Seq<u32>, i: int, j: int)
    requires
        counter0.len() == 4,
        i < j < i + 0x1_0000_0000,
    ensures
        counter_at(counter0, i) != counter_at(counter0, j),
        encrypt_words(rk, counter_at(counter0, i)) != encrypt_words(rk, counter_at(counter0, j)),
{
    let (a, b) = (counter_at(counter0, i), counter_at(counter0, j));
    assert(a[3] != b[3]);
    if encrypt_words(rk, a) == encrypt_words(rk, b) {
        encryption_is_injective(rk, a, b);
    }
}

} // verus!
