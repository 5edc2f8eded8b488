//! What the operations compute, as equations between their inputs and results.
//!
//! These laws speak of the words and bytes of inputs and results themselves, with
//! integer arithmetic, XOR and the constant S-box, so that each of them can be held
//! against FIPS-197 and NIST SP 800-38A without the definitions of [`crate::model`].
//! A word with the bytes `b0, b1, b2, b3` is the number
//! `b0 * 2^24 + b1 * 2^16 + b2 * 2^8 + b3`.

use crate::aesni::are_round_keys;
use crate::bits::{
    lemma_bytes_of_word, lemma_bytes_of_xor, lemma_rotated_word, lemma_word_of_bytes,
};
use crate::field::{gf_inv, gf_inv_is_inverse, gf_mul, gf_mul_commutes, gf_mul_distributes, lemma_mul_xtime, xtime};
use crate::model::{
    add_round_key, affine, are_aes_tables, byte_at, bytes_of, cipher, counter_at, ctr_block,
    encrypt_words, full_round, is_ctr, key_schedule, last_round, lookup_cipher, lookup_last_word,
    lookup_rounds, lookup_word, mix_byte, mix_columns, rot_word, rotr, round_key, rounds,
    same_from, sbox, schedule_word, shift_rows, sub_bytes, sub_word, t0_entry, t_entry, word, words_of, x_power,
    xor_words,
};
use crate::register::{add_words, native_bytes, native_words, shuffle_bytes, V128};
use crate::table_entries::{constants_are_aes_tables, lemma_rcon, lemma_sbox, lemma_sbox_u32};
use crate::tables::{RCON, SBOX, SBOX_U32, T0, T1, T2, T3};
use vstd::prelude::*;

verus! {

// ---------------------------------------------------------------------------
// Words and bytes.
// ---------------------------------------------------------------------------

/// A word is the number that its four bytes spell, most significant first.
pub proof fn word_is_a_number(b0: u8, b1: u8, b2: u8, b3: u8)
    by (bit_vector)
    ensures
        word(b0, b1, b2, b3) == b0 * 0x100_0000 + b1 * 0x1_0000 + b2 * 0x100 + b3,
{
}

/// The four bytes of a word spell it.
pub proof fn bytes_spell_the_word(w: u32)
    ensures
        w == byte_at(w, 0) * 0x100_0000 + byte_at(w, 1) * 0x1_0000 + byte_at(w, 2) * 0x100
            + byte_at(w, 3),
{
    lemma_word_of_bytes(w);
    word_is_a_number(byte_at(w, 0), byte_at(w, 1), byte_at(w, 2), byte_at(w, 3));
}

/// Bytes that spell a word are its bytes.
proof fn lemma_spelled(w: u32, b0: u8, b1: u8, b2: u8, b3: u8)
    requires
        w == b0 * 0x100_0000 + b1 * 0x1_0000 + b2 * 0x100 + b3,
    ensures
        w == word(b0, b1, b2, b3),
        byte_at(w, 0) == b0,
        byte_at(w, 1) == b1,
        byte_at(w, 2) == b2,
        byte_at(w, 3) == b3,
{
    word_is_a_number(b0, b1, b2, b3);
    lemma_bytes_of_word(b0, b1, b2, b3);
}

/// Column `c` of the state of four words spells word `c`.
pub proof fn state_spells_the_words(words: Seq<u32>, c: int)
    requires
        words.len() == 4,
        0 <= c < 4,
    ensures
        bytes_of(words).len() == 16,
        words[c] == bytes_of(words)[4 * c] * 0x100_0000 + bytes_of(words)[4 * c + 1] * 0x1_0000
            + bytes_of(words)[4 * c + 2] * 0x100 + bytes_of(words)[4 * c + 3],
{
    bytes_spell_the_word(words[c]);
    assert((4 * c) / 4 == c && (4 * c + 1) / 4 == c && (4 * c + 2) / 4 == c && (4 * c + 3) / 4
        == c);
}

/// Word `c` of a state is what its column `c` spells.
pub proof fn words_are_spelled_by_the_state(state: Seq<u8>, c: int)
    requires
        state.len() == 16,
        0 <= c < 4,
    ensures
        words_of(state).len() == 4,
        words_of(state)[c] == state[4 * c] * 0x100_0000 + state[4 * c + 1] * 0x1_0000 + state[4
            * c + 2] * 0x100 + state[4 * c + 3],
{
    word_is_a_number(state[4 * c], state[4 * c + 1], state[4 * c + 2], state[4 * c + 3]);
}

/// A register in native order holds word `k` in its bytes `4 * k ..`, least
/// significant first.
pub proof fn register_spells_the_words(words: Seq<u32>, k: int)
    requires
        words.len() == 4,
        0 <= k < 4,
    ensures
        native_bytes(words).len() == 16,
        words[k] == native_bytes(words)[4 * k] + native_bytes(words)[4 * k + 1] * 0x100
            + native_bytes(words)[4 * k + 2] * 0x1_0000 + native_bytes(words)[4 * k + 3]
            * 0x100_0000,
{
    bytes_spell_the_word(words[k]);
    assert((4 * k) / 4 == k && (4 * k + 1) / 4 == k && (4 * k + 2) / 4 == k && (4 * k + 3) / 4
        == k);
}

/// Word `k` of a register in native order is spelled by its bytes `4 * k ..`, least
/// significant first.
pub proof fn words_are_spelled_by_the_register(v: Seq<u8>, k: int)
    requires
        v.len() == 16,
        0 <= k < 4,
    ensures
        native_words(v).len() == 4,
        native_words(v)[k] == v[4 * k] + v[4 * k + 1] * 0x100 + v[4 * k + 2] * 0x1_0000 + v[4 * k
            + 3] * 0x100_0000,
{
    word_is_a_number(v[4 * k + 3], v[4 * k + 2], v[4 * k + 1], v[4 * k]);
}

/// What a register shows are its bytes, in order.
pub proof fn register_shows_its_bytes(v: V128, i: int)
    requires
        0 <= i < 16,
    ensures
        v@.len() == 16,
        v@[i] == v.bytes@[i],
{
}

/// The sum of two blocks has word `k` equal to the XOR of their words `k`.
pub proof fn blocks_add_by_words(a: Seq<u32>, b: Seq<u32>, k: int)
    requires
        0 <= k < 4,
    ensures
        xor_words(a, b).len() == 4,
        xor_words(a, b)[k] == a[k] ^ b[k],
{
}

/// Word-wise addition adds word `k` to word `k`, and drops the carry out of it.
pub proof fn words_add_without_carry(a: Seq<u32>, b: Seq<u32>, k: int)
    requires
        0 <= k < 4,
    ensures
        add_words(a, b).len() == 4,
        add_words(a, b)[k] == a[k] + b[k] || add_words(a, b)[k] + 0x1_0000_0000 == a[k] + b[k],
{
}

/// The byte shuffle takes byte `i` from the place that the low four bits of mask
/// byte `i` name, or zero if the high bit of the mask byte is set.
pub proof fn shuffle_moves_bytes(v: Seq<u8>, mask: Seq<u8>, i: int)
    requires
        0 <= i < 16,
    ensures
        shuffle_bytes(v, mask).len() == 16,
        mask[i] >= 128 ==> shuffle_bytes(v, mask)[i] == 0,
        mask[i] < 128 ==> shuffle_bytes(v, mask)[i] == v[mask[i] as int % 16],
{
    let m = mask[i];
    assert((m & 0x80 != 0 <==> m >= 128) && m & 0x0f == m % 16) by (bit_vector);
}

/// A rotation by no bits changes nothing, and a rotation by one bit more moves the
/// lowest bit to the top and the others down by one.
pub proof fn rotation_by_one_bit_more(w: u32, r: u32)
    ensures
        rotr(w, 0) == w,
        r < u32::MAX ==> rotr(w, (r + 1) as u32) == rotr(w, r) / 2 + (rotr(w, r) % 2)
            * 0x8000_0000,
{
    assert(r < u32::MAX ==> rotr(w, (r + 1) as u32) == rotr(w, r) / 2 + (rotr(w, r) % 2)
        * 0x8000_0000) by (bit_vector);
}

// ---------------------------------------------------------------------------
// The field and the constants.
// ---------------------------------------------------------------------------

/// Doubling in GF(2^8): shift out the top bit, and subtract the modulus if it was
/// set.
proof fn lemma_double(a: u8)
    by (bit_vector)
    ensures
        xtime(a) == (if a < 128 {
            (2 * a) as u8
        } else {
            (2 * a - 256) as u8 ^ 0x1b
        }),
{
}

/// Multiplication in GF(2^8) has one as its unit, is additive in its second factor,
/// and doubles with it modulo x^8 + x^4 + x^3 + x + 1.
pub proof fn multiplication_by_doubling(a: u8, b: u8, c: u8)
    ensures
        gf_mul(a, 1) == a,
        gf_mul(a, b ^ c) == gf_mul(a, b) ^ gf_mul(a, c),
        b < 128 && gf_mul(a, b) < 128 ==> gf_mul(a, (2 * b) as u8) == 2 * gf_mul(a, b),
        b < 128 && gf_mul(a, b) >= 128 ==> gf_mul(a, (2 * b) as u8) == (2 * gf_mul(a, b) - 256)
            as u8 ^ 0x1b,
{
    gf_mul_distributes(a, b, c);
    lemma_mul_xtime(a, b);
    lemma_double(b);
    lemma_double(gf_mul(a, b));
}

/// Inversion maps zero to zero, and every other byte to the one whose product with
/// it is one.
pub proof fn inversion_gives_the_cofactor(a: u8, b: u8)
    ensures
        gf_inv(0) == 0,
        a != 0 && gf_mul(a, b) == 1 ==> gf_inv(a) == b,
        a != 0 ==> gf_mul(a, gf_inv(a)) == 1,
{
    if a != 0 {
        gf_inv_is_inverse(a, b);
    }
}

/// Bit `i` of the affine transform.
proof fn lemma_affine_bit(y: u8, i: u8)
    by (bit_vector)
    requires
        i < 8,
    ensures
        (affine(y) >> i) & 1 == ((y >> i) ^ (y >> ((i + 4) as u8 % 8)) ^ (y >> ((i + 5) as u8
            % 8)) ^ (y >> ((i + 6) as u8 % 8)) ^ (y >> ((i + 7) as u8 % 8)) ^ (0x63u8 >> i)) & 1,
{
}

/// Entry `x` of the S-box, bit by bit: bit `i` is the sum of the bits `i`, `i + 4`,
/// `i + 5`, `i + 6` and `i + 7` (modulo 8) of the inverse `y` of `x`, and of bit `i`
/// of 0x63.
pub proof fn sbox_bit_by_bit(x: u8, y: u8, i: u8)
    requires
        gf_mul(x, y) == 1 || (x == 0 && y == 0),
        i < 8,
    ensures
        (SBOX@[x as int] >> i) & 1 == ((y >> i) ^ (y >> ((i + 4) as u8 % 8)) ^ (y >> ((i + 5) as u8
            % 8)) ^ (y >> ((i + 6) as u8 % 8)) ^ (y >> ((i + 7) as u8 % 8)) ^ (0x63u8 >> i)) & 1,
        sbox(x) == SBOX@[x as int],
        SBOX_U32@[x as int] == SBOX@[x as int],
{
    lemma_sbox();
    lemma_sbox_u32();
    assert(sbox(x) == SBOX@[x as int]);
    reveal(sbox);
    lemma_affine_bit(y, i);
    if x != 0 {
        gf_inv_is_inverse(x, y);
    } else {
        gf_mul_commutes(0, y);
        gf_mul_distributes(y, 0, 0);
    }
}

/// The round constants start with one, and each is the double of the one before it.
pub proof fn round_constants_double(i: int)
    requires
        0 <= i < 10,
    ensures
        RCON@[0] == 1,
        i > 0 && RCON@[i - 1] < 128 ==> RCON@[i] == 2 * RCON@[i - 1],
        i > 0 && RCON@[i - 1] >= 128 ==> RCON@[i] == (2 * RCON@[i - 1] - 256) as u8 ^ 0x1b,
        x_power(i as nat) == RCON@[i],
{
    lemma_rcon();
    assert(RCON@[i] == x_power(i as nat));
    assert(RCON@[0] == x_power(0));
    if i > 0 {
        assert(RCON@[i - 1] == x_power((i - 1) as nat));
        lemma_mul_xtime(RCON@[i - 1], 0);
        lemma_double(RCON@[i - 1]);
    }
}

/// The entries of the T-tables: for the S-box output `s` and its double `d`, the
/// entry of `T0` has the bytes `d, s, s, d ^ s`, and those of `T1`, `T2` and `T3`
/// have them one, two and three places further on.
pub proof fn t_tables_by_bytes(x: u8, s: u8, d: u8)
    requires
        s == SBOX@[x as int],
        d == (if s < 128 {
            (2 * s) as u8
        } else {
            (2 * s - 256) as u8 ^ 0x1b
        }),
    ensures
        T0@[x as int] == d * 0x100_0000 + s * 0x1_0000 + s * 0x100 + (d ^ s),
        T1@[x as int] == (d ^ s) * 0x100_0000 + d * 0x1_0000 + s * 0x100 + s,
        T2@[x as int] == s * 0x100_0000 + (d ^ s) * 0x1_0000 + d * 0x100 + s,
        T3@[x as int] == s * 0x100_0000 + s * 0x1_0000 + (d ^ s) * 0x100 + d,
{
    constants_are_aes_tables();
    lemma_sbox();
    assert(SBOX@[x as int] == sbox(x));
    lemma_t_entries(x, s, d, T0@, T1@, T2@, T3@, SBOX_U32@);
}

proof fn lemma_t_entries(
    x: u8,
    s: u8,
    d: u8,
    t0: Seq<u32>,
    t1: Seq<u32>,
    t2: Seq<u32>,
    t3: Seq<u32>,
    sb: Seq<u32>,
)
    requires
        are_aes_tables(t0, t1, t2, t3, sb),
        s == sbox(x),
        d == (if s < 128 {
            (2 * s) as u8
        } else {
            (2 * s - 256) as u8 ^ 0x1b
        }),
    ensures
        t0[x as int] == d * 0x100_0000 + s * 0x1_0000 + s * 0x100 + (d ^ s),
        t1[x as int] == (d ^ s) * 0x100_0000 + d * 0x1_0000 + s * 0x100 + s,
        t2[x as int] == s * 0x100_0000 + (d ^ s) * 0x1_0000 + d * 0x100 + s,
        t3[x as int] == s * 0x100_0000 + s * 0x1_0000 + (d ^ s) * 0x100 + d,
{
    reveal(are_aes_tables);
    lemma_mul_xtime(s, 0);
    lemma_double(s);
    lemma_rotated_word(d, s, s, d ^ s);
    word_is_a_number(d, s, s, d ^ s);
    word_is_a_number(d ^ s, d, s, s);
    word_is_a_number(s, d ^ s, d, s);
    word_is_a_number(s, s, d ^ s, d);
    assert(t0[x as int] == t0_entry(x));
    assert(t1[x as int] == t_entry(1, x));
    assert(t2[x as int] == t_entry(2, x));
    assert(t3[x as int] == t_entry(3, x));
}

/// Tables that hold the constants are AES tables, whatever follows the 256 entries.
pub proof fn tables_with_the_constants(
    t0: Seq<u32>,
    t1: Seq<u32>,
    t2: Seq<u32>,
    t3: Seq<u32>,
    sb: Seq<u32>,
)
    requires
        forall|x: u8| #[trigger] t0[x as int] == T0@[x as int],
        forall|x: u8| #[trigger] t1[x as int] == T1@[x as int],
        forall|x: u8| #[trigger] t2[x as int] == T2@[x as int],
        forall|x: u8| #[trigger] t3[x as int] == T3@[x as int],
        forall|x: u8| #[trigger] sb[x as int] == SBOX_U32@[x as int],
    ensures
        are_aes_tables(t0, t1, t2, t3, sb),
{
    constants_are_aes_tables();
    lemma_same_tables(t0, t1, t2, t3, sb, T0@, T1@, T2@, T3@, SBOX_U32@);
}

proof fn lemma_same_tables(
    t0: Seq<u32>,
    t1: Seq<u32>,
    t2: Seq<u32>,
    t3: Seq<u32>,
    sb: Seq<u32>,
    u0: Seq<u32>,
    u1: Seq<u32>,
    u2: Seq<u32>,
    u3: Seq<u32>,
    ub: Seq<u32>,
)
    requires
        are_aes_tables(u0, u1, u2, u3, ub),
        forall|x: u8| #[trigger] t0[x as int] == u0[x as int],
        forall|x: u8| #[trigger] t1[x as int] == u1[x as int],
        forall|x: u8| #[trigger] t2[x as int] == u2[x as int],
        forall|x: u8| #[trigger] t3[x as int] == u3[x as int],
        forall|x: u8| #[trigger] sb[x as int] == ub[x as int],
    ensures
        are_aes_tables(t0, t1, t2, t3, sb),
{
    reveal(are_aes_tables);
}

// ---------------------------------------------------------------------------
// The rounds.
// ---------------------------------------------------------------------------

/// AddRoundKey adds byte `i` of the key to byte `i` of the state.
pub proof fn keys_add_by_bytes(s: Seq<u8>, k: Seq<u8>, i: int)
    requires
        0 <= i < 16,
    ensures
        add_round_key(s, k).len() == 16,
        add_round_key(s, k)[i] == s[i] ^ k[i],
{
}

/// SubBytes and ShiftRows on column `c`: row `r` comes from column `c + r`.
proof fn lemma_shifted_column(x: Seq<u8>, s: Seq<u8>, c: int)
    requires
        0 <= c < 4,
        forall|i: int| 0 <= i < 16 ==> #[trigger] s[i] == sbox(x[i]),
    ensures
        shift_rows(sub_bytes(x))[4 * c] == s[4 * c],
        shift_rows(sub_bytes(x))[4 * c + 1] == s[4 * ((c + 1) % 4) + 1],
        shift_rows(sub_bytes(x))[4 * c + 2] == s[4 * ((c + 2) % 4) + 2],
        shift_rows(sub_bytes(x))[4 * c + 3] == s[4 * ((c + 3) % 4) + 3],
{
    assert(c == 0 || c == 1 || c == 2 || c == 3);
}

#[verifier::rlimit(40)]
proof fn lemma_full_column(x: Seq<u8>, k: Seq<u8>, s: Seq<u8>, d: Seq<u8>, c: int)
    requires
        0 <= c < 4,
        forall|i: int| 0 <= i < 16 ==> #[trigger] s[i] == sbox(x[i]),
        forall|i: int|
            0 <= i < 16 ==> #[trigger] d[i] == (if s[i] < 128 {
                (2 * s[i]) as u8
            } else {
                (2 * s[i] - 256) as u8 ^ 0x1b
            }),
    ensures
        full_round(x, k)[4 * c] == d[4 * c] ^ (d[4 * ((c + 1) % 4) + 1] ^ s[4 * ((c + 1) % 4)
            + 1]) ^ s[4 * ((c + 2) % 4) + 2] ^ s[4 * ((c + 3) % 4) + 3] ^ k[4 * c],
        full_round(x, k)[4 * c + 1] == s[4 * c] ^ d[4 * ((c + 1) % 4) + 1] ^ (d[4 * ((c + 2) % 4)
            + 2] ^ s[4 * ((c + 2) % 4) + 2]) ^ s[4 * ((c + 3) % 4) + 3] ^ k[4 * c + 1],
        full_round(x, k)[4 * c + 2] == s[4 * c] ^ s[4 * ((c + 1) % 4) + 1] ^ d[4 * ((c + 2) % 4)
            + 2] ^ (d[4 * ((c + 3) % 4) + 3] ^ s[4 * ((c + 3) % 4) + 3]) ^ k[4 * c + 2],
        full_round(x, k)[4 * c + 3] == (d[4 * c] ^ s[4 * c]) ^ s[4 * ((c + 1) % 4) + 1] ^ s[4 * ((c
            + 2) % 4) + 2] ^ d[4 * ((c + 3) % 4) + 3] ^ k[4 * c + 3],
{
    lemma_shifted_column(x, s, c);
    let t = shift_rows(sub_bytes(x));
    let (i0, i1, i2, i3) = (4 * c, 4 * ((c + 1) % 4) + 1, 4 * ((c + 2) % 4) + 2, 4 * ((c + 3) % 4)
        + 3);
    lemma_mul_xtime(s[i0], 0);
    lemma_mul_xtime(s[i1], 0);
    lemma_mul_xtime(s[i2], 0);
    lemma_mul_xtime(s[i3], 0);
    lemma_double(s[i0]);
    lemma_double(s[i1]);
    lemma_double(s[i2]);
    lemma_double(s[i3]);
    assert((4 * c) / 4 == c && (4 * c + 1) / 4 == c && (4 * c + 2) / 4 == c && (4 * c + 3) / 4
        == c);
    assert(mix_columns(t)[4 * c] == mix_byte(s[i0], s[i1], s[i2], s[i3], 0));
    assert(mix_columns(t)[4 * c + 1] == mix_byte(s[i0], s[i1], s[i2], s[i3], 1));
    assert(mix_columns(t)[4 * c + 2] == mix_byte(s[i0], s[i1], s[i2], s[i3], 2));
    assert(mix_columns(t)[4 * c + 3] == mix_byte(s[i0], s[i1], s[i2], s[i3], 3));
}

/// A round on the state `x` with the round key `k`, column by column: for the S-box
/// outputs `s` and their doubles `d`, row `r` of column `c` is the double of the
/// S-box output in row `r`, three times the one in row `r + 1`, the ones in the
/// rows `r + 2` and `r + 3` and the key, where row `r` is taken from column `c + r`.
pub proof fn full_round_by_columns(x: Seq<u8>, k: Seq<u8>, s: Seq<u8>, d: Seq<u8>, c: int)
    requires
        0 <= c < 4,
        forall|i: int| 0 <= i < 16 ==> #[trigger] s[i] == SBOX@[x[i] as int],
        forall|i: int|
            0 <= i < 16 ==> #[trigger] d[i] == (if s[i] < 128 {
                (2 * s[i]) as u8
            } else {
                (2 * s[i] - 256) as u8 ^ 0x1b
            }),
    ensures
        full_round(x, k).len() == 16,
        full_round(x, k)[4 * c] == d[4 * c] ^ (d[4 * ((c + 1) % 4) + 1] ^ s[4 * ((c + 1) % 4)
            + 1]) ^ s[4 * ((c + 2) % 4) + 2] ^ s[4 * ((c + 3) % 4) + 3] ^ k[4 * c],
        full_round(x, k)[4 * c + 1] == s[4 * c] ^ d[4 * ((c + 1) % 4) + 1] ^ (d[4 * ((c + 2) % 4)
            + 2] ^ s[4 * ((c + 2) % 4) + 2]) ^ s[4 * ((c + 3) % 4) + 3] ^ k[4 * c + 1],
        full_round(x, k)[4 * c + 2] == s[4 * c] ^ s[4 * ((c + 1) % 4) + 1] ^ d[4 * ((c + 2) % 4)
            + 2] ^ (d[4 * ((c + 3) % 4) + 3] ^ s[4 * ((c + 3) % 4) + 3]) ^ k[4 * c + 2],
        full_round(x, k)[4 * c + 3] == (d[4 * c] ^ s[4 * c]) ^ s[4 * ((c + 1) % 4) + 1] ^ s[4 * ((c
            + 2) % 4) + 2] ^ d[4 * ((c + 3) % 4) + 3] ^ k[4 * c + 3],
{
    lemma_sbox_outputs(x, s);
    lemma_full_column(x, k, s, d, c);
}

proof fn lemma_sbox_outputs(x: Seq<u8>, s: Seq<u8>)
    requires
        forall|i: int| 0 <= i < 16 ==> #[trigger] s[i] == SBOX@[x[i] as int],
    ensures
        forall|i: int| 0 <= i < 16 ==> #[trigger] s[i] == sbox(x[i]),
{
    lemma_sbox();
    assert forall|i: int| 0 <= i < 16 implies #[trigger] s[i] == sbox(x[i]) by {
        assert(SBOX@[x[i] as int] == sbox(x[i]));
    }
}

/// The last round, column by column: row `r` of column `c` is the S-box output in
/// row `r` of column `c + r`, plus the key.
pub proof fn last_round_by_columns(x: Seq<u8>, k: Seq<u8>, s: Seq<u8>, c: int)
    requires
        0 <= c < 4,
        forall|i: int| 0 <= i < 16 ==> #[trigger] s[i] == SBOX@[x[i] as int],
    ensures
        last_round(x, k).len() == 16,
        last_round(x, k)[4 * c] == s[4 * c] ^ k[4 * c],
        last_round(x, k)[4 * c + 1] == s[4 * ((c + 1) % 4) + 1] ^ k[4 * c + 1],
        last_round(x, k)[4 * c + 2] == s[4 * ((c + 2) % 4) + 2] ^ k[4 * c + 2],
        last_round(x, k)[4 * c + 3] == s[4 * ((c + 3) % 4) + 3] ^ k[4 * c + 3],
{
    lemma_sbox_outputs(x, s);
    lemma_shifted_column(x, s, c);
}

/// Round key `r` of a key schedule: word `c` is word `4 * r + c` of the schedule,
/// and the register holds its bytes, most significant first.
pub proof fn round_key_words(keys: Seq<V128>, rk: Seq<u32>, r: int, c: int)
    requires
        are_round_keys(keys, rk),
        rk.len() >= 44,
        0 <= r < 11,
        0 <= c < 4,
    ensures
        keys.len() == 11,
        rk[4 * r + c] == keys[r]@[4 * c] * 0x100_0000 + keys[r]@[4 * c + 1] * 0x1_0000 + keys[r]@[4
            * c + 2] * 0x100 + keys[r]@[4 * c + 3],
        round_key(rk, r) == keys[r]@,
{
    let words = rk.subrange(4 * r, 4 * r + 4);
    state_spells_the_words(words, c);
    assert(words[c] == rk[4 * r + c]);
}

/// Registers that spell the words of a key schedule are its round keys.
#[verifier::rlimit(40)]
pub proof fn spelled_round_keys(keys: Seq<V128>, rk: Seq<u32>)
    requires
        keys.len() == 11,
        rk.len() >= 44,
        forall|r: int, c: int|
            0 <= r < 11 && 0 <= c < 4 ==> #[trigger] rk[4 * r + c] == keys[r]@[4 * c] * 0x100_0000
                + keys[r]@[4 * c + 1] * 0x1_0000 + keys[r]@[4 * c + 2] * 0x100 + keys[r]@[4 * c
                + 3],
    ensures
        are_round_keys(keys, rk),
{
    assert forall|r: int| 0 <= r < 11 implies #[trigger] keys[r]@ == round_key(rk, r) by {
        let words = rk.subrange(4 * r, 4 * r + 4);
        assert forall|i: int| 0 <= i < 16 implies keys[r]@[i] == bytes_of(words)[i] by {
            let c = i / 4;
            assert(words[c] == rk[4 * r + c]);
            lemma_spelled(
                rk[4 * r + c],
                keys[r]@[4 * c],
                keys[r]@[4 * c + 1],
                keys[r]@[4 * c + 2],
                keys[r]@[4 * c + 3],
            );
        }
        assert(keys[r]@ =~= round_key(rk, r));
    }
}

/// The bytes of round key `r`, for a key schedule spelled by `k`.
proof fn lemma_round_key_bytes(rk: Seq<u32>, k: Seq<u8>, r: int)
    requires
        rk.len() >= 44,
        k.len() == 176,
        0 <= r < 11,
        forall|i: int|
            0 <= i < 44 ==> #[trigger] rk[i] == k[4 * i] * 0x100_0000 + k[4 * i + 1] * 0x1_0000
                + k[4 * i + 2] * 0x100 + k[4 * i + 3],
    ensures
        round_key(rk, r) == k.subrange(16 * r, 16 * r + 16),
{
    let words = rk.subrange(4 * r, 4 * r + 4);
    assert forall|i: int| 0 <= i < 16 implies round_key(rk, r)[i] == k[16 * r + i] by {
        let j = 4 * r + i / 4;
        assert(words[i / 4] == rk[j]);
        lemma_spelled(rk[j], k[4 * j], k[4 * j + 1], k[4 * j + 2], k[4 * j + 3]);
    }
    assert(round_key(rk, r) =~= k.subrange(16 * r, 16 * r + 16));
}

/// The state of a block spelled by `p`.
proof fn lemma_block_bytes(block: Seq<u32>, p: Seq<u8>)
    requires
        p.len() == 16,
        forall|c: int|
            0 <= c < 4 ==> #[trigger] block[c] == p[4 * c] * 0x100_0000 + p[4 * c + 1] * 0x1_0000
                + p[4 * c + 2] * 0x100 + p[4 * c + 3],
    ensures
        bytes_of(block) == p,
{
    assert forall|i: int| 0 <= i < 16 implies bytes_of(block)[i] == p[i] by {
        let c = i / 4;
        lemma_spelled(block[c], p[4 * c], p[4 * c + 1], p[4 * c + 2], p[4 * c + 3]);
    }
    assert(bytes_of(block) =~= p);
}

/// A state whose columns satisfy the equations of a round is what the round gives.
#[verifier::rlimit(40)]
proof fn lemma_state_step(
    x: Seq<u8>,
    key: Seq<u8>,
    s: Seq<u8>,
    d: Seq<u8>,
    y: Seq<u8>,
)
    requires
        y.len() == 16,
        forall|i: int| 0 <= i < 16 ==> #[trigger] s[i] == sbox(x[i]),
        forall|i: int|
            0 <= i < 16 ==> #[trigger] d[i] == (if s[i] < 128 {
                (2 * s[i]) as u8
            } else {
                (2 * s[i] - 256) as u8 ^ 0x1b
            }),
        forall|c: int|
            #![trigger y[4 * c]]
            0 <= c < 4 ==> {
                &&& y[4 * c] == d[4 * c] ^ (d[4 * ((c + 1) % 4) + 1] ^ s[4 * ((c + 1) % 4) + 1])
                    ^ s[4 * ((c + 2) % 4) + 2] ^ s[4 * ((c + 3) % 4) + 3] ^ key[4 * c]
                &&& y[4 * c + 1] == s[4 * c] ^ d[4 * ((c + 1) % 4) + 1] ^ (d[4 * ((c + 2) % 4) + 2]
                    ^ s[4 * ((c + 2) % 4) + 2]) ^ s[4 * ((c + 3) % 4) + 3] ^ key[4 * c + 1]
                &&& y[4 * c + 2] == s[4 * c] ^ s[4 * ((c + 1) % 4) + 1] ^ d[4 * ((c + 2) % 4) + 2]
                    ^ (d[4 * ((c + 3) % 4) + 3] ^ s[4 * ((c + 3) % 4) + 3]) ^ key[4 * c + 2]
                &&& y[4 * c + 3] == (d[4 * c] ^ s[4 * c]) ^ s[4 * ((c + 1) % 4) + 1] ^ s[4 * ((c
                    + 2) % 4) + 2] ^ d[4 * ((c + 3) % 4) + 3] ^ key[4 * c + 3]
            },
    ensures
        full_round(x, key) == y,
{
    let after = full_round(x, key);
    assert forall|c: int| 0 <= c < 4 implies #[trigger] after[4 * c] == y[4 * c] && after[4 * c + 1]
        == y[4 * c + 1] && after[4 * c + 2] == y[4 * c + 2] && after[4 * c + 3] == y[4 * c + 3] by {
        lemma_full_column(x, key, s, d, c);
    }
    assert forall|i: int| 0 <= i < 16 implies after[i] == y[i] by {
        let c = i / 4;
        assert(after[4 * c] == y[4 * c]);
        assert(i == 4 * c || i == 4 * c + 1 || i == 4 * c + 2 || i == 4 * c + 3);
    }
    assert(after =~= y);
}

/// The state after round `r` is what the round makes of the state before it.
#[verifier::rlimit(40)]
proof fn lemma_one_state(
    rk: Seq<u32>,
    k: Seq<u8>,
    x: Seq<Seq<u8>>,
    s: Seq<Seq<u8>>,
    d: Seq<Seq<u8>>,
    r: int,
)
    requires
        rk.len() >= 44,
        k.len() == 176,
        1 <= r < 10,
        forall|i: int|
            0 <= i < 44 ==> #[trigger] rk[i] == k[4 * i] * 0x100_0000 + k[4 * i + 1] * 0x1_0000
                + k[4 * i + 2] * 0x100 + k[4 * i + 3],
        forall|r: int| 0 <= r < 10 ==> #[trigger] x[r].len() == 16,
        forall|r: int, i: int|
            0 <= r < 10 && 0 <= i < 16 ==> #[trigger] s[r][i] == sbox(x[r][i]),
        forall|r: int, i: int|
            0 <= r < 10 && 0 <= i < 16 ==> #[trigger] d[r][i] == (if s[r][i] < 128 {
                (2 * s[r][i]) as u8
            } else {
                (2 * s[r][i] - 256) as u8 ^ 0x1b
            }),
        forall|r: int, c: int|
            #![trigger k[16 * r + 4 * c]]
            1 <= r < 10 && 0 <= c < 4 ==> {
                &&& x[r][4 * c] == d[r - 1][4 * c] ^ (d[r - 1][4 * ((c + 1) % 4) + 1] ^ s[r - 1][4
                    * ((c + 1) % 4) + 1]) ^ s[r - 1][4 * ((c + 2) % 4) + 2] ^ s[r - 1][4 * ((c + 3)
                    % 4) + 3] ^ k[16 * r + 4 * c]
                &&& x[r][4 * c + 1] == s[r - 1][4 * c] ^ d[r - 1][4 * ((c + 1) % 4) + 1] ^ (d[r
                    - 1][4 * ((c + 2) % 4) + 2] ^ s[r - 1][4 * ((c + 2) % 4) + 2]) ^ s[r - 1][4 * ((
                c + 3) % 4) + 3] ^ k[16 * r + 4 * c + 1]
                &&& x[r][4 * c + 2] == s[r - 1][4 * c] ^ s[r - 1][4 * ((c + 1) % 4) + 1] ^ d[r
                    - 1][4 * ((c + 2) % 4) + 2] ^ (d[r - 1][4 * ((c + 3) % 4) + 3] ^ s[r - 1][4 * ((
                c + 3) % 4) + 3]) ^ k[16 * r + 4 * c + 2]
                &&& x[r][4 * c + 3] == (d[r - 1][4 * c] ^ s[r - 1][4 * c]) ^ s[r - 1][4 * ((c + 1)
                    % 4) + 1] ^ s[r - 1][4 * ((c + 2) % 4) + 2] ^ d[r - 1][4 * ((c + 3) % 4) + 3]
                    ^ k[16 * r + 4 * c + 3]
            },
    ensures
        x[r] == full_round(x[r - 1], round_key(rk, r)),
{
    lemma_round_key_bytes(rk, k, r);
    let key = k.subrange(16 * r, 16 * r + 16);
    let (y, u, v) = (x[r], s[r - 1], d[r - 1]);
    assert(y.len() == 16);
    assert forall|c: int|
        #![trigger y[4 * c]]
        0 <= c < 4 implies {
            &&& y[4 * c] == v[4 * c] ^ (v[4 * ((c + 1) % 4) + 1] ^ u[4 * ((c + 1) % 4) + 1])
                ^ u[4 * ((c + 2) % 4) + 2] ^ u[4 * ((c + 3) % 4) + 3] ^ key[4 * c]
            &&& y[4 * c + 1] == u[4 * c] ^ v[4 * ((c + 1) % 4) + 1] ^ (v[4 * ((c + 2) % 4) + 2]
                ^ u[4 * ((c + 2) % 4) + 2]) ^ u[4 * ((c + 3) % 4) + 3] ^ key[4 * c + 1]
            &&& y[4 * c + 2] == u[4 * c] ^ u[4 * ((c + 1) % 4) + 1] ^ v[4 * ((c + 2) % 4) + 2]
                ^ (v[4 * ((c + 3) % 4) + 3] ^ u[4 * ((c + 3) % 4) + 3]) ^ key[4 * c + 2]
            &&& y[4 * c + 3] == (v[4 * c] ^ u[4 * c]) ^ u[4 * ((c + 1) % 4) + 1] ^ u[4 * ((c
                + 2) % 4) + 2] ^ v[4 * ((c + 3) % 4) + 3] ^ key[4 * c + 3]
    } by {
        assert(key[4 * c] == k[16 * r + 4 * c]);
        assert(key[4 * c + 1] == k[16 * r + 4 * c + 1]);
        assert(key[4 * c + 2] == k[16 * r + 4 * c + 2]);
        assert(key[4 * c + 3] == k[16 * r + 4 * c + 3]);
    }
    assert forall|i: int| 0 <= i < 16 implies #[trigger] u[i] == sbox(x[r - 1][i]) by {
        assert(s[r - 1][i] == sbox(x[r - 1][i]));
    }
    assert forall|i: int| 0 <= i < 16 implies #[trigger] v[i] == (if u[i] < 128 {
        (2 * u[i]) as u8
    } else {
        (2 * u[i] - 256) as u8 ^ 0x1b
    }) by {
        assert(d[r - 1][i] == v[i]);
    }
    lemma_state_step(x[r - 1], key, u, v, y);
}

/// States that follow each other by rounds are those of the rounds.
proof fn lemma_chain(rk: Seq<u32>, p: Seq<u8>, x: Seq<Seq<u8>>, n: nat)
    requires
        n < 10,
        x[0] == add_round_key(p, round_key(rk, 0)),
        forall|r: int|
            1 <= r < 10 ==> #[trigger] x[r] == full_round(x[r - 1], round_key(rk, r)),
    ensures
        rounds(rk, p, n) == x[n as int],
    decreases n,
{
    if n > 0 {
        lemma_chain(rk, p, x, (n - 1) as nat);
    }
}

/// The states `x` of the equations are those of the rounds.
#[verifier::rlimit(40)]
proof fn lemma_states(
    rk: Seq<u32>,
    block: Seq<u32>,
    k: Seq<u8>,
    p: Seq<u8>,
    x: Seq<Seq<u8>>,
    s: Seq<Seq<u8>>,
    d: Seq<Seq<u8>>,
)
    requires
        rk.len() >= 44,
        k.len() == 176,
        p.len() == 16,
        forall|i: int|
            0 <= i < 44 ==> #[trigger] rk[i] == k[4 * i] * 0x100_0000 + k[4 * i + 1] * 0x1_0000
                + k[4 * i + 2] * 0x100 + k[4 * i + 3],
        forall|c: int|
            0 <= c < 4 ==> #[trigger] block[c] == p[4 * c] * 0x100_0000 + p[4 * c + 1] * 0x1_0000
                + p[4 * c + 2] * 0x100 + p[4 * c + 3],
        forall|r: int| 0 <= r < 10 ==> #[trigger] x[r].len() == 16,
        forall|r: int, i: int|
            0 <= r < 10 && 0 <= i < 16 ==> #[trigger] s[r][i] == sbox(x[r][i]),
        forall|r: int, i: int|
            0 <= r < 10 && 0 <= i < 16 ==> #[trigger] d[r][i] == (if s[r][i] < 128 {
                (2 * s[r][i]) as u8
            } else {
                (2 * s[r][i] - 256) as u8 ^ 0x1b
            }),
        forall|i: int| 0 <= i < 16 ==> #[trigger] x[0][i] == p[i] ^ k[i],
        forall|r: int, c: int|
            #![trigger k[16 * r + 4 * c]]
            1 <= r < 10 && 0 <= c < 4 ==> {
                &&& x[r][4 * c] == d[r - 1][4 * c] ^ (d[r - 1][4 * ((c + 1) % 4) + 1] ^ s[r - 1][4
                    * ((c + 1) % 4) + 1]) ^ s[r - 1][4 * ((c + 2) % 4) + 2] ^ s[r - 1][4 * ((c + 3)
                    % 4) + 3] ^ k[16 * r + 4 * c]
                &&& x[r][4 * c + 1] == s[r - 1][4 * c] ^ d[r - 1][4 * ((c + 1) % 4) + 1] ^ (d[r
                    - 1][4 * ((c + 2) % 4) + 2] ^ s[r - 1][4 * ((c + 2) % 4) + 2]) ^ s[r - 1][4 * ((
                c + 3) % 4) + 3] ^ k[16 * r + 4 * c + 1]
                &&& x[r][4 * c + 2] == s[r - 1][4 * c] ^ s[r - 1][4 * ((c + 1) % 4) + 1] ^ d[r
                    - 1][4 * ((c + 2) % 4) + 2] ^ (d[r - 1][4 * ((c + 3) % 4) + 3] ^ s[r - 1][4 * ((
                c + 3) % 4) + 3]) ^ k[16 * r + 4 * c + 2]
                &&& x[r][4 * c + 3] == (d[r - 1][4 * c] ^ s[r - 1][4 * c]) ^ s[r - 1][4 * ((c + 1)
                    % 4) + 1] ^ s[r - 1][4 * ((c + 2) % 4) + 2] ^ d[r - 1][4 * ((c + 3) % 4) + 3]
                    ^ k[16 * r + 4 * c + 3]
            },
    ensures
        rounds(rk, bytes_of(block), 9) == x[9],
{
    lemma_block_bytes(block, p);
    lemma_round_key_bytes(rk, k, 0);
    assert(x[0].len() == 16);
    assert(x[0] =~= add_round_key(p, round_key(rk, 0)));
    assert forall|r: int| 1 <= r < 10 implies #[trigger] x[r] == full_round(
        x[r - 1],
        round_key(rk, r),
    ) by {
        lemma_one_state(rk, k, x, s, d, r);
    }
    lemma_chain(rk, p, x, 9);
}

/// AES-128 on a block, in bytes. The key schedule is spelled by the 176 bytes `k` and
/// the block by the sixteen bytes `p`; `x[r]` is the state after round `r`, `s[r]`
/// its S-box outputs and `d[r]` their doubles. Then the state before round 1 is the
/// block plus the first sixteen bytes of the key schedule, each of the rounds 1 to 9
/// mixes the shifted S-box outputs and adds the next sixteen bytes, and the words of
/// the encryption are spelled by the shifted S-box outputs after round 9 plus the
/// last sixteen bytes.
#[verifier::rlimit(40)]
pub proof fn encryption_in_bytes(
    rk: Seq<u32>,
    block: Seq<u32>,
    k: Seq<u8>,
    p: Seq<u8>,
    x: Seq<Seq<u8>>,
    s: Seq<Seq<u8>>,
    d: Seq<Seq<u8>>,
    c: int,
)
    requires
        rk.len() >= 44,
        block.len() == 4,
        k.len() == 176,
        p.len() == 16,
        0 <= c < 4,
        forall|i: int|
            0 <= i < 44 ==> #[trigger] rk[i] == k[4 * i] * 0x100_0000 + k[4 * i + 1] * 0x1_0000
                + k[4 * i + 2] * 0x100 + k[4 * i + 3],
        forall|c: int|
            0 <= c < 4 ==> #[trigger] block[c] == p[4 * c] * 0x100_0000 + p[4 * c + 1] * 0x1_0000
                + p[4 * c + 2] * 0x100 + p[4 * c + 3],
        forall|r: int| 0 <= r < 10 ==> #[trigger] x[r].len() == 16,
        forall|r: int, i: int|
            0 <= r < 10 && 0 <= i < 16 ==> #[trigger] s[r][i] == SBOX@[x[r][i] as int],
        forall|r: int, i: int|
            0 <= r < 10 && 0 <= i < 16 ==> #[trigger] d[r][i] == (if s[r][i] < 128 {
                (2 * s[r][i]) as u8
            } else {
                (2 * s[r][i] - 256) as u8 ^ 0x1b
            }),
        forall|i: int| 0 <= i < 16 ==> #[trigger] x[0][i] == p[i] ^ k[i],
        forall|r: int, c: int|
            #![trigger k[16 * r + 4 * c]]
            1 <= r < 10 && 0 <= c < 4 ==> {
                &&& x[r][4 * c] == d[r - 1][4 * c] ^ (d[r - 1][4 * ((c + 1) % 4) + 1] ^ s[r - 1][4
                    * ((c + 1) % 4) + 1]) ^ s[r - 1][4 * ((c + 2) % 4) + 2] ^ s[r - 1][4 * ((c + 3)
                    % 4) + 3] ^ k[16 * r + 4 * c]
                &&& x[r][4 * c + 1] == s[r - 1][4 * c] ^ d[r - 1][4 * ((c + 1) % 4) + 1] ^ (d[r
                    - 1][4 * ((c + 2) % 4) + 2] ^ s[r - 1][4 * ((c + 2) % 4) + 2]) ^ s[r - 1][4 * ((
                c + 3) % 4) + 3] ^ k[16 * r + 4 * c + 1]
                &&& x[r][4 * c + 2] == s[r - 1][4 * c] ^ s[r - 1][4 * ((c + 1) % 4) + 1] ^ d[r
                    - 1][4 * ((c + 2) % 4) + 2] ^ (d[r - 1][4 * ((c + 3) % 4) + 3] ^ s[r - 1][4 * ((
                c + 3) % 4) + 3]) ^ k[16 * r + 4 * c + 2]
                &&& x[r][4 * c + 3] == (d[r - 1][4 * c] ^ s[r - 1][4 * c]) ^ s[r - 1][4 * ((c + 1)
                    % 4) + 1] ^ s[r - 1][4 * ((c + 2) % 4) + 2] ^ d[r - 1][4 * ((c + 3) % 4) + 3]
                    ^ k[16 * r + 4 * c + 3]
            },
    ensures
        encrypt_words(rk, block).len() == 4,
        encrypt_words(rk, block)[c] == (s[9][4 * c] ^ k[160 + 4 * c]) * 0x100_0000 + (s[9][4 * ((c
            + 1) % 4) + 1] ^ k[160 + 4 * c + 1]) * 0x1_0000 + (s[9][4 * ((c + 2) % 4) + 2] ^ k[160
            + 4 * c + 2]) * 0x100 + (s[9][4 * ((c + 3) % 4) + 3] ^ k[160 + 4 * c + 3]),
{
    assert forall|r: int, i: int| 0 <= r < 10 && 0 <= i < 16 implies #[trigger] s[r][i] == sbox(
        x[r][i],
    ) by {
        lemma_sbox();
        assert(SBOX@[x[r][i] as int] == sbox(x[r][i]));
    }
    lemma_last_words(rk, block, k, p, x, s, d, c);
}

#[verifier::rlimit(40)]
proof fn lemma_last_words(
    rk: Seq<u32>,
    block: Seq<u32>,
    k: Seq<u8>,
    p: Seq<u8>,
    x: Seq<Seq<u8>>,
    s: Seq<Seq<u8>>,
    d: Seq<Seq<u8>>,
    c: int,
)
    requires
        rk.len() >= 44,
        k.len() == 176,
        p.len() == 16,
        0 <= c < 4,
        forall|i: int|
            0 <= i < 44 ==> #[trigger] rk[i] == k[4 * i] * 0x100_0000 + k[4 * i + 1] * 0x1_0000
                + k[4 * i + 2] * 0x100 + k[4 * i + 3],
        forall|c: int|
            0 <= c < 4 ==> #[trigger] block[c] == p[4 * c] * 0x100_0000 + p[4 * c + 1] * 0x1_0000
                + p[4 * c + 2] * 0x100 + p[4 * c + 3],
        forall|r: int| 0 <= r < 10 ==> #[trigger] x[r].len() == 16,
        forall|r: int, i: int|
            0 <= r < 10 && 0 <= i < 16 ==> #[trigger] s[r][i] == sbox(x[r][i]),
        forall|r: int, i: int|
            0 <= r < 10 && 0 <= i < 16 ==> #[trigger] d[r][i] == (if s[r][i] < 128 {
                (2 * s[r][i]) as u8
            } else {
                (2 * s[r][i] - 256) as u8 ^ 0x1b
            }),
        forall|i: int| 0 <= i < 16 ==> #[trigger] x[0][i] == p[i] ^ k[i],
        forall|r: int, c: int|
            #![trigger k[16 * r + 4 * c]]
            1 <= r < 10 && 0 <= c < 4 ==> {
                &&& x[r][4 * c] == d[r - 1][4 * c] ^ (d[r - 1][4 * ((c + 1) % 4) + 1] ^ s[r - 1][4
                    * ((c + 1) % 4) + 1]) ^ s[r - 1][4 * ((c + 2) % 4) + 2] ^ s[r - 1][4 * ((c + 3)
                    % 4) + 3] ^ k[16 * r + 4 * c]
                &&& x[r][4 * c + 1] == s[r - 1][4 * c] ^ d[r - 1][4 * ((c + 1) % 4) + 1] ^ (d[r
                    - 1][4 * ((c + 2) % 4) + 2] ^ s[r - 1][4 * ((c + 2) % 4) + 2]) ^ s[r - 1][4 * ((
                c + 3) % 4) + 3] ^ k[16 * r + 4 * c + 1]
                &&& x[r][4 * c + 2] == s[r - 1][4 * c] ^ s[r - 1][4 * ((c + 1) % 4) + 1] ^ d[r
                    - 1][4 * ((c + 2) % 4) + 2] ^ (d[r - 1][4 * ((c + 3) % 4) + 3] ^ s[r - 1][4 * ((
                c + 3) % 4) + 3]) ^ k[16 * r + 4 * c + 2]
                &&& x[r][4 * c + 3] == (d[r - 1][4 * c] ^ s[r - 1][4 * c]) ^ s[r - 1][4 * ((c + 1)
                    % 4) + 1] ^ s[r - 1][4 * ((c + 2) % 4) + 2] ^ d[r - 1][4 * ((c + 3) % 4) + 3]
                    ^ k[16 * r + 4 * c + 3]
            },
    ensures
        encrypt_words(rk, block).len() == 4,
        encrypt_words(rk, block)[c] == (s[9][4 * c] ^ k[160 + 4 * c]) * 0x100_0000 + (s[9][4 * ((c
            + 1) % 4) + 1] ^ k[160 + 4 * c + 1]) * 0x1_0000 + (s[9][4 * ((c + 2) % 4) + 2] ^ k[160
            + 4 * c + 2]) * 0x100 + (s[9][4 * ((c + 3) % 4) + 3] ^ k[160 + 4 * c + 3]),
{
    lemma_states(rk, block, k, p, x, s, d);
    lemma_round_key_bytes(rk, k, 10);
    let key = round_key(rk, 10);
    lemma_shifted_column(x[9], s[9], c);
    let out = cipher(rk, bytes_of(block));
    reveal(encrypt_words);
    words_are_spelled_by_the_state(out, c);
    assert(key[4 * c] == k[160 + 4 * c]);
    assert(key[4 * c + 1] == k[160 + 4 * c + 1]);
    assert(key[4 * c + 2] == k[160 + 4 * c + 2]);
    assert(key[4 * c + 3] == k[160 + 4 * c + 3]);
}

/// The last four words of the key schedule are added last: for key schedules that
/// agree before them, the encryptions of a block differ by the difference of those
/// words.
pub proof fn last_round_key_is_added(rk: Seq<u32>, other: Seq<u32>, block: Seq<u32>, c: int)
    requires
        rk.len() >= 44,
        other.len() >= 44,
        block.len() == 4,
        forall|i: int| 0 <= i < 40 ==> #[trigger] rk[i] == other[i],
        0 <= c < 4,
    ensures
        encrypt_words(rk, block)[c] ^ encrypt_words(other, block)[c] == rk[40 + c] ^ other[40 + c],
{
    let b = bytes_of(block);
    lemma_same_rounds(rk, other, b, 9);
    let t = shift_rows(sub_bytes(rounds(rk, b, 9)));
    lemma_added_key(rk, t, c);
    lemma_added_key(other, t, c);
    reveal(encrypt_words);
    let (u, v, w) = (words_of(t)[c], rk[40 + c], other[40 + c]);
    assert((u ^ v) ^ (u ^ w) == v ^ w) by (bit_vector);
}

proof fn lemma_same_rounds(rk: Seq<u32>, other: Seq<u32>, b: Seq<u8>, n: nat)
    requires
        rk.len() >= 44,
        other.len() >= 44,
        forall|i: int| 0 <= i < 40 ==> #[trigger] rk[i] == other[i],
        n < 10,
    ensures
        rounds(rk, b, n) == rounds(other, b, n),
    decreases n,
{
    let r = n as int;
    assert(rk.subrange(4 * r, 4 * r + 4) =~= other.subrange(4 * r, 4 * r + 4));
    if n > 0 {
        lemma_same_rounds(rk, other, b, (n - 1) as nat);
    }
}

/// Adding the last round key to a state adds its words to the words of the state.
#[verifier::rlimit(40)]
proof fn lemma_added_key(rk: Seq<u32>, t: Seq<u8>, c: int)
    requires
        rk.len() >= 44,
        t.len() == 16,
        0 <= c < 4,
    ensures
        words_of(add_round_key(t, round_key(rk, 10)))[c] == words_of(t)[c] ^ rk[40 + c],
{
    let words = rk.subrange(40, 44);
    assert(words[c] == rk[40 + c]);
    let sum = add_round_key(t, bytes_of(words));
    let (w, v) = (words_of(t)[c], rk[40 + c]);
    lemma_bytes_of_word(t[4 * c], t[4 * c + 1], t[4 * c + 2], t[4 * c + 3]);
    lemma_bytes_of_xor(w, v);
    lemma_word_of_bytes(w ^ v);
    assert((4 * c) / 4 == c && (4 * c + 1) / 4 == c && (4 * c + 2) / 4 == c && (4 * c + 3) / 4
        == c);
    assert(sum[4 * c] == byte_at(w ^ v, 0));
    assert(sum[4 * c + 1] == byte_at(w ^ v, 1));
    assert(sum[4 * c + 2] == byte_at(w ^ v, 2));
    assert(sum[4 * c + 3] == byte_at(w ^ v, 3));
}

// ---------------------------------------------------------------------------
// The rounds by table lookup.
// ---------------------------------------------------------------------------

/// The bytes of four words spelled by `b`.
proof fn lemma_word_bytes(w: Seq<u32>, b: Seq<u8>, c: int)
    requires
        0 <= c < 4,
        forall|c: int|
            0 <= c < 4 ==> #[trigger] w[c] == b[4 * c] * 0x100_0000 + b[4 * c + 1] * 0x1_0000
                + b[4 * c + 2] * 0x100 + b[4 * c + 3],
    ensures
        byte_at(w[c], 0) == b[4 * c],
        byte_at(w[c], 1) == b[4 * c + 1],
        byte_at(w[c], 2) == b[4 * c + 2],
        byte_at(w[c], 3) == b[4 * c + 3],
{
    lemma_spelled(w[c], b[4 * c], b[4 * c + 1], b[4 * c + 2], b[4 * c + 3]);
}

/// The bytes that a lookup for column `c` takes from four words spelled by `b`.
proof fn lemma_lookup_bytes(w: Seq<u32>, b: Seq<u8>, c: int)
    requires
        0 <= c < 4,
        forall|c: int|
            0 <= c < 4 ==> #[trigger] w[c] == b[4 * c] * 0x100_0000 + b[4 * c + 1] * 0x1_0000
                + b[4 * c + 2] * 0x100 + b[4 * c + 3],
    ensures
        byte_at(w[c], 0) == b[4 * c],
        byte_at(w[(c + 1) % 4], 1) == b[4 * ((c + 1) % 4) + 1],
        byte_at(w[(c + 2) % 4], 2) == b[4 * ((c + 2) % 4) + 2],
        byte_at(w[(c + 3) % 4], 3) == b[4 * ((c + 3) % 4) + 3],
{
    lemma_word_bytes(w, b, c);
    lemma_word_bytes(w, b, (c + 1) % 4);
    lemma_word_bytes(w, b, (c + 2) % 4);
    lemma_word_bytes(w, b, (c + 3) % 4);
}

/// Words that satisfy the equations of a lookup round are what the round gives.
#[verifier::rlimit(40)]
proof fn lemma_lookup_step(
    before: Seq<u32>,
    b: Seq<u8>,
    after: Seq<u32>,
    rk: Seq<u32>,
    r: int,
    t0: Seq<u32>,
    t1: Seq<u32>,
    t2: Seq<u32>,
    t3: Seq<u32>,
)
    requires
        after.len() == 4,
        forall|c: int|
            0 <= c < 4 ==> #[trigger] before[c] == b[4 * c] * 0x100_0000 + b[4 * c + 1] * 0x1_0000
                + b[4 * c + 2] * 0x100 + b[4 * c + 3],
        forall|c: int|
            0 <= c < 4 ==> #[trigger] after[c] == t0[b[4 * c] as int] ^ t1[b[4 * ((c + 1) % 4) + 1]
                as int] ^ t2[b[4 * ((c + 2) % 4) + 2] as int] ^ t3[b[4 * ((c + 3) % 4) + 3] as int]
                ^ rk[4 * r + c],
    ensures
        after == Seq::new(4, |c: int| lookup_word(before, rk[4 * r + c], t0, t1, t2, t3, c)),
{
    assert forall|c: int| 0 <= c < 4 implies after[c] == lookup_word(
        before,
        rk[4 * r + c],
        t0,
        t1,
        t2,
        t3,
        c,
    ) by {
        lemma_lookup_bytes(before, b, c);
    }
    assert(after =~= Seq::new(4, |c: int| lookup_word(before, rk[4 * r + c], t0, t1, t2, t3, c)));
}

/// The words `w` of the equations are those of the rounds by table lookup.
#[verifier::rlimit(40)]
proof fn lemma_lookup_states(
    rk: Seq<u32>,
    block: Seq<u32>,
    t0: Seq<u32>,
    t1: Seq<u32>,
    t2: Seq<u32>,
    t3: Seq<u32>,
    w: Seq<Seq<u32>>,
    b: Seq<Seq<u8>>,
    n: nat,
)
    requires
        n < 10,
        forall|r: int| 0 <= r < 10 ==> #[trigger] w[r].len() == 4,
        forall|r: int, c: int|
            0 <= r < 10 && 0 <= c < 4 ==> #[trigger] w[r][c] == b[r][4 * c] * 0x100_0000 + b[r][4
                * c + 1] * 0x1_0000 + b[r][4 * c + 2] * 0x100 + b[r][4 * c + 3],
        forall|c: int| 0 <= c < 4 ==> #[trigger] w[0][c] == block[c] ^ rk[c],
        forall|r: int, c: int|
            1 <= r < 10 && 0 <= c < 4 ==> #[trigger] w[r][c] == t0[b[r - 1][4 * c] as int]
                ^ t1[b[r - 1][4 * ((c + 1) % 4) + 1] as int] ^ t2[b[r - 1][4 * ((c + 2) % 4) + 2]
                as int] ^ t3[b[r - 1][4 * ((c + 3) % 4) + 3] as int] ^ rk[4 * r + c],
    ensures
        lookup_rounds(rk, block, t0, t1, t2, t3, n) == w[n as int],
    decreases n,
{
    let r = n as int;
    let after = w[r];
    assert(after.len() == 4);
    if n == 0 {
        assert forall|c: int| 0 <= c < 4 implies after[c] == block[c] ^ rk[c] by {
            assert(w[0][c] == block[c] ^ rk[c]);
        }
        assert(after =~= Seq::new(4, |c: int| block[c] ^ rk[c]));
    } else {
        lemma_lookup_states(rk, block, t0, t1, t2, t3, w, b, (n - 1) as nat);
        let (before, u) = (w[r - 1], b[r - 1]);
        assert forall|c: int| 0 <= c < 4 implies #[trigger] before[c] == u[4 * c] * 0x100_0000 + u[4
            * c + 1] * 0x1_0000 + u[4 * c + 2] * 0x100 + u[4 * c + 3] by {
            assert(w[r - 1][c] == before[c]);
        }
        assert forall|c: int| 0 <= c < 4 implies #[trigger] after[c] == t0[u[4 * c] as int] ^ t1[u[4
            * ((c + 1) % 4) + 1] as int] ^ t2[u[4 * ((c + 2) % 4) + 2] as int] ^ t3[u[4 * ((c + 3)
            % 4) + 3] as int] ^ rk[4 * r + c] by {
            assert(w[r][c] == after[c]);
        }
        lemma_lookup_step(before, u, after, rk, r, t0, t1, t2, t3);
        assert(lookup_rounds(rk, block, t0, t1, t2, t3, n) == Seq::new(
            4,
            |c: int| lookup_word(before, rk[4 * n + c], t0, t1, t2, t3, c),
        ));
    }
}

/// Encryption by lookup in any tables. `w[r]` are the words after round `r`, spelled
/// by the bytes `b[r]`. Then the words before round 1 are those of the block plus the
/// first four of the key schedule, word `c` of each of the rounds 1 to 9 is the sum
/// of one entry of each T-table, for row `r` of column `c + r`, and of the next word
/// of the key schedule, and word `c` of the result is made of four entries of the
/// last table and of word `40 + c` of the key schedule.
#[verifier::rlimit(40)]
pub proof fn lookup_in_any_tables(
    rk: Seq<u32>,
    block: Seq<u32>,
    t0: Seq<u32>,
    t1: Seq<u32>,
    t2: Seq<u32>,
    t3: Seq<u32>,
    sb: Seq<u32>,
    w: Seq<Seq<u32>>,
    b: Seq<Seq<u8>>,
    c: int,
)
    requires
        0 <= c < 4,
        forall|r: int| 0 <= r < 10 ==> #[trigger] w[r].len() == 4,
        forall|r: int, c: int|
            0 <= r < 10 && 0 <= c < 4 ==> #[trigger] w[r][c] == b[r][4 * c] * 0x100_0000 + b[r][4
                * c + 1] * 0x1_0000 + b[r][4 * c + 2] * 0x100 + b[r][4 * c + 3],
        forall|c: int| 0 <= c < 4 ==> #[trigger] w[0][c] == block[c] ^ rk[c],
        forall|r: int, c: int|
            1 <= r < 10 && 0 <= c < 4 ==> #[trigger] w[r][c] == t0[b[r - 1][4 * c] as int]
                ^ t1[b[r - 1][4 * ((c + 1) % 4) + 1] as int] ^ t2[b[r - 1][4 * ((c + 2) % 4) + 2]
                as int] ^ t3[b[r - 1][4 * ((c + 3) % 4) + 3] as int] ^ rk[4 * r + c],
    ensures
        lookup_cipher(rk, block, t0, t1, t2, t3, sb).len() == 4,
        lookup_cipher(rk, block, t0, t1, t2, t3, sb)[c] == ((sb[b[9][4 * c] as int] << 24) | (
        sb[b[9][4 * ((c + 1) % 4) + 1] as int] << 16) | (sb[b[9][4 * ((c + 2) % 4) + 2] as int]
            << 8) | sb[b[9][4 * ((c + 3) % 4) + 3] as int]) ^ rk[40 + c],
{
    reveal(lookup_cipher);
    lemma_lookup_states(rk, block, t0, t1, t2, t3, w, b, 9);
    let (last, u) = (w[9], b[9]);
    assert forall|c: int| 0 <= c < 4 implies #[trigger] last[c] == u[4 * c] * 0x100_0000 + u[4 * c
        + 1] * 0x1_0000 + u[4 * c + 2] * 0x100 + u[4 * c + 3] by {
        assert(w[9][c] == last[c]);
    }
    lemma_lookup_bytes(last, u, c);
    assert(lookup_cipher(rk, block, t0, t1, t2, t3, sb)[c] == lookup_last_word(
        w[9],
        rk[40 + c],
        sb,
        c,
    ));
}

// ---------------------------------------------------------------------------
// The key schedule.
// ---------------------------------------------------------------------------

/// Adding a round constant to a word adds it to the first byte.
proof fn lemma_add_constant(a: u32, y: u32, s0: u8, s1: u8, s2: u8, s3: u8, k: u8)
    by (bit_vector)
    ensures
        (a ^ y) ^ a == y,
        word(s0, s1, s2, s3) ^ word(k, 0, 0, 0) == word(s0 ^ k, s1, s2, s3),
{
}

/// The key schedule, word by word: word `i` plus word `i - 4` is word `i - 1`; but
/// where `i` is a multiple of four, it is spelled by the S-box outputs of the bytes
/// of word `i - 1`, moved up by one place, with the next round constant added to the
/// first of them.
#[verifier::rlimit(40)]
pub proof fn key_schedule_by_words(key: Seq<u32>, i: int, b0: u8, b1: u8, b2: u8, b3: u8)
    requires
        key.len() == 4,
        4 <= i < 44,
        key_schedule(key)[i - 1] == b0 * 0x100_0000 + b1 * 0x1_0000 + b2 * 0x100 + b3,
    ensures
        key_schedule(key).len() == 44,
        i % 4 != 0 ==> key_schedule(key)[i] ^ key_schedule(key)[i - 4] == key_schedule(key)[i
            - 1],
        i % 4 == 0 ==> key_schedule(key)[i] ^ key_schedule(key)[i - 4] == (SBOX@[b1 as int]
            ^ RCON@[i / 4 - 1]) * 0x100_0000 + SBOX@[b2 as int] * 0x1_0000 + SBOX@[b3 as int]
            * 0x100 + SBOX@[b0 as int],
{
    lemma_sbox();
    assert(SBOX@[b0 as int] == sbox(b0));
    assert(SBOX@[b1 as int] == sbox(b1));
    assert(SBOX@[b2 as int] == sbox(b2));
    assert(SBOX@[b3 as int] == sbox(b3));
    if i % 4 == 0 {
        round_constants_double(i / 4 - 1);
    }
    lemma_schedule_step(key, i, b0, b1, b2, b3);
}

proof fn lemma_schedule_step(key: Seq<u32>, i: int, b0: u8, b1: u8, b2: u8, b3: u8)
    requires
        4 <= i < 44,
        key_schedule(key)[i - 1] == b0 * 0x100_0000 + b1 * 0x1_0000 + b2 * 0x100 + b3,
    ensures
        i % 4 != 0 ==> key_schedule(key)[i] ^ key_schedule(key)[i - 4] == key_schedule(key)[i
            - 1],
        i % 4 == 0 ==> key_schedule(key)[i] ^ key_schedule(key)[i - 4] == (sbox(b1) ^ x_power(
            (i / 4 - 1) as nat,
        )) * 0x100_0000 + sbox(b2) * 0x1_0000 + sbox(b3) * 0x100 + sbox(b0),
{
    let w = key_schedule(key);
    let (now, last, old) = (w[i], w[i - 1], w[i - 4]);
    assert(now == schedule_word(key, i as nat));
    assert(last == schedule_word(key, (i - 1) as nat));
    assert(old == schedule_word(key, (i - 4) as nat));
    if i % 4 == 0 {
        let k = x_power((i / 4 - 1) as nat);
        lemma_spelled(last, b0, b1, b2, b3);
        lemma_bytes_of_word(b1, b2, b3, b0);
        let y = sub_word(rot_word(last)) ^ word(k, 0, 0, 0);
        assert(now == old ^ y);
        lemma_add_constant(old, y, sbox(b1), sbox(b2), sbox(b3), sbox(b0), k);
        word_is_a_number(sbox(b1) ^ k, sbox(b2), sbox(b3), sbox(b0));
    } else {
        lemma_add_constant(old, last, 0, 0, 0, 0, 0);
    }
}

// ---------------------------------------------------------------------------
// Counter mode.
// ---------------------------------------------------------------------------

/// The counter block for position `i` keeps the first three words, and its last word
/// is `i` more modulo 2^32; so it is the counter block itself for position 0, and
/// one more from each position to the next.
pub proof fn counter_by_words(counter0: Seq<u32>, i: int)
    requires
        counter0.len() == 4,
    ensures
        counter_at(counter0, i).len() == 4,
        counter_at(counter0, i)[0] == counter0[0],
        counter_at(counter0, i)[1] == counter0[1],
        counter_at(counter0, i)[2] == counter0[2],
        (counter_at(counter0, i)[3] - counter0[3] - i) % 0x1_0000_0000 == 0,
        counter_at(counter0, 0) == counter0,
        counter_at(counter0, i)[3] < u32::MAX ==> counter_at(counter0, i + 1)[3] == counter_at(
            counter0,
            i,
        )[3] + 1,
        counter_at(counter0, i)[3] == u32::MAX ==> counter_at(counter0, i + 1)[3] == 0,
{
    assert(counter_at(counter0, 0) =~= counter0);
}

/// A counter block whose first three words are those of `counter0` and whose last word
/// is `i` more modulo 2^32 is the one for position `i`.
pub proof fn counter_with_these_words(counter0: Seq<u32>, i: int, ctr: Seq<u32>)
    requires
        counter0.len() == 4,
        ctr.len() == 4,
        ctr[0] == counter0[0],
        ctr[1] == counter0[1],
        ctr[2] == counter0[2],
        (ctr[3] - counter0[3] - i) % 0x1_0000_0000 == 0,
    ensures
        ctr == counter_at(counter0, i),
{
    assert(ctr =~= counter_at(counter0, i));
}

/// Counter mode on the block at position `i`: word `k` of the result is word `k` of
/// the block plus word `k` of the encryption of the counter block, whose first three
/// words are those of `counter0` and whose last word is `i` more modulo 2^32.
pub proof fn counter_mode_by_words(
    rk: Seq<u32>,
    counter0: Seq<u32>,
    i: int,
    block: Seq<u32>,
    ctr: Seq<u32>,
    k: int,
)
    requires
        counter0.len() == 4,
        ctr.len() == 4,
        ctr[0] == counter0[0],
        ctr[1] == counter0[1],
        ctr[2] == counter0[2],
        (ctr[3] - counter0[3] - i) % 0x1_0000_0000 == 0,
        0 <= k < 4,
    ensures
        ctr_block(rk, counter0, i, block).len() == 4,
        ctr_block(rk, counter0, i, block)[k] == block[k] ^ encrypt_words(rk, ctr)[k],
{
    counter_with_these_words(counter0, i, ctr);
}

/// A message in counter mode, word by word: each word of each of the first `n` blocks
/// is the word of the plaintext plus the word of the encrypted counter block.
pub proof fn message_by_words(
    rk: Seq<u32>,
    counter0: Seq<u32>,
    blocks: Seq<[u32; 4]>,
    out: Seq<[u32; 4]>,
    n: int,
    i: int,
    ctr: Seq<u32>,
    k: int,
)
    requires
        is_ctr(rk, counter0, blocks, out, n),
        0 <= i < n,
        counter0.len() == 4,
        ctr.len() == 4,
        ctr[0] == counter0[0],
        ctr[1] == counter0[1],
        ctr[2] == counter0[2],
        (ctr[3] - counter0[3] - i) % 0x1_0000_0000 == 0,
        0 <= k < 4,
    ensures
        out[i]@[k] == blocks[i]@[k] ^ encrypt_words(rk, ctr)[k],
{
    assert(out[i]@ == ctr_block(rk, counter0, i, blocks[i]@));
    counter_with_these_words(counter0, i, ctr);
}

/// What is kept from position `n` on: every block from there on, and the length.
pub proof fn kept_from_a_position(
    before: Seq<[u32; 4]>,
    after: Seq<[u32; 4]>,
    n: int,
    i: int,
)
    requires
        same_from(before, after, n),
        n <= i < before.len(),
    ensures
        after.len() == before.len(),
        after[i] == before[i],
{
}

} // verus!
