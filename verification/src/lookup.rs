//! Proofs that the table lookups compute the AES rounds.

use crate::bits::{
    lemma_bytes_of_word, lemma_bytes_of_xor, lemma_rotated_word, lemma_words_of_bytes,
};
use crate::field::gf_mul;
use crate::model::{
    are_aes_tables, byte_at, bytes_of, encrypt_words, full_round, last_round, lookup_cipher,
    lookup_last_word, lookup_rounds, lookup_word, mix_byte, rounds, sbox, shift_rows, sub_bytes,
    word,
};
use vstd::prelude::*;

verus! {

/// The bytes of one looked-up word: the mixed column plus the key.
proof fn lemma_lookup_word(
    s: Seq<u32>,
    k: u32,
    t0: Seq<u32>,
    t1: Seq<u32>,
    t2: Seq<u32>,
    t3: Seq<u32>,
    sb: Seq<u32>,
    c: int,
)
    requires
        are_aes_tables(t0, t1, t2, t3, sb),
    ensures
        forall|r: int|
            0 <= r < 4 ==> #[trigger] byte_at(lookup_word(s, k, t0, t1, t2, t3, c), r) == mix_byte(
                sbox(byte_at(s[c], 0)),
                sbox(byte_at(s[(c + 1) % 4], 1)),
                sbox(byte_at(s[(c + 2) % 4], 2)),
                sbox(byte_at(s[(c + 3) % 4], 3)),
                r,
            ) ^ byte_at(k, r),
{
    reveal(are_aes_tables);
    let x0 = byte_at(s[c], 0);
    let x1 = byte_at(s[(c + 1) % 4], 1);
    let x2 = byte_at(s[(c + 2) % 4], 2);
    let x3 = byte_at(s[(c + 3) % 4], 3);
    let (a0, a1, a2, a3) = (sbox(x0), sbox(x1), sbox(x2), sbox(x3));
    let (w0, w1, w2, w3) = (t0[x0 as int], t1[x1 as int], t2[x2 as int], t3[x3 as int]);
    assert(w0 == word(gf_mul(a0, 2), a0, a0, gf_mul(a0, 3)));
    assert(w1 == word(gf_mul(a1, 3), gf_mul(a1, 2), a1, a1)) by {
        lemma_rotated_word(gf_mul(a1, 2), a1, a1, gf_mul(a1, 3));
    }
    assert(w2 == word(a2, gf_mul(a2, 3), gf_mul(a2, 2), a2)) by {
        lemma_rotated_word(gf_mul(a2, 2), a2, a2, gf_mul(a2, 3));
    }
    assert(w3 == word(a3, a3, gf_mul(a3, 3), gf_mul(a3, 2))) by {
        lemma_rotated_word(gf_mul(a3, 2), a3, a3, gf_mul(a3, 3));
    }
    lemma_bytes_of_word(gf_mul(a0, 2), a0, a0, gf_mul(a0, 3));
    lemma_bytes_of_word(gf_mul(a1, 3), gf_mul(a1, 2), a1, a1);
    lemma_bytes_of_word(a2, gf_mul(a2, 3), gf_mul(a2, 2), a2);
    lemma_bytes_of_word(a3, a3, gf_mul(a3, 3), gf_mul(a3, 2));
    lemma_bytes_of_xor(w0, w1);
    lemma_bytes_of_xor(w0 ^ w1, w2);
    lemma_bytes_of_xor(w0 ^ w1 ^ w2, w3);
    lemma_bytes_of_xor(w0 ^ w1 ^ w2 ^ w3, k);
}

/// A round by table lookup is an AES round.
proof fn lemma_lookup_round(
    s: Seq<u32>,
    k: Seq<u32>,
    t0: Seq<u32>,
    t1: Seq<u32>,
    t2: Seq<u32>,
    t3: Seq<u32>,
    sb: Seq<u32>,
)
    requires
        are_aes_tables(t0, t1, t2, t3, sb),
    ensures
        bytes_of(Seq::new(4, |c: int| lookup_word(s, k[c], t0, t1, t2, t3, c))) == full_round(
            bytes_of(s),
            bytes_of(k),
        ),
{
    let next = Seq::new(4, |c: int| lookup_word(s, k[c], t0, t1, t2, t3, c));
    let state = shift_rows(sub_bytes(bytes_of(s)));
    assert forall|i: int| 0 <= i < 16 implies bytes_of(next)[i] == full_round(
        bytes_of(s),
        bytes_of(k),
    )[i] by {
        let c = i / 4;
        lemma_lookup_word(s, k[c], t0, t1, t2, t3, sb, c);
        assert(state[4 * c] == sbox(byte_at(s[c], 0)));
        assert(state[4 * c + 1] == sbox(byte_at(s[(c + 1) % 4], 1)));
        assert(state[4 * c + 2] == sbox(byte_at(s[(c + 2) % 4], 2)));
        assert(state[4 * c + 3] == sbox(byte_at(s[(c + 3) % 4], 3)));
    }
}

/// The last round by table lookup is the last AES round.
proof fn lemma_lookup_last_round(
    s: Seq<u32>,
    k: Seq<u32>,
    t0: Seq<u32>,
    t1: Seq<u32>,
    t2: Seq<u32>,
    t3: Seq<u32>,
    sb: Seq<u32>,
)
    requires
        are_aes_tables(t0, t1, t2, t3, sb),
    ensures
        bytes_of(Seq::new(4, |c: int| lookup_last_word(s, k[c], sb, c))) == last_round(
            bytes_of(s),
            bytes_of(k),
        ),
{
    let next = Seq::new(4, |c: int| lookup_last_word(s, k[c], sb, c));
    let state = shift_rows(sub_bytes(bytes_of(s)));
    assert forall|i: int| 0 <= i < 16 implies bytes_of(next)[i] == last_round(
        bytes_of(s),
        bytes_of(k),
    )[i] by {
        reveal(are_aes_tables);
        let c = i / 4;
        let (a0, a1, a2, a3) = (
            sbox(byte_at(s[c], 0)),
            sbox(byte_at(s[(c + 1) % 4], 1)),
            sbox(byte_at(s[(c + 2) % 4], 2)),
            sbox(byte_at(s[(c + 3) % 4], 3)),
        );
        assert(next[c] == word(a0, a1, a2, a3) ^ k[c]);
        lemma_bytes_of_word(a0, a1, a2, a3);
        lemma_bytes_of_xor(word(a0, a1, a2, a3), k[c]);
        assert(state[4 * c] == a0);
        assert(state[4 * c + 1] == a1);
        assert(state[4 * c + 2] == a2);
        assert(state[4 * c + 3] == a3);
    }
}

/// The rounds by table lookup are the AES rounds.
proof fn lemma_lookup_rounds(
    rk: Seq<u32>,
    block: Seq<u32>,
    t0: Seq<u32>,
    t1: Seq<u32>,
    t2: Seq<u32>,
    t3: Seq<u32>,
    sb: Seq<u32>,
    n: nat,
)
    requires
        are_aes_tables(t0, t1, t2, t3, sb),
        n < 10,
        rk.len() >= 44,
    ensures
        bytes_of(lookup_rounds(rk, block, t0, t1, t2, t3, n)) == rounds(rk, bytes_of(block), n),
    decreases n,
{
    let k = rk.subrange(4 * (n as int), 4 * (n as int) + 4);
    if n == 0 {
        let next = lookup_rounds(rk, block, t0, t1, t2, t3, 0);
        assert forall|i: int| 0 <= i < 16 implies bytes_of(next)[i] == rounds(
            rk,
            bytes_of(block),
            0,
        )[i] by {
            lemma_bytes_of_xor(block[i / 4], rk[i / 4]);
        }
    } else {
        let s = lookup_rounds(rk, block, t0, t1, t2, t3, (n - 1) as nat);
        lemma_lookup_rounds(rk, block, t0, t1, t2, t3, sb, (n - 1) as nat);
        lemma_lookup_round(s, k, t0, t1, t2, t3, sb);
        assert(lookup_rounds(rk, block, t0, t1, t2, t3, n) =~= Seq::new(
            4,
            |c: int| lookup_word(s, k[c], t0, t1, t2, t3, c),
        ));
    }
}

/// With the AES tables, the cipher by table lookup is AES-128.
pub proof fn lookup_cipher_is_aes(
    rk: Seq<u32>,
    block: Seq<u32>,
    t0: Seq<u32>,
    t1: Seq<u32>,
    t2: Seq<u32>,
    t3: Seq<u32>,
    sb: Seq<u32>,
)
    requires
        are_aes_tables(t0, t1, t2, t3, sb),
        rk.len() >= 44,
    ensures
        lookup_cipher(rk, block, t0, t1, t2, t3, sb) == encrypt_words(rk, block),
{
    reveal(lookup_cipher);
    let s = lookup_rounds(rk, block, t0, t1, t2, t3, 9);
    let k = rk.subrange(40, 44);
    let out = lookup_cipher(rk, block, t0, t1, t2, t3, sb);
    lemma_lookup_rounds(rk, block, t0, t1, t2, t3, sb, 9);
    lemma_lookup_last_round(s, k, t0, t1, t2, t3, sb);
    assert(out =~= Seq::new(4, |c: int| lookup_last_word(s, k[c], sb, c)));
    lemma_words_of_bytes(out);
    reveal(encrypt_words);
}

} // verus!
