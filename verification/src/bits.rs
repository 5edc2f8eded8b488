//! Facts about the bytes of a word and about XOR.

use crate::model::{byte_at, bytes_of, rotr, word, words_of};
use vstd::prelude::*;

verus! {

/// XOR on bytes is associative, commutative and self-inverse, with unit zero.
pub proof fn lemma_xor_bytes()
    by (bit_vector)
    ensures
        forall|a: u8, b: u8, c: u8| #[trigger] ((a ^ b) ^ c) == a ^ (b ^ c),
        forall|a: u8, b: u8| #[trigger] (a ^ b) == b ^ a,
        forall|a: u8| #[trigger] (a ^ a) == 0,
        forall|a: u8| #[trigger] (a ^ 0) == a,
        forall|a: u8, b: u8| #[trigger] (a ^ b) == 0 ==> a == b,
{
}

/// XOR on words is associative and self-inverse, with unit zero.
pub proof fn lemma_xor_words()
    by (bit_vector)
    ensures
        forall|a: u32, b: u32, c: u32| #[trigger] ((a ^ b) ^ c) == a ^ (b ^ c),
        forall|a: u32| #[trigger] (a ^ a) == 0,
        forall|a: u32| #[trigger] (a ^ 0) == a,
        forall|a: u32| #[trigger] (0 ^ a) == a,
{
}

/// A word is made of its bytes.
pub proof fn lemma_word_of_bytes(w: u32)
    by (bit_vector)
    ensures
        word(byte_at(w, 0), byte_at(w, 1), byte_at(w, 2), byte_at(w, 3)) == w,
        (w >> 24) == byte_at(w, 0),
        ((w >> 16) & 0xff) == byte_at(w, 1),
        ((w >> 8) & 0xff) == byte_at(w, 2),
        (w & 0xff) == byte_at(w, 3),
{
}

/// The bytes of a word are those that it was made of.
pub proof fn lemma_bytes_of_word(b0: u8, b1: u8, b2: u8, b3: u8)
    by (bit_vector)
    ensures
        byte_at(word(b0, b1, b2, b3), 0) == b0,
        byte_at(word(b0, b1, b2, b3), 1) == b1,
        byte_at(word(b0, b1, b2, b3), 2) == b2,
        byte_at(word(b0, b1, b2, b3), 3) == b3,
{
}

/// XOR acts on each byte of a word by itself.
pub proof fn lemma_bytes_of_xor(x: u32, y: u32)
    by (bit_vector)
    ensures
        byte_at(x ^ y, 0) == byte_at(x, 0) ^ byte_at(y, 0),
        byte_at(x ^ y, 1) == byte_at(x, 1) ^ byte_at(y, 1),
        byte_at(x ^ y, 2) == byte_at(x, 2) ^ byte_at(y, 2),
        byte_at(x ^ y, 3) == byte_at(x, 3) ^ byte_at(y, 3),
{
}

/// Rotations by whole bytes, of a word given by its bytes.
pub proof fn lemma_rotated_word(b0: u8, b1: u8, b2: u8, b3: u8)
    by (bit_vector)
    ensures
        rotr(word(b0, b1, b2, b3), 8) == word(b3, b0, b1, b2),
        rotr(word(b0, b1, b2, b3), 16) == word(b2, b3, b0, b1),
        rotr(word(b0, b1, b2, b3), 24) == word(b1, b2, b3, b0),
{
}

/// Four words and their state determine each other.
pub proof fn lemma_words_of_bytes(words: Seq<u32>)
    requires
        words.len() == 4,
    ensures
        words_of(bytes_of(words)) == words,
{
    assert forall|c: int| 0 <= c < 4 implies words_of(bytes_of(words))[c] == words[c] by {
        lemma_word_of_bytes(words[c]);
        assert((4 * c) / 4 == c && (4 * c + 1) / 4 == c && (4 * c + 2) / 4 == c && (4 * c + 3) / 4
            == c);
    }
}

/// A state and its four words determine each other.
pub proof fn lemma_bytes_of_words(state: Seq<u8>)
    requires
        state.len() == 16,
    ensures
        bytes_of(words_of(state)) == state,
{
    assert forall|i: int| 0 <= i < 16 implies bytes_of(words_of(state))[i] == state[i] by {
        let c = i / 4;
        lemma_bytes_of_word(state[4 * c], state[4 * c + 1], state[4 * c + 2], state[4 * c + 3]);
    }
}

} // verus!
