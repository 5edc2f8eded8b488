//! Vector registers of 128, 256 and 512 bits, with the operations that the AES
//! instruction sets have on them.
//!
//! A 128-bit register is sixteen bytes, lowest address first. The wider
//! registers are two or four 128-bit lanes, and every operation acts on each
//! lane by itself.
//!
//! The registers are plain byte arrays and the operations are computed in software:
//! no CPU instruction set is used, and no CPU feature is needed or tested.

use crate::bits::{lemma_bytes_of_word, lemma_bytes_of_xor, lemma_word_of_bytes};
use crate::field::{gf_mul, lemma_mul_xtime};
use crate::model::{
    add_round_key, byte_at, bytes_of, counter_at, full_round, last_round, mix_columns, shift_rows,
    sub_bytes, word, words_of, xor_words,
};
use crate::tables::sbox_of;
use vstd::prelude::*;

verus! {

// ---------------------------------------------------------------------------
// Registers as byte sequences.
// ---------------------------------------------------------------------------

/// The register that holds four words in native (little-endian) order: word `k`
/// in lane element `k`, least significant byte first.
pub open spec fn native_bytes(words: Seq<u32>) -> Seq<u8> {
    Seq::new(16, |i: int| byte_at(words[i / 4], 3 - i % 4))
}

/// The four words that a register holds in native order.
pub open spec fn native_words(v: Seq<u8>) -> Seq<u32> {
    Seq::new(4, |k: int| word(v[4 * k + 3], v[4 * k + 2], v[4 * k + 1], v[4 * k]))
}

/// The word-wise sum modulo 2^32, without carry from word to word.
pub open spec fn add_words(a: Seq<u32>, b: Seq<u32>) -> Seq<u32> {
    Seq::new(4, |k: int| ((a[k] + b[k]) % 0x1_0000_0000) as u32)
}

/// The byte shuffle of PSHUFB: byte `i` is the byte of `v` that the low four
/// bits of `mask[i]` name, or zero where the high bit of `mask[i]` is set.
pub open spec fn shuffle_bytes(v: Seq<u8>, mask: Seq<u8>) -> Seq<u8> {
    Seq::new(
        16,
        |i: int|
            if mask[i] & 0x80 != 0 {
                0
            } else {
                v[(mask[i] & 0x0f) as int]
            },
    )
}

/// The words held in native order determine the register.
pub proof fn lemma_native_bytes(v: Seq<u8>)
    requires
        v.len() == 16,
    ensures
        native_bytes(native_words(v)) == v,
{
    assert forall|i: int| 0 <= i < 16 implies native_bytes(native_words(v))[i] == v[i] by {
        let k = i / 4;
        lemma_bytes_of_word(v[4 * k + 3], v[4 * k + 2], v[4 * k + 1], v[4 * k]);
    }
}

/// The register determines the words that it holds in native order.
pub proof fn lemma_native_words(words: Seq<u32>)
    requires
        words.len() == 4,
    ensures
        native_words(native_bytes(words)) == words,
{
    assert forall|k: int| 0 <= k < 4 implies native_words(native_bytes(words))[k] == words[k] by {
        lemma_word_of_bytes(words[k]);
        assert((4 * k) / 4 == k && (4 * k + 1) / 4 == k && (4 * k + 2) / 4 == k && (4 * k + 3) / 4
            == k);
    }
}

/// The mask that reverses the four bytes of every 32-bit word.
pub const BYTE_SWAP: [u8; 16] = [3, 2, 1, 0, 7, 6, 5, 4, 11, 10, 9, 8, 15, 14, 13, 12];

/// A mask entry below 16 names the byte with its own number.
proof fn lemma_small_mask(m: u8)
    by (bit_vector)
    ensures
        m < 16 ==> m & 0x80 == 0 && m & 0x0f == m,
        m & 0x0f < 16,
{
}

/// The byte swap moves byte `i` from the mirrored place within its word.
proof fn lemma_byte_swap(v: Seq<u8>)
    requires
        v.len() == 16,
    ensures
        shuffle_bytes(v, BYTE_SWAP@) == Seq::new(16, |i: int| v[4 * (i / 4) + 3 - i % 4]),
{
    assert forall|i: int| 0 <= i < 16 implies shuffle_bytes(v, BYTE_SWAP@)[i] == v[4 * (i / 4) + 3
        - i % 4] by {
        lemma_small_mask(BYTE_SWAP@[i]);
        assert(BYTE_SWAP@[i] == 4 * (i / 4) + 3 - i % 4);
    }
    assert(shuffle_bytes(v, BYTE_SWAP@) =~= Seq::new(16, |i: int| v[4 * (i / 4) + 3 - i % 4]));
}

/// The byte swap is its own inverse.
pub proof fn byte_swap_is_involution(v: Seq<u8>)
    requires
        v.len() == 16,
    ensures
        shuffle_bytes(shuffle_bytes(v, BYTE_SWAP@), BYTE_SWAP@) == v,
{
    lemma_byte_swap(v);
    lemma_byte_swap(shuffle_bytes(v, BYTE_SWAP@));
    assert(shuffle_bytes(shuffle_bytes(v, BYTE_SWAP@), BYTE_SWAP@) =~= v);
}

/// The byte swap turns words in native order into the AES state order.
pub proof fn byte_swap_of_native(words: Seq<u32>)
    ensures
        shuffle_bytes(native_bytes(words), BYTE_SWAP@) == bytes_of(words),
{
    lemma_byte_swap(native_bytes(words));
    assert(shuffle_bytes(native_bytes(words), BYTE_SWAP@) =~= bytes_of(words));
}

/// The byte swap turns an AES state into its words in native order.
pub proof fn byte_swap_of_state(state: Seq<u8>)
    requires
        state.len() == 16,
    ensures
        native_words(shuffle_bytes(state, BYTE_SWAP@)) == words_of(state),
{
    lemma_byte_swap(state);
    assert(native_words(shuffle_bytes(state, BYTE_SWAP@)) =~= words_of(state));
}

/// XOR of blocks is XOR of their registers.
proof fn lemma_native_bytes_xor(a: Seq<u32>, b: Seq<u32>)
    ensures
        native_bytes(xor_words(a, b)) == add_round_key(native_bytes(a), native_bytes(b)),
{
    assert forall|i: int| 0 <= i < 16 implies native_bytes(xor_words(a, b))[i] == add_round_key(
        native_bytes(a),
        native_bytes(b),
    )[i] by {
        lemma_bytes_of_xor(a[i / 4], b[i / 4]);
    }
}

/// XOR of registers in native order is the word-wise XOR.
pub proof fn lemma_native_xor(words: Seq<u32>, v: Seq<u8>)
    requires
        words.len() == 4,
        v.len() == 16,
    ensures
        native_words(add_round_key(native_bytes(words), v)) == xor_words(words, native_words(v)),
{
    lemma_native_bytes(v);
    lemma_native_bytes_xor(words, native_words(v));
    lemma_native_words(xor_words(words, native_words(v)));
}

/// Adding a word `k` to the last word of a counter advances it by `k`.
proof fn lemma_counter_sum(counter0: Seq<u32>, a: int, k: u32)
    requires
        counter0.len() == 4,
    ensures
        add_words(counter_at(counter0, a), seq![0u32, 0u32, 0u32, k]) == counter_at(
            counter0,
            a + k,
        ),
{
    let sum = add_words(counter_at(counter0, a), seq![0u32, 0u32, 0u32, k]);
    assert(((counter0[3] + a) % 0x1_0000_0000 + k) % 0x1_0000_0000 == (counter0[3] + (a + k))
        % 0x1_0000_0000);
    assert(sum =~= counter_at(counter0, a + k));
}

/// Adding a word `k` to the last word of a counter in native order advances it
/// by `k`.
pub proof fn lemma_native_counter_step(counter0: Seq<u32>, a: int, k: u32)
    requires
        counter0.len() == 4,
    ensures
        native_bytes(
            add_words(
                native_words(native_bytes(counter_at(counter0, a))),
                native_words(native_bytes(seq![0u32, 0u32, 0u32, k])),
            ),
        ) == native_bytes(counter_at(counter0, a + k)),
{
    let c = counter_at(counter0, a);
    let step = seq![0u32, 0u32, 0u32, k];
    lemma_native_words(c);
    lemma_native_words(step);
    lemma_counter_sum(counter0, a, k);
}

// ---------------------------------------------------------------------------
// 128-bit registers.
// ---------------------------------------------------------------------------

/// A 128-bit register.
#[derive(Clone, Copy)]
pub struct V128 {
    pub bytes: [u8; 16],
}

impl View for V128 {
    type V = Seq<u8>;

    open spec fn view(&self) -> Seq<u8> {
        self.bytes@
    }
}

/// `a * 2` in GF(2^8).
fn double(a: u8) -> (r: u8)
    ensures
        r == gf_mul(a, 2),
        r ^ a == gf_mul(a, 3),
{
    proof {
        lemma_mul_xtime(a, 0);
    }
    let shifted: u8 = a << 1;
    if a >> 7 == 1 {
        shifted ^ 0x1b
    } else {
        shifted ^ 0
    }
}

/// Word-wise addition modulo 2^32.
fn sum_of_words(a: [u32; 4], b: [u32; 4]) -> (sum: [u32; 4])
    ensures
        sum@ == add_words(a@, b@),
{
    let sum: [u32; 4] = [
        a[0].wrapping_add(b[0]),
        a[1].wrapping_add(b[1]),
        a[2].wrapping_add(b[2]),
        a[3].wrapping_add(b[3]),
    ];
    assert(sum@ =~= add_words(a@, b@));
    sum
}

impl V128 {
    /// The register with all bits zero.
    pub fn zero() -> (v: V128)
        ensures
            v@ == Seq::new(16, |i: int| 0u8),
    {
        let v = V128 { bytes: [0u8; 16] };
        assert(v@ =~= Seq::new(16, |i: int| 0u8));
        v
    }

    /// The register that holds four words in native order.
    pub fn from_words(w: [u32; 4]) -> (v: V128)
        ensures
            v@ == native_bytes(w@),
    {
        let mut bytes: [u8; 16] = [0u8; 16];
        let mut k: usize = 0;
        while k < 4
            invariant
                k <= 4,
                forall|i: int| 0 <= i < 4 * k ==> #[trigger] bytes@[i] == native_bytes(w@)[i],
            decreases 4 - k,
        {
            let x: u32 = w[k];
            bytes[4 * k] = x as u8;
            bytes[4 * k + 1] = (x >> 8) as u8;
            bytes[4 * k + 2] = (x >> 16) as u8;
            bytes[4 * k + 3] = (x >> 24) as u8;
            k = k + 1;
        }
        assert(bytes@ =~= native_bytes(w@));
        V128 { bytes }
    }

    /// The four words that the register holds in native order.
    pub fn to_words(self) -> (w: [u32; 4])
        ensures
            w@ == native_words(self@),
            native_bytes(w@) == self@,
    {
        let mut w: [u32; 4] = [0u32; 4];
        let mut k: usize = 0;
        while k < 4
            invariant
                k <= 4,
                forall|j: int| 0 <= j < k ==> #[trigger] w@[j] == native_words(self@)[j],
            decreases 4 - k,
        {
            w[k] = ((self.bytes[4 * k + 3] as u32) << 24) | ((self.bytes[4 * k + 2] as u32) << 16) | (
            (self.bytes[4 * k + 1] as u32) << 8) | (self.bytes[4 * k] as u32);
            k = k + 1;
        }
        proof {
            assert(w@ =~= native_words(self@));
            lemma_native_bytes(self@);
        }
        w
    }

    /// Bitwise XOR.
    pub fn xor(self, other: V128) -> (v: V128)
        ensures
            v@ == add_round_key(self@, other@),
    {
        let mut bytes: [u8; 16] = [0u8; 16];
        let mut i: usize = 0;
        while i < 16
            invariant
                i <= 16,
                forall|j: int| 0 <= j < i ==> #[trigger] bytes@[j] == self@[j] ^ other@[j],
            decreases 16 - i,
        {
            bytes[i] = self.bytes[i] ^ other.bytes[i];
            i = i + 1;
        }
        assert(bytes@ =~= add_round_key(self@, other@));
        V128 { bytes }
    }

    /// Word-wise addition modulo 2^32 of registers in native order.
    pub fn add(self, other: V128) -> (v: V128)
        ensures
            v@ == native_bytes(add_words(native_words(self@), native_words(other@))),
    {
        V128::from_words(sum_of_words(self.to_words(), other.to_words()))
    }

    /// Byte shuffle (PSHUFB).
    pub fn shuffle(self, mask: V128) -> (v: V128)
        ensures
            v@ == shuffle_bytes(self@, mask@),
    {
        let mut bytes: [u8; 16] = [0u8; 16];
        let mut i: usize = 0;
        while i < 16
            invariant
                i <= 16,
                forall|j: int|
                    0 <= j < i ==> #[trigger] bytes@[j] == shuffle_bytes(self@, mask@)[j],
            decreases 16 - i,
        {
            let m: u8 = mask.bytes[i];
            proof {
                lemma_small_mask(m);
            }
            if m & 0x80 != 0 {
                bytes[i] = 0;
            } else {
                bytes[i] = self.bytes[(m & 0x0f) as usize];
            }
            i = i + 1;
        }
        assert(bytes@ =~= shuffle_bytes(self@, mask@));
        V128 { bytes }
    }

    /// SubBytes and ShiftRows.
    fn substitute_and_shift(self) -> (v: V128)
        ensures
            v@ == shift_rows(sub_bytes(self@)),
    {
        let mut bytes: [u8; 16] = [0u8; 16];
        let mut i: usize = 0;
        while i < 16
            invariant
                i <= 16,
                forall|j: int|
                    0 <= j < i ==> #[trigger] bytes@[j] == shift_rows(sub_bytes(self@))[j],
            decreases 16 - i,
        {
            bytes[i] = sbox_of(self.bytes[4 * ((i / 4 + i % 4) % 4) + i % 4]);
            i = i + 1;
        }
        assert(bytes@ =~= shift_rows(sub_bytes(self@)));
        V128 { bytes }
    }

    /// MixColumns.
    fn mix(self) -> (v: V128)
        ensures
            v@ == mix_columns(self@),
    {
        let mut bytes: [u8; 16] = [0u8; 16];
        let mut c: usize = 0;
        while c < 4
            invariant
                c <= 4,
                forall|j: int| 0 <= j < 4 * c ==> #[trigger] bytes@[j] == mix_columns(self@)[j],
            decreases 4 - c,
        {
            let a0: u8 = self.bytes[4 * c];
            let a1: u8 = self.bytes[4 * c + 1];
            let a2: u8 = self.bytes[4 * c + 2];
            let a3: u8 = self.bytes[4 * c + 3];
            let d0: u8 = double(a0);
            let d1: u8 = double(a1);
            let d2: u8 = double(a2);
            let d3: u8 = double(a3);
            bytes[4 * c] = d0 ^ (d1 ^ a1) ^ a2 ^ a3;
            bytes[4 * c + 1] = a0 ^ d1 ^ (d2 ^ a2) ^ a3;
            bytes[4 * c + 2] = a0 ^ a1 ^ d2 ^ (d3 ^ a3);
            bytes[4 * c + 3] = (d0 ^ a0) ^ a1 ^ a2 ^ d3;
            c = c + 1;
        }
        assert(bytes@ =~= mix_columns(self@));
        V128 { bytes }
    }

    /// One AES round (AESENC): ShiftRows, SubBytes, MixColumns, AddRoundKey.
    pub fn aesenc(self, key: V128) -> (v: V128)
        ensures
            v@ == full_round(self@, key@),
    {
        self.substitute_and_shift().mix().xor(key)
    }

    /// The last AES round (AESENCLAST): ShiftRows, SubBytes, AddRoundKey.
    pub fn aesenclast(self, key: V128) -> (v: V128)
        ensures
            v@ == last_round(self@, key@),
    {
        self.substitute_and_shift().xor(key)
    }
}

// ---------------------------------------------------------------------------
// Wide registers.
// ---------------------------------------------------------------------------

/// A register of `L` 128-bit lanes, lowest address first: 256 bits for two
/// lanes, 512 bits for four.
#[derive(Clone, Copy)]
pub struct Wide<const L: usize> {
    pub lanes: [V128; L],
}

impl<const L: usize> Wide<L> {
    /// The register with `v` in every lane.
    pub fn broadcast(v: V128) -> (w: Wide<L>)
        ensures
            forall|l: int| 0 <= l < L ==> #[trigger] w.lanes@[l] == v,
    {
        Wide { lanes: [v; L] }
    }

    /// The `L` blocks from position `at` on, each in native order.
    pub fn load(blocks: &[[u32; 4]], at: usize) -> (w: Wide<L>)
        requires
            at + L <= blocks.len(),
        ensures
            forall|l: int|
                0 <= l < L ==> #[trigger] w.lanes@[l]@ == native_bytes(blocks@[at + l]@),
    {
        let mut lanes: [V128; L] = [V128::zero(); L];
        let mut l: usize = 0;
        while l < L
            invariant
                at + L <= blocks.len(),
                l <= L,
                forall|m: int|
                    0 <= m < l ==> #[trigger] lanes@[m]@ == native_bytes(blocks@[at + m]@),
            decreases L - l,
        {
            lanes[l] = V128::from_words(blocks[at + l]);
            l = l + 1;
        }
        Wide { lanes }
    }

    /// Store the lanes as the `L` blocks from position `at` on.
    pub fn store(self, out: &mut [[u32; 4]], at: usize)
        requires
            at + L <= old(out).len(),
        ensures
            final(out)@.len() == old(out)@.len(),
            forall|l: int|
                0 <= l < L ==> #[trigger] final(out)@[at + l]@ == native_words(self.lanes@[l]@),
            forall|i: int|
                0 <= i < old(out).len() && !(at <= i < at + L) ==> #[trigger] final(out)@[i]
                    == old(out)@[i],
    {
        let mut l: usize = 0;
        while l < L
            invariant
                at + L <= out.len(),
                out@.len() == old(out)@.len(),
                l <= L,
                forall|i: int|
                    at <= i < at + l ==> #[trigger] out@[i]@ == native_words(
                        self.lanes@[i - at]@,
                    ),
                forall|i: int|
                    0 <= i < out.len() && !(at <= i < at + L) ==> #[trigger] out@[i]
                        == old(out)@[i],
            decreases L - l,
        {
            out[at + l] = self.lanes[l].to_words();
            l = l + 1;
        }
    }

    /// Bitwise XOR.
    pub fn xor(self, other: Wide<L>) -> (w: Wide<L>)
        ensures
            forall|l: int|
                0 <= l < L ==> #[trigger] w.lanes@[l]@ == add_round_key(
                    self.lanes@[l]@,
                    other.lanes@[l]@,
                ),
    {
        let mut lanes: [V128; L] = self.lanes;
        let mut l: usize = 0;
        while l < L
            invariant
                l <= L,
                forall|m: int|
                    0 <= m < l ==> #[trigger] lanes@[m]@ == add_round_key(
                        self.lanes@[m]@,
                        other.lanes@[m]@,
                    ),
            decreases L - l,
        {
            lanes[l] = self.lanes[l].xor(other.lanes[l]);
            l = l + 1;
        }
        Wide { lanes }
    }

    /// Word-wise addition modulo 2^32 of registers in native order.
    pub fn add(self, other: Wide<L>) -> (w: Wide<L>)
        ensures
            forall|l: int|
                0 <= l < L ==> #[trigger] w.lanes@[l]@ == native_bytes(
                    add_words(native_words(self.lanes@[l]@), native_words(other.lanes@[l]@)),
                ),
    {
        let mut lanes: [V128; L] = self.lanes;
        let mut l: usize = 0;
        while l < L
            invariant
                l <= L,
                forall|m: int|
                    0 <= m < l ==> #[trigger] lanes@[m]@ == native_bytes(
                        add_words(native_words(self.lanes@[m]@), native_words(other.lanes@[m]@)),
                    ),
            decreases L - l,
        {
            lanes[l] = self.lanes[l].add(other.lanes[l]);
            l = l + 1;
        }
        Wide { lanes }
    }

    /// Byte shuffle within each lane.
    pub fn shuffle(self, mask: Wide<L>) -> (w: Wide<L>)
        ensures
            forall|l: int|
                0 <= l < L ==> #[trigger] w.lanes@[l]@ == shuffle_bytes(
                    self.lanes@[l]@,
                    mask.lanes@[l]@,
                ),
    {
        let mut lanes: [V128; L] = self.lanes;
        let mut l: usize = 0;
        while l < L
            invariant
                l <= L,
                forall|m: int|
                    0 <= m < l ==> #[trigger] lanes@[m]@ == shuffle_bytes(
                        self.lanes@[m]@,
                        mask.lanes@[m]@,
                    ),
            decreases L - l,
        {
            lanes[l] = self.lanes[l].shuffle(mask.lanes[l]);
            l = l + 1;
        }
        Wide { lanes }
    }

    /// One AES round on every lane (VAESENC).
    pub fn aesenc(self, key: Wide<L>) -> (w: Wide<L>)
        ensures
            forall|l: int|
                0 <= l < L ==> #[trigger] w.lanes@[l]@ == full_round(
                    self.lanes@[l]@,
                    key.lanes@[l]@,
                ),
    {
        let mut lanes: [V128; L] = self.lanes;
        let mut l: usize = 0;
        while l < L
            invariant
                l <= L,
                forall|m: int|
                    0 <= m < l ==> #[trigger] lanes@[m]@ == full_round(
                        self.lanes@[m]@,
                        key.lanes@[m]@,
                    ),
            decreases L - l,
        {
            lanes[l] = self.lanes[l].aesenc(key.lanes[l]);
            l = l + 1;
        }
        Wide { lanes }
    }

    /// The last AES round on every lane (VAESENCLAST).
    pub fn aesenclast(self, key: Wide<L>) -> (w: Wide<L>)
        ensures
            forall|l: int|
                0 <= l < L ==> #[trigger] w.lanes@[l]@ == last_round(
                    self.lanes@[l]@,
                    key.lanes@[l]@,
                ),
    {
        let mut lanes: [V128; L] = self.lanes;
        let mut l: usize = 0;
        while l < L
            invariant
                l <= L,
                forall|m: int|
                    0 <= m < l ==> #[trigger] lanes@[m]@ == last_round(
                        self.lanes@[m]@,
                        key.lanes@[m]@,
                    ),
            decreases L - l,
        {
            lanes[l] = self.lanes[l].aesenclast(key.lanes[l]);
            l = l + 1;
        }
        Wide { lanes }
    }
}

} // verus!
