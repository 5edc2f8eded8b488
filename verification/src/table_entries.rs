//! Proofs that the entries of the constant tables are what GF(2^8) makes of
//! them.

use crate::field::{gf_inv_is_inverse, gf_mul, lemma_mul_xtime, xtime};
use crate::model::{affine, are_aes_tables, rotr, sbox, t0_entry, word, x_power};
use crate::tables::{RCON, SBOX, SBOX_U32, T0, T1, T2, T3};
use vstd::prelude::*;

verus! {

/// `y` is the inverse of `x`, and `s` the affine image of `y`.
#[verifier::opaque]
spec fn sbox_witness(x: u8, y: u8, s: u8) -> bool {
    (if x == 0 { y == 0 } else { gf_mul(x, y) == 1 }) && affine(y) == s
}

/// Each entry of the S-box, with the inverse that it comes from.
spec fn sbox_witnesses() -> bool {
    &&& sbox_witness(0x00, 0x00, 0x63)
    &&& sbox_witness(0x01, 0x01, 0x7c)
    &&& sbox_witness(0x02, 0x8d, 0x77)
    &&& sbox_witness(0x03, 0xf6, 0x7b)
    &&& sbox_witness(0x04, 0xcb, 0xf2)
    &&& sbox_witness(0x05, 0x52, 0x6b)
    &&& sbox_witness(0x06, 0x7b, 0x6f)
    &&& sbox_witness(0x07, 0xd1, 0xc5)
    &&& sbox_witness(0x08, 0xe8, 0x30)
    &&& sbox_witness(0x09, 0x4f, 0x01)
    &&& sbox_witness(0x0a, 0x29, 0x67)
    &&& sbox_witness(0x0b, 0xc0, 0x2b)
    &&& sbox_witness(0x0c, 0xb0, 0xfe)
    &&& sbox_witness(0x0d, 0xe1, 0xd7)
    &&& sbox_witness(0x0e, 0xe5, 0xab)
    &&& sbox_witness(0x0f, 0xc7, 0x76)
    &&& sbox_witness(0x10, 0x74, 0xca)
    &&& sbox_witness(0x11, 0xb4, 0x82)
    &&& sbox_witness(0x12, 0xaa, 0xc9)
    &&& sbox_witness(0x13, 0x4b, 0x7d)
    &&& sbox_witness(0x14, 0x99, 0xfa)
    &&& sbox_witness(0x15, 0x2b, 0x59)
    &&& sbox_witness(0x16, 0x60, 0x47)
    &&& sbox_witness(0x17, 0x5f, 0xf0)
    &&& sbox_witness(0x18, 0x58, 0xad)
    &&& sbox_witness(0x19, 0x3f, 0xd4)
    &&& sbox_witness(0x1a, 0xfd, 0xa2)
    &&& sbox_witness(0x1b, 0xcc, 0xaf)
    &&& sbox_witness(0x1c, 0xff, 0x9c)
    &&& sbox_witness(0x1d, 0x40, 0xa4)
    &&& sbox_witness(0x1e, 0xee, 0x72)
    &&& sbox_witness(0x1f, 0xb2, 0xc0)
    &&& sbox_witness(0x20, 0x3a, 0xb7)
    &&& sbox_witness(0x21, 0x6e, 0xfd)
    &&& sbox_witness(0x22, 0x5a, 0x93)
    &&& sbox_witness(0x23, 0xf1, 0x26)
    &&& sbox_witness(0x24, 0x55, 0x36)
    &&& sbox_witness(0x25, 0x4d, 0x3f)
    &&& sbox_witness(0x26, 0xa8, 0xf7)
    &&& sbox_witness(0x27, 0xc9, 0xcc)
    &&& sbox_witness(0x28, 0xc1, 0x34)
    &&& sbox_witness(0x29, 0x0a, 0xa5)
    &&& sbox_witness(0x2a, 0x98, 0xe5)
    &&& sbox_witness(0x2b, 0x15, 0xf1)
    &&& sbox_witness(0x2c, 0x30, 0x71)
    &&& sbox_witness(0x2d, 0x44, 0xd8)
    &&& sbox_witness(0x2e, 0xa2, 0x31)
    &&& sbox_witness(0x2f, 0xc2, 0x15)
    &&& sbox_witness(0x30, 0x2c, 0x04)
    &&& sbox_witness(0x31, 0x45, 0xc7)
    &&& sbox_witness(0x32, 0x92, 0x23)
    &&& sbox_witness(0x33, 0x6c, 0xc3)
    &&& sbox_witness(0x34, 0xf3, 0x18)
    &&& sbox_witness(0x35, 0x39, 0x96)
    &&& sbox_witness(0x36, 0x66, 0x05)
    &&& sbox_witness(0x37, 0x42, 0x9a)
    &&& sbox_witness(0x38, 0xf2, 0x07)
    &&& sbox_witness(0x39, 0x35, 0x12)
    &&& sbox_witness(0x3a, 0x20, 0x80)
    &&& sbox_witness(0x3b, 0x6f, 0xe2)
    &&& sbox_witness(0x3c, 0x77, 0xeb)
    &&& sbox_witness(0x3d, 0xbb, 0x27)
    &&& sbox_witness(0x3e, 0x59, 0xb2)
    &&& sbox_witness(0x3f, 0x19, 0x75)
    &&& sbox_witness(0x40, 0x1d, 0x09)
    &&& sbox_witness(0x41, 0xfe, 0x83)
    &&& sbox_witness(0x42, 0x37, 0x2c)
    &&& sbox_witness(0x43, 0x67, 0x1a)
    &&& sbox_witness(0x44, 0x2d, 0x1b)
    &&& sbox_witness(0x45, 0x31, 0x6e)
    &&& sbox_witness(0x46, 0xf5, 0x5a)
    &&& sbox_witness(0x47, 0x69, 0xa0)
    &&& sbox_witness(0x48, 0xa7, 0x52)
    &&& sbox_witness(0x49, 0x64, 0x3b)
    &&& sbox_witness(0x4a, 0xab, 0xd6)
    &&& sbox_witness(0x4b, 0x13, 0xb3)
    &&& sbox_witness(0x4c, 0x54, 0x29)
    &&& sbox_witness(0x4d, 0x25, 0xe3)
    &&& sbox_witness(0x4e, 0xe9, 0x2f)
    &&& sbox_witness(0x4f, 0x09, 0x84)
    &&& sbox_witness(0x50, 0xed, 0x53)
    &&& sbox_witness(0x51, 0x5c, 0xd1)
    &&& sbox_witness(0x52, 0x05, 0x00)
    &&& sbox_witness(0x53, 0xca, 0xed)
    &&& sbox_witness(0x54, 0x4c, 0x20)
    &&& sbox_witness(0x55, 0x24, 0xfc)
    &&& sbox_witness(0x56, 0x87, 0xb1)
    &&& sbox_witness(0x57, 0xbf, 0x5b)
    &&& sbox_witness(0x58, 0x18, 0x6a)
    &&& sbox_witness(0x59, 0x3e, 0xcb)
    &&& sbox_witness(0x5a, 0x22, 0xbe)
    &&& sbox_witness(0x5b, 0xf0, 0x39)
    &&& sbox_witness(0x5c, 0x51, 0x4a)
    &&& sbox_witness(0x5d, 0xec, 0x4c)
    &&& sbox_witness(0x5e, 0x61, 0x58)
    &&& sbox_witness(0x5f, 0x17, 0xcf)
    &&& sbox_witness(0x60, 0x16, 0xd0)
    &&& sbox_witness(0x61, 0x5e, 0xef)
    &&& sbox_witness(0x62, 0xaf, 0xaa)
    &&& sbox_witness(0x63, 0xd3, 0xfb)
    &&& sbox_witness(0x64, 0x49, 0x43)
    &&& sbox_witness(0x65, 0xa6, 0x4d)
    &&& sbox_witness(0x66, 0x36, 0x33)
    &&& sbox_witness(0x67, 0x43, 0x85)
    &&& sbox_witness(0x68, 0xf4, 0x45)
    &&& sbox_witness(0x69, 0x47, 0xf9)
    &&& sbox_witness(0x6a, 0x91, 0x02)
    &&& sbox_witness(0x6b, 0xdf, 0x7f)
    &&& sbox_witness(0x6c, 0x33, 0x50)
    &&& sbox_witness(0x6d, 0x93, 0x3c)
    &&& sbox_witness(0x6e, 0x21, 0x9f)
    &&& sbox_witness(0x6f, 0x3b, 0xa8)
    &&& sbox_witness(0x70, 0x79, 0x51)
    &&& sbox_witness(0x71, 0xb7, 0xa3)
    &&& sbox_witness(0x72, 0x97, 0x40)
    &&& sbox_witness(0x73, 0x85, 0x8f)
    &&& sbox_witness(0x74, 0x10, 0x92)
    &&& sbox_witness(0x75, 0xb5, 0x9d)
    &&& sbox_witness(0x76, 0xba, 0x38)
    &&& sbox_witness(0x77, 0x3c, 0xf5)
    &&& sbox_witness(0x78, 0xb6, 0xbc)
    &&& sbox_witness(0x79, 0x70, 0xb6)
    &&& sbox_witness(0x7a, 0xd0, 0xda)
    &&& sbox_witness(0x7b, 0x06, 0x21)
    &&& sbox_witness(0x7c, 0xa1, 0x10)
    &&& sbox_witness(0x7d, 0xfa, 0xff)
    &&& sbox_witness(0x7e, 0x81, 0xf3)
    &&& sbox_witness(0x7f, 0x82, 0xd2)
    &&& sbox_witness(0x80, 0x83, 0xcd)
    &&& sbox_witness(0x81, 0x7e, 0x0c)
    &&& sbox_witness(0x82, 0x7f, 0x13)
    &&& sbox_witness(0x83, 0x80, 0xec)
    &&& sbox_witness(0x84, 0x96, 0x5f)
    &&& sbox_witness(0x85, 0x73, 0x97)
    &&& sbox_witness(0x86, 0xbe, 0x44)
    &&& sbox_witness(0x87, 0x56, 0x17)
    &&& sbox_witness(0x88, 0x9b, 0xc4)
    &&& sbox_witness(0x89, 0x9e, 0xa7)
    &&& sbox_witness(0x8a, 0x95, 0x7e)
    &&& sbox_witness(0x8b, 0xd9, 0x3d)
    &&& sbox_witness(0x8c, 0xf7, 0x64)
    &&& sbox_witness(0x8d, 0x02, 0x5d)
    &&& sbox_witness(0x8e, 0xb9, 0x19)
    &&& sbox_witness(0x8f, 0xa4, 0x73)
    &&& sbox_witness(0x90, 0xde, 0x60)
    &&& sbox_witness(0x91, 0x6a, 0x81)
    &&& sbox_witness(0x92, 0x32, 0x4f)
    &&& sbox_witness(0x93, 0x6d, 0xdc)
    &&& sbox_witness(0x94, 0xd8, 0x22)
    &&& sbox_witness(0x95, 0x8a, 0x2a)
    &&& sbox_witness(0x96, 0x84, 0x90)
    &&& sbox_witness(0x97, 0x72, 0x88)
    &&& sbox_witness(0x98, 0x2a, 0x46)
    &&& sbox_witness(0x99, 0x14, 0xee)
    &&& sbox_witness(0x9a, 0x9f, 0xb8)
    &&& sbox_witness(0x9b, 0x88, 0x14)
    &&& sbox_witness(0x9c, 0xf9, 0xde)
    &&& sbox_witness(0x9d, 0xdc, 0x5e)
    &&& sbox_witness(0x9e, 0x89, 0x0b)
    &&& sbox_witness(0x9f, 0x9a, 0xdb)
    &&& sbox_witness(0xa0, 0xfb, 0xe0)
    &&& sbox_witness(0xa1, 0x7c, 0x32)
    &&& sbox_witness(0xa2, 0x2e, 0x3a)
    &&& sbox_witness(0xa3, 0xc3, 0x0a)
    &&& sbox_witness(0xa4, 0x8f, 0x49)
    &&& sbox_witness(0xa5, 0xb8, 0x06)
    &&& sbox_witness(0xa6, 0x65, 0x24)
    &&& sbox_witness(0xa7, 0x48, 0x5c)
    &&& sbox_witness(0xa8, 0x26, 0xc2)
    &&& sbox_witness(0xa9, 0xc8, 0xd3)
    &&& sbox_witness(0xaa, 0x12, 0xac)
    &&& sbox_witness(0xab, 0x4a, 0x62)
    &&& sbox_witness(0xac, 0xce, 0x91)
    &&& sbox_witness(0xad, 0xe7, 0x95)
    &&& sbox_witness(0xae, 0xd2, 0xe4)
    &&& sbox_witness(0xaf, 0x62, 0x79)
    &&& sbox_witness(0xb0, 0x0c, 0xe7)
    &&& sbox_witness(0xb1, 0xe0, 0xc8)
    &&& sbox_witness(0xb2, 0x1f, 0x37)
    &&& sbox_witness(0xb3, 0xef, 0x6d)
    &&& sbox_witness(0xb4, 0x11, 0x8d)
    &&& sbox_witness(0xb5, 0x75, 0xd5)
    &&& sbox_witness(0xb6, 0x78, 0x4e)
    &&& sbox_witness(0xb7, 0x71, 0xa9)
    &&& sbox_witness(0xb8, 0xa5, 0x6c)
    &&& sbox_witness(0xb9, 0x8e, 0x56)
    &&& sbox_witness(0xba, 0x76, 0xf4)
    &&& sbox_witness(0xbb, 0x3d, 0xea)
    &&& sbox_witness(0xbc, 0xbd, 0x65)
    &&& sbox_witness(0xbd, 0xbc, 0x7a)
    &&& sbox_witness(0xbe, 0x86, 0xae)
    &&& sbox_witness(0xbf, 0x57, 0x08)
    &&& sbox_witness(0xc0, 0x0b, 0xba)
    &&& sbox_witness(0xc1, 0x28, 0x78)
    &&& sbox_witness(0xc2, 0x2f, 0x25)
    &&& sbox_witness(0xc3, 0xa3, 0x2e)
    &&& sbox_witness(0xc4, 0xda, 0x1c)
    &&& sbox_witness(0xc5, 0xd4, 0xa6)
    &&& sbox_witness(0xc6, 0xe4, 0xb4)
    &&& sbox_witness(0xc7, 0x0f, 0xc6)
    &&& sbox_witness(0xc8, 0xa9, 0xe8)
    &&& sbox_witness(0xc9, 0x27, 0xdd)
    &&& sbox_witness(0xca, 0x53, 0x74)
    &&& sbox_witness(0xcb, 0x04, 0x1f)
    &&& sbox_witness(0xcc, 0x1b, 0x4b)
    &&& sbox_witness(0xcd, 0xfc, 0xbd)
    &&& sbox_witness(0xce, 0xac, 0x8b)
    &&& sbox_witness(0xcf, 0xe6, 0x8a)
    &&& sbox_witness(0xd0, 0x7a, 0x70)
    &&& sbox_witness(0xd1, 0x07, 0x3e)
    &&& sbox_witness(0xd2, 0xae, 0xb5)
    &&& sbox_witness(0xd3, 0x63, 0x66)
    &&& sbox_witness(0xd4, 0xc5, 0x48)
    &&& sbox_witness(0xd5, 0xdb, 0x03)
    &&& sbox_witness(0xd6, 0xe2, 0xf6)
    &&& sbox_witness(0xd7, 0xea, 0x0e)
    &&& sbox_witness(0xd8, 0x94, 0x61)
    &&& sbox_witness(0xd9, 0x8b, 0x35)
    &&& sbox_witness(0xda, 0xc4, 0x57)
    &&& sbox_witness(0xdb, 0xd5, 0xb9)
    &&& sbox_witness(0xdc, 0x9d, 0x86)
    &&& sbox_witness(0xdd, 0xf8, 0xc1)
    &&& sbox_witness(0xde, 0x90, 0x1d)
    &&& sbox_witness(0xdf, 0x6b, 0x9e)
    &&& sbox_witness(0xe0, 0xb1, 0xe1)
    &&& sbox_witness(0xe1, 0x0d, 0xf8)
    &&& sbox_witness(0xe2, 0xd6, 0x98)
    &&& sbox_witness(0xe3, 0xeb, 0x11)
    &&& sbox_witness(0xe4, 0xc6, 0x69)
    &&& sbox_witness(0xe5, 0x0e, 0xd9)
    &&& sbox_witness(0xe6, 0xcf, 0x8e)
    &&& sbox_witness(0xe7, 0xad, 0x94)
    &&& sbox_witness(0xe8, 0x08, 0x9b)
    &&& sbox_witness(0xe9, 0x4e, 0x1e)
    &&& sbox_witness(0xea, 0xd7, 0x87)
    &&& sbox_witness(0xeb, 0xe3, 0xe9)
    &&& sbox_witness(0xec, 0x5d, 0xce)
    &&& sbox_witness(0xed, 0x50, 0x55)
    &&& sbox_witness(0xee, 0x1e, 0x28)
    &&& sbox_witness(0xef, 0xb3, 0xdf)
    &&& sbox_witness(0xf0, 0x5b, 0x8c)
    &&& sbox_witness(0xf1, 0x23, 0xa1)
    &&& sbox_witness(0xf2, 0x38, 0x89)
    &&& sbox_witness(0xf3, 0x34, 0x0d)
    &&& sbox_witness(0xf4, 0x68, 0xbf)
    &&& sbox_witness(0xf5, 0x46, 0xe6)
    &&& sbox_witness(0xf6, 0x03, 0x42)
    &&& sbox_witness(0xf7, 0x8c, 0x68)
    &&& sbox_witness(0xf8, 0xdd, 0x41)
    &&& sbox_witness(0xf9, 0x9c, 0x99)
    &&& sbox_witness(0xfa, 0x7d, 0x2d)
    &&& sbox_witness(0xfb, 0xa0, 0x0f)
    &&& sbox_witness(0xfc, 0xcd, 0xb0)
    &&& sbox_witness(0xfd, 0x1a, 0x54)
    &&& sbox_witness(0xfe, 0x41, 0xbb)
    &&& sbox_witness(0xff, 0x1c, 0x16)
}

proof fn lemma_sbox_witnesses()
    ensures
        sbox_witnesses(),
{
    reveal(gf_mul);
    reveal(sbox_witness);
    assert(sbox_witnesses()) by (bit_vector);
}

/// The constant `SBOX` is the S-box.
pub proof fn lemma_sbox()
    ensures
        forall|x: u8| #[trigger] SBOX@[x as int] == sbox(x),
{
    assert forall|x: u8, y: u8, s: u8| #[trigger] sbox_witness(x, y, s) implies sbox(x) == s by {
        reveal(sbox_witness);
        reveal(sbox);
        if x != 0 {
            gf_inv_is_inverse(x, y);
        }
    }
    lemma_sbox_witnesses();
}

/// `w0` is the T0 column for the S-box output `s`, and `w1`, `w2`, `w3` are its
/// rotations by one, two and three bytes.
#[verifier::opaque]
spec fn column_witness(s: u8, w0: u32, w1: u32, w2: u32, w3: u32) -> bool {
    &&& w0 == word(xtime(s), s, s, xtime(s) ^ s)
    &&& w1 == rotr(w0, 8)
    &&& w2 == rotr(w0, 16)
    &&& w3 == rotr(w0, 24)
}

/// Each entry of the four T-tables, with the S-box entry that it comes from.
spec fn column_witnesses() -> bool {
    &&& column_witness(0x63, 0xc66363a5, 0xa5c66363, 0x63a5c663, 0x6363a5c6)
    &&& column_witness(0x7c, 0xf87c7c84, 0x84f87c7c, 0x7c84f87c, 0x7c7c84f8)
    &&& column_witness(0x77, 0xee777799, 0x99ee7777, 0x7799ee77, 0x777799ee)
    &&& column_witness(0x7b, 0xf67b7b8d, 0x8df67b7b, 0x7b8df67b, 0x7b7b8df6)
    &&& column_witness(0xf2, 0xfff2f20d, 0x0dfff2f2, 0xf20dfff2, 0xf2f20dff)
    &&& column_witness(0x6b, 0xd66b6bbd, 0xbdd66b6b, 0x6bbdd66b, 0x6b6bbdd6)
    &&& column_witness(0x6f, 0xde6f6fb1, 0xb1de6f6f, 0x6fb1de6f, 0x6f6fb1de)
    &&& column_witness(0xc5, 0x91c5c554, 0x5491c5c5, 0xc55491c5, 0xc5c55491)
    &&& column_witness(0x30, 0x60303050, 0x50603030, 0x30506030, 0x30305060)
    &&& column_witness(0x01, 0x02010103, 0x03020101, 0x01030201, 0x01010302)
    &&& column_witness(0x67, 0xce6767a9, 0xa9ce6767, 0x67a9ce67, 0x6767a9ce)
    &&& column_witness(0x2b, 0x562b2b7d, 0x7d562b2b, 0x2b7d562b, 0x2b2b7d56)
    &&& column_witness(0xfe, 0xe7fefe19, 0x19e7fefe, 0xfe19e7fe, 0xfefe19e7)
    &&& column_witness(0xd7, 0xb5d7d762, 0x62b5d7d7, 0xd762b5d7, 0xd7d762b5)
    &&& column_witness(0xab, 0x4dababe6, 0xe64dabab, 0xabe64dab, 0xababe64d)
    &&& column_witness(0x76, 0xec76769a, 0x9aec7676, 0x769aec76, 0x76769aec)
    &&& column_witness(0xca, 0x8fcaca45, 0x458fcaca, 0xca458fca, 0xcaca458f)
    &&& column_witness(0x82, 0x1f82829d, 0x9d1f8282, 0x829d1f82, 0x82829d1f)
    &&& column_witness(0xc9, 0x89c9c940, 0x4089c9c9, 0xc94089c9, 0xc9c94089)
    &&& column_witness(0x7d, 0xfa7d7d87, 0x87fa7d7d, 0x7d87fa7d, 0x7d7d87fa)
    &&& column_witness(0xfa, 0xeffafa15, 0x15effafa, 0xfa15effa, 0xfafa15ef)
    &&& column_witness(0x59, 0xb25959eb, 0xebb25959, 0x59ebb259, 0x5959ebb2)
    &&& column_witness(0x47, 0x8e4747c9, 0xc98e4747, 0x47c98e47, 0x4747c98e)
    &&& column_witness(0xf0, 0xfbf0f00b, 0x0bfbf0f0, 0xf00bfbf0, 0xf0f00bfb)
    &&& column_witness(0xad, 0x41adadec, 0xec41adad, 0xadec41ad, 0xadadec41)
    &&& column_witness(0xd4, 0xb3d4d467, 0x67b3d4d4, 0xd467b3d4, 0xd4d467b3)
    &&& column_witness(0xa2, 0x5fa2a2fd, 0xfd5fa2a2, 0xa2fd5fa2, 0xa2a2fd5f)
    &&& column_witness(0xaf, 0x45afafea, 0xea45afaf, 0xafea45af, 0xafafea45)
    &&& column_witness(0x9c, 0x239c9cbf, 0xbf239c9c, 0x9cbf239c, 0x9c9cbf23)
    &&& column_witness(0xa4, 0x53a4a4f7, 0xf753a4a4, 0xa4f753a4, 0xa4a4f753)
    &&& column_witness(0x72, 0xe4727296, 0x96e47272, 0x7296e472, 0x727296e4)
    &&& column_witness(0xc0, 0x9bc0c05b, 0x5b9bc0c0, 0xc05b9bc0, 0xc0c05b9b)
    &&& column_witness(0xb7, 0x75b7b7c2, 0xc275b7b7, 0xb7c275b7, 0xb7b7c275)
    &&& column_witness(0xfd, 0xe1fdfd1c, 0x1ce1fdfd, 0xfd1ce1fd, 0xfdfd1ce1)
    &&& column_witness(0x93, 0x3d9393ae, 0xae3d9393, 0x93ae3d93, 0x9393ae3d)
    &&& column_witness(0x26, 0x4c26266a, 0x6a4c2626, 0x266a4c26, 0x26266a4c)
    &&& column_witness(0x36, 0x6c36365a, 0x5a6c3636, 0x365a6c36, 0x36365a6c)
    &&& column_witness(0x3f, 0x7e3f3f41, 0x417e3f3f, 0x3f417e3f, 0x3f3f417e)
    &&& column_witness(0xf7, 0xf5f7f702, 0x02f5f7f7, 0xf702f5f7, 0xf7f702f5)
    &&& column_witness(0xcc, 0x83cccc4f, 0x4f83cccc, 0xcc4f83cc, 0xcccc4f83)
    &&& column_witness(0x34, 0x6834345c, 0x5c683434, 0x345c6834, 0x34345c68)
    &&& column_witness(0xa5, 0x51a5a5f4, 0xf451a5a5, 0xa5f451a5, 0xa5a5f451)
    &&& column_witness(0xe5, 0xd1e5e534, 0x34d1e5e5, 0xe534d1e5, 0xe5e534d1)
    &&& column_witness(0xf1, 0xf9f1f108, 0x08f9f1f1, 0xf108f9f1, 0xf1f108f9)
    &&& column_witness(0x71, 0xe2717193, 0x93e27171, 0x7193e271, 0x717193e2)
    &&& column_witness(0xd8, 0xabd8d873, 0x73abd8d8, 0xd873abd8, 0xd8d873ab)
    &&& column_witness(0x31, 0x62313153, 0x53623131, 0x31536231, 0x31315362)
    &&& column_witness(0x15, 0x2a15153f, 0x3f2a1515, 0x153f2a15, 0x15153f2a)
    &&& column_witness(0x04, 0x0804040c, 0x0c080404, 0x040c0804, 0x04040c08)
    &&& column_witness(0xc7, 0x95c7c752, 0x5295c7c7, 0xc75295c7, 0xc7c75295)
    &&& column_witness(0x23, 0x46232365, 0x65462323, 0x23654623, 0x23236546)
    &&& column_witness(0xc3, 0x9dc3c35e, 0x5e9dc3c3, 0xc35e9dc3, 0xc3c35e9d)
    &&& column_witness(0x18, 0x30181828, 0x28301818, 0x18283018, 0x18182830)
    &&& column_witness(0x96, 0x379696a1, 0xa1379696, 0x96a13796, 0x9696a137)
    &&& column_witness(0x05, 0x0a05050f, 0x0f0a0505, 0x050f0a05, 0x05050f0a)
    &&& column_witness(0x9a, 0x2f9a9ab5, 0xb52f9a9a, 0x9ab52f9a, 0x9a9ab52f)
    &&& column_witness(0x07, 0x0e070709, 0x090e0707, 0x07090e07, 0x0707090e)
    &&& column_witness(0x12, 0x24121236, 0x36241212, 0x12362412, 0x12123624)
    &&& column_witness(0x80, 0x1b80809b, 0x9b1b8080, 0x809b1b80, 0x80809b1b)
    &&& column_witness(0xe2, 0xdfe2e23d, 0x3ddfe2e2, 0xe23ddfe2, 0xe2e23ddf)
    &&& column_witness(0xeb, 0xcdebeb26, 0x26cdebeb, 0xeb26cdeb, 0xebeb26cd)
    &&& column_witness(0x27, 0x4e272769, 0x694e2727, 0x27694e27, 0x2727694e)
    &&& column_witness(0xb2, 0x7fb2b2cd, 0xcd7fb2b2, 0xb2cd7fb2, 0xb2b2cd7f)
    &&& column_witness(0x75, 0xea75759f, 0x9fea7575, 0x759fea75, 0x75759fea)
    &&& column_witness(0x09, 0x1209091b, 0x1b120909, 0x091b1209, 0x09091b12)
    &&& column_witness(0x83, 0x1d83839e, 0x9e1d8383, 0x839e1d83, 0x83839e1d)
    &&& column_witness(0x2c, 0x582c2c74, 0x74582c2c, 0x2c74582c, 0x2c2c7458)
    &&& column_witness(0x1a, 0x341a1a2e, 0x2e341a1a, 0x1a2e341a, 0x1a1a2e34)
    &&& column_witness(0x1b, 0x361b1b2d, 0x2d361b1b, 0x1b2d361b, 0x1b1b2d36)
    &&& column_witness(0x6e, 0xdc6e6eb2, 0xb2dc6e6e, 0x6eb2dc6e, 0x6e6eb2dc)
    &&& column_witness(0x5a, 0xb45a5aee, 0xeeb45a5a, 0x5aeeb45a, 0x5a5aeeb4)
    &&& column_witness(0xa0, 0x5ba0a0fb, 0xfb5ba0a0, 0xa0fb5ba0, 0xa0a0fb5b)
    &&& column_witness(0x52, 0xa45252f6, 0xf6a45252, 0x52f6a452, 0x5252f6a4)
    &&& column_witness(0x3b, 0x763b3b4d, 0x4d763b3b, 0x3b4d763b, 0x3b3b4d76)
    &&& column_witness(0xd6, 0xb7d6d661, 0x61b7d6d6, 0xd661b7d6, 0xd6d661b7)
    &&& column_witness(0xb3, 0x7db3b3ce, 0xce7db3b3, 0xb3ce7db3, 0xb3b3ce7d)
    &&& column_witness(0x29, 0x5229297b, 0x7b522929, 0x297b5229, 0x29297b52)
    &&& column_witness(0xe3, 0xdde3e33e, 0x3edde3e3, 0xe33edde3, 0xe3e33edd)
    &&& column_witness(0x2f, 0x5e2f2f71, 0x715e2f2f, 0x2f715e2f, 0x2f2f715e)
    &&& column_witness(0x84, 0x13848497, 0x97138484, 0x84971384, 0x84849713)
    &&& column_witness(0x53, 0xa65353f5, 0xf5a65353, 0x53f5a653, 0x5353f5a6)
    &&& column_witness(0xd1, 0xb9d1d168, 0x68b9d1d1, 0xd168b9d1, 0xd1d168b9)
    &&& column_witness(0x00, 0x00000000, 0x00000000, 0x00000000, 0x00000000)
    &&& column_witness(0xed, 0xc1eded2c, 0x2cc1eded, 0xed2cc1ed, 0xeded2cc1)
    &&& column_witness(0x20, 0x40202060, 0x60402020, 0x20604020, 0x20206040)
    &&& column_witness(0xfc, 0xe3fcfc1f, 0x1fe3fcfc, 0xfc1fe3fc, 0xfcfc1fe3)
    &&& column_witness(0xb1, 0x79b1b1c8, 0xc879b1b1, 0xb1c879b1, 0xb1b1c879)
    &&& column_witness(0x5b, 0xb65b5bed, 0xedb65b5b, 0x5bedb65b, 0x5b5bedb6)
    &&& column_witness(0x6a, 0xd46a6abe, 0xbed46a6a, 0x6abed46a, 0x6a6abed4)
    &&& column_witness(0xcb, 0x8dcbcb46, 0x468dcbcb, 0xcb468dcb, 0xcbcb468d)
    &&& column_witness(0xbe, 0x67bebed9, 0xd967bebe, 0xbed967be, 0xbebed967)
    &&& column_witness(0x39, 0x7239394b, 0x4b723939, 0x394b7239, 0x39394b72)
    &&& column_witness(0x4a, 0x944a4ade, 0xde944a4a, 0x4ade944a, 0x4a4ade94)
    &&& column_witness(0x4c, 0x984c4cd4, 0xd4984c4c, 0x4cd4984c, 0x4c4cd498)
    &&& column_witness(0x58, 0xb05858e8, 0xe8b05858, 0x58e8b058, 0x5858e8b0)
    &&& column_witness(0xcf, 0x85cfcf4a, 0x4a85cfcf, 0xcf4a85cf, 0xcfcf4a85)
    &&& column_witness(0xd0, 0xbbd0d06b, 0x6bbbd0d0, 0xd06bbbd0, 0xd0d06bbb)
    &&& column_witness(0xef, 0xc5efef2a, 0x2ac5efef, 0xef2ac5ef, 0xefef2ac5)
    &&& column_witness(0xaa, 0x4faaaae5, 0xe54faaaa, 0xaae54faa, 0xaaaae54f)
    &&& column_witness(0xfb, 0xedfbfb16, 0x16edfbfb, 0xfb16edfb, 0xfbfb16ed)
    &&& column_witness(0x43, 0x864343c5, 0xc5864343, 0x43c58643, 0x4343c586)
    &&& column_witness(0x4d, 0x9a4d4dd7, 0xd79a4d4d, 0x4dd79a4d, 0x4d4dd79a)
    &&& column_witness(0x33, 0x66333355, 0x55663333, 0x33556633, 0x33335566)
    &&& column_witness(0x85, 0x11858594, 0x94118585, 0x85941185, 0x85859411)
    &&& column_witness(0x45, 0x8a4545cf, 0xcf8a4545, 0x45cf8a45, 0x4545cf8a)
    &&& column_witness(0xf9, 0xe9f9f910, 0x10e9f9f9, 0xf910e9f9, 0xf9f910e9)
    &&& column_witness(0x02, 0x04020206, 0x06040202, 0x02060402, 0x02020604)
    &&& column_witness(0x7f, 0xfe7f7f81, 0x81fe7f7f, 0x7f81fe7f, 0x7f7f81fe)
    &&& column_witness(0x50, 0xa05050f0, 0xf0a05050, 0x50f0a050, 0x5050f0a0)
    &&& column_witness(0x3c, 0x783c3c44, 0x44783c3c, 0x3c44783c, 0x3c3c4478)
    &&& column_witness(0x9f, 0x259f9fba, 0xba259f9f, 0x9fba259f, 0x9f9fba25)
    &&& column_witness(0xa8, 0x4ba8a8e3, 0xe34ba8a8, 0xa8e34ba8, 0xa8a8e34b)
    &&& column_witness(0x51, 0xa25151f3, 0xf3a25151, 0x51f3a251, 0x5151f3a2)
    &&& column_witness(0xa3, 0x5da3a3fe, 0xfe5da3a3, 0xa3fe5da3, 0xa3a3fe5d)
    &&& column_witness(0x40, 0x804040c0, 0xc0804040, 0x40c08040, 0x4040c080)
    &&& column_witness(0x8f, 0x058f8f8a, 0x8a058f8f, 0x8f8a058f, 0x8f8f8a05)
    &&& column_witness(0x92, 0x3f9292ad, 0xad3f9292, 0x92ad3f92, 0x9292ad3f)
    &&& column_witness(0x9d, 0x219d9dbc, 0xbc219d9d, 0x9dbc219d, 0x9d9dbc21)
    &&& column_witness(0x38, 0x70383848, 0x48703838, 0x38487038, 0x38384870)
    &&& column_witness(0xf5, 0xf1f5f504, 0x04f1f5f5, 0xf504f1f5, 0xf5f504f1)
    &&& column_witness(0xbc, 0x63bcbcdf, 0xdf63bcbc, 0xbcdf63bc, 0xbcbcdf63)
    &&& column_witness(0xb6, 0x77b6b6c1, 0xc177b6b6, 0xb6c177b6, 0xb6b6c177)
    &&& column_witness(0xda, 0xafdada75, 0x75afdada, 0xda75afda, 0xdada75af)
    &&& column_witness(0x21, 0x42212163, 0x63422121, 0x21634221, 0x21216342)
    &&& column_witness(0x10, 0x20101030, 0x30201010, 0x10302010, 0x10103020)
    &&& column_witness(0xff, 0xe5ffff1a, 0x1ae5ffff, 0xff1ae5ff, 0xffff1ae5)
    &&& column_witness(0xf3, 0xfdf3f30e, 0x0efdf3f3, 0xf30efdf3, 0xf3f30efd)
    &&& column_witness(0xd2, 0xbfd2d26d, 0x6dbfd2d2, 0xd26dbfd2, 0xd2d26dbf)
    &&& column_witness(0xcd, 0x81cdcd4c, 0x4c81cdcd, 0xcd4c81cd, 0xcdcd4c81)
    &&& column_witness(0x0c, 0x180c0c14, 0x14180c0c, 0x0c14180c, 0x0c0c1418)
    &&& column_witness(0x13, 0x26131335, 0x35261313, 0x13352613, 0x13133526)
    &&& column_witness(0xec, 0xc3ecec2f, 0x2fc3ecec, 0xec2fc3ec, 0xecec2fc3)
    &&& column_witness(0x5f, 0xbe5f5fe1, 0xe1be5f5f, 0x5fe1be5f, 0x5f5fe1be)
    &&& column_witness(0x97, 0x359797a2, 0xa2359797, 0x97a23597, 0x9797a235)
    &&& column_witness(0x44, 0x884444cc, 0xcc884444, 0x44cc8844, 0x4444cc88)
    &&& column_witness(0x17, 0x2e171739, 0x392e1717, 0x17392e17, 0x1717392e)
    &&& column_witness(0xc4, 0x93c4c457, 0x5793c4c4, 0xc45793c4, 0xc4c45793)
    &&& column_witness(0xa7, 0x55a7a7f2, 0xf255a7a7, 0xa7f255a7, 0xa7a7f255)
    &&& column_witness(0x7e, 0xfc7e7e82, 0x82fc7e7e, 0x7e82fc7e, 0x7e7e82fc)
    &&& column_witness(0x3d, 0x7a3d3d47, 0x477a3d3d, 0x3d477a3d, 0x3d3d477a)
    &&& column_witness(0x64, 0xc86464ac, 0xacc86464, 0x64acc864, 0x6464acc8)
    &&& column_witness(0x5d, 0xba5d5de7, 0xe7ba5d5d, 0x5de7ba5d, 0x5d5de7ba)
    &&& column_witness(0x19, 0x3219192b, 0x2b321919, 0x192b3219, 0x19192b32)
    &&& column_witness(0x73, 0xe6737395, 0x95e67373, 0x7395e673, 0x737395e6)
    &&& column_witness(0x60, 0xc06060a0, 0xa0c06060, 0x60a0c060, 0x6060a0c0)
    &&& column_witness(0x81, 0x19818198, 0x98198181, 0x81981981, 0x81819819)
    &&& column_witness(0x4f, 0x9e4f4fd1, 0xd19e4f4f, 0x4fd19e4f, 0x4f4fd19e)
    &&& column_witness(0xdc, 0xa3dcdc7f, 0x7fa3dcdc, 0xdc7fa3dc, 0xdcdc7fa3)
    &&& column_witness(0x22, 0x44222266, 0x66442222, 0x22664422, 0x22226644)
    &&& column_witness(0x2a, 0x542a2a7e, 0x7e542a2a, 0x2a7e542a, 0x2a2a7e54)
    &&& column_witness(0x90, 0x3b9090ab, 0xab3b9090, 0x90ab3b90, 0x9090ab3b)
    &&& column_witness(0x88, 0x0b888883, 0x830b8888, 0x88830b88, 0x8888830b)
    &&& column_witness(0x46, 0x8c4646ca, 0xca8c4646, 0x46ca8c46, 0x4646ca8c)
    &&& column_witness(0xee, 0xc7eeee29, 0x29c7eeee, 0xee29c7ee, 0xeeee29c7)
    &&& column_witness(0xb8, 0x6bb8b8d3, 0xd36bb8b8, 0xb8d36bb8, 0xb8b8d36b)
    &&& column_witness(0x14, 0x2814143c, 0x3c281414, 0x143c2814, 0x14143c28)
    &&& column_witness(0xde, 0xa7dede79, 0x79a7dede, 0xde79a7de, 0xdede79a7)
    &&& column_witness(0x5e, 0xbc5e5ee2, 0xe2bc5e5e, 0x5ee2bc5e, 0x5e5ee2bc)
    &&& column_witness(0x0b, 0x160b0b1d, 0x1d160b0b, 0x0b1d160b, 0x0b0b1d16)
    &&& column_witness(0xdb, 0xaddbdb76, 0x76addbdb, 0xdb76addb, 0xdbdb76ad)
    &&& column_witness(0xe0, 0xdbe0e03b, 0x3bdbe0e0, 0xe03bdbe0, 0xe0e03bdb)
    &&& column_witness(0x32, 0x64323256, 0x56643232, 0x32566432, 0x32325664)
    &&& column_witness(0x3a, 0x743a3a4e, 0x4e743a3a, 0x3a4e743a, 0x3a3a4e74)
    &&& column_witness(0x0a, 0x140a0a1e, 0x1e140a0a, 0x0a1e140a, 0x0a0a1e14)
    &&& column_witness(0x49, 0x924949db, 0xdb924949, 0x49db9249, 0x4949db92)
    &&& column_witness(0x06, 0x0c06060a, 0x0a0c0606, 0x060a0c06, 0x06060a0c)
    &&& column_witness(0x24, 0x4824246c, 0x6c482424, 0x246c4824, 0x24246c48)
    &&& column_witness(0x5c, 0xb85c5ce4, 0xe4b85c5c, 0x5ce4b85c, 0x5c5ce4b8)
    &&& column_witness(0xc2, 0x9fc2c25d, 0x5d9fc2c2, 0xc25d9fc2, 0xc2c25d9f)
    &&& column_witness(0xd3, 0xbdd3d36e, 0x6ebdd3d3, 0xd36ebdd3, 0xd3d36ebd)
    &&& column_witness(0xac, 0x43acacef, 0xef43acac, 0xacef43ac, 0xacacef43)
    &&& column_witness(0x62, 0xc46262a6, 0xa6c46262, 0x62a6c462, 0x6262a6c4)
    &&& column_witness(0x91, 0x399191a8, 0xa8399191, 0x91a83991, 0x9191a839)
    &&& column_witness(0x95, 0x319595a4, 0xa4319595, 0x95a43195, 0x9595a431)
    &&& column_witness(0xe4, 0xd3e4e437, 0x37d3e4e4, 0xe437d3e4, 0xe4e437d3)
    &&& column_witness(0x79, 0xf279798b, 0x8bf27979, 0x798bf279, 0x79798bf2)
    &&& column_witness(0xe7, 0xd5e7e732, 0x32d5e7e7, 0xe732d5e7, 0xe7e732d5)
    &&& column_witness(0xc8, 0x8bc8c843, 0x438bc8c8, 0xc8438bc8, 0xc8c8438b)
    &&& column_witness(0x37, 0x6e373759, 0x596e3737, 0x37596e37, 0x3737596e)
    &&& column_witness(0x6d, 0xda6d6db7, 0xb7da6d6d, 0x6db7da6d, 0x6d6db7da)
    &&& column_witness(0x8d, 0x018d8d8c, 0x8c018d8d, 0x8d8c018d, 0x8d8d8c01)
    &&& column_witness(0xd5, 0xb1d5d564, 0x64b1d5d5, 0xd564b1d5, 0xd5d564b1)
    &&& column_witness(0x4e, 0x9c4e4ed2, 0xd29c4e4e, 0x4ed29c4e, 0x4e4ed29c)
    &&& column_witness(0xa9, 0x49a9a9e0, 0xe049a9a9, 0xa9e049a9, 0xa9a9e049)
    &&& column_witness(0x6c, 0xd86c6cb4, 0xb4d86c6c, 0x6cb4d86c, 0x6c6cb4d8)
    &&& column_witness(0x56, 0xac5656fa, 0xfaac5656, 0x56faac56, 0x5656faac)
    &&& column_witness(0xf4, 0xf3f4f407, 0x07f3f4f4, 0xf407f3f4, 0xf4f407f3)
    &&& column_witness(0xea, 0xcfeaea25, 0x25cfeaea, 0xea25cfea, 0xeaea25cf)
    &&& column_witness(0x65, 0xca6565af, 0xafca6565, 0x65afca65, 0x6565afca)
    &&& column_witness(0x7a, 0xf47a7a8e, 0x8ef47a7a, 0x7a8ef47a, 0x7a7a8ef4)
    &&& column_witness(0xae, 0x47aeaee9, 0xe947aeae, 0xaee947ae, 0xaeaee947)
    &&& column_witness(0x08, 0x10080818, 0x18100808, 0x08181008, 0x08081810)
    &&& column_witness(0xba, 0x6fbabad5, 0xd56fbaba, 0xbad56fba, 0xbabad56f)
    &&& column_witness(0x78, 0xf0787888, 0x88f07878, 0x7888f078, 0x787888f0)
    &&& column_witness(0x25, 0x4a25256f, 0x6f4a2525, 0x256f4a25, 0x25256f4a)
    &&& column_witness(0x2e, 0x5c2e2e72, 0x725c2e2e, 0x2e725c2e, 0x2e2e725c)
    &&& column_witness(0x1c, 0x381c1c24, 0x24381c1c, 0x1c24381c, 0x1c1c2438)
    &&& column_witness(0xa6, 0x57a6a6f1, 0xf157a6a6, 0xa6f157a6, 0xa6a6f157)
    &&& column_witness(0xb4, 0x73b4b4c7, 0xc773b4b4, 0xb4c773b4, 0xb4b4c773)
    &&& column_witness(0xc6, 0x97c6c651, 0x5197c6c6, 0xc65197c6, 0xc6c65197)
    &&& column_witness(0xe8, 0xcbe8e823, 0x23cbe8e8, 0xe823cbe8, 0xe8e823cb)
    &&& column_witness(0xdd, 0xa1dddd7c, 0x7ca1dddd, 0xdd7ca1dd, 0xdddd7ca1)
    &&& column_witness(0x74, 0xe874749c, 0x9ce87474, 0x749ce874, 0x74749ce8)
    &&& column_witness(0x1f, 0x3e1f1f21, 0x213e1f1f, 0x1f213e1f, 0x1f1f213e)
    &&& column_witness(0x4b, 0x964b4bdd, 0xdd964b4b, 0x4bdd964b, 0x4b4bdd96)
    &&& column_witness(0xbd, 0x61bdbddc, 0xdc61bdbd, 0xbddc61bd, 0xbdbddc61)
    &&& column_witness(0x8b, 0x0d8b8b86, 0x860d8b8b, 0x8b860d8b, 0x8b8b860d)
    &&& column_witness(0x8a, 0x0f8a8a85, 0x850f8a8a, 0x8a850f8a, 0x8a8a850f)
    &&& column_witness(0x70, 0xe0707090, 0x90e07070, 0x7090e070, 0x707090e0)
    &&& column_witness(0x3e, 0x7c3e3e42, 0x427c3e3e, 0x3e427c3e, 0x3e3e427c)
    &&& column_witness(0xb5, 0x71b5b5c4, 0xc471b5b5, 0xb5c471b5, 0xb5b5c471)
    &&& column_witness(0x66, 0xcc6666aa, 0xaacc6666, 0x66aacc66, 0x6666aacc)
    &&& column_witness(0x48, 0x904848d8, 0xd8904848, 0x48d89048, 0x4848d890)
    &&& column_witness(0x03, 0x06030305, 0x05060303, 0x03050603, 0x03030506)
    &&& column_witness(0xf6, 0xf7f6f601, 0x01f7f6f6, 0xf601f7f6, 0xf6f601f7)
    &&& column_witness(0x0e, 0x1c0e0e12, 0x121c0e0e, 0x0e121c0e, 0x0e0e121c)
    &&& column_witness(0x61, 0xc26161a3, 0xa3c26161, 0x61a3c261, 0x6161a3c2)
    &&& column_witness(0x35, 0x6a35355f, 0x5f6a3535, 0x355f6a35, 0x35355f6a)
    &&& column_witness(0x57, 0xae5757f9, 0xf9ae5757, 0x57f9ae57, 0x5757f9ae)
    &&& column_witness(0xb9, 0x69b9b9d0, 0xd069b9b9, 0xb9d069b9, 0xb9b9d069)
    &&& column_witness(0x86, 0x17868691, 0x91178686, 0x86911786, 0x86869117)
    &&& column_witness(0xc1, 0x99c1c158, 0x5899c1c1, 0xc15899c1, 0xc1c15899)
    &&& column_witness(0x1d, 0x3a1d1d27, 0x273a1d1d, 0x1d273a1d, 0x1d1d273a)
    &&& column_witness(0x9e, 0x279e9eb9, 0xb9279e9e, 0x9eb9279e, 0x9e9eb927)
    &&& column_witness(0xe1, 0xd9e1e138, 0x38d9e1e1, 0xe138d9e1, 0xe1e138d9)
    &&& column_witness(0xf8, 0xebf8f813, 0x13ebf8f8, 0xf813ebf8, 0xf8f813eb)
    &&& column_witness(0x98, 0x2b9898b3, 0xb32b9898, 0x98b32b98, 0x9898b32b)
    &&& column_witness(0x11, 0x22111133, 0x33221111, 0x11332211, 0x11113322)
    &&& column_witness(0x69, 0xd26969bb, 0xbbd26969, 0x69bbd269, 0x6969bbd2)
    &&& column_witness(0xd9, 0xa9d9d970, 0x70a9d9d9, 0xd970a9d9, 0xd9d970a9)
    &&& column_witness(0x8e, 0x078e8e89, 0x89078e8e, 0x8e89078e, 0x8e8e8907)
    &&& column_witness(0x94, 0x339494a7, 0xa7339494, 0x94a73394, 0x9494a733)
    &&& column_witness(0x9b, 0x2d9b9bb6, 0xb62d9b9b, 0x9bb62d9b, 0x9b9bb62d)
    &&& column_witness(0x1e, 0x3c1e1e22, 0x223c1e1e, 0x1e223c1e, 0x1e1e223c)
    &&& column_witness(0x87, 0x15878792, 0x92158787, 0x87921587, 0x87879215)
    &&& column_witness(0xe9, 0xc9e9e920, 0x20c9e9e9, 0xe920c9e9, 0xe9e920c9)
    &&& column_witness(0xce, 0x87cece49, 0x4987cece, 0xce4987ce, 0xcece4987)
    &&& column_witness(0x55, 0xaa5555ff, 0xffaa5555, 0x55ffaa55, 0x5555ffaa)
    &&& column_witness(0x28, 0x50282878, 0x78502828, 0x28785028, 0x28287850)
    &&& column_witness(0xdf, 0xa5dfdf7a, 0x7aa5dfdf, 0xdf7aa5df, 0xdfdf7aa5)
    &&& column_witness(0x8c, 0x038c8c8f, 0x8f038c8c, 0x8c8f038c, 0x8c8c8f03)
    &&& column_witness(0xa1, 0x59a1a1f8, 0xf859a1a1, 0xa1f859a1, 0xa1a1f859)
    &&& column_witness(0x89, 0x09898980, 0x80098989, 0x89800989, 0x89898009)
    &&& column_witness(0x0d, 0x1a0d0d17, 0x171a0d0d, 0x0d171a0d, 0x0d0d171a)
    &&& column_witness(0xbf, 0x65bfbfda, 0xda65bfbf, 0xbfda65bf, 0xbfbfda65)
    &&& column_witness(0xe6, 0xd7e6e631, 0x31d7e6e6, 0xe631d7e6, 0xe6e631d7)
    &&& column_witness(0x42, 0x844242c6, 0xc6844242, 0x42c68442, 0x4242c684)
    &&& column_witness(0x68, 0xd06868b8, 0xb8d06868, 0x68b8d068, 0x6868b8d0)
    &&& column_witness(0x41, 0x824141c3, 0xc3824141, 0x41c38241, 0x4141c382)
    &&& column_witness(0x99, 0x299999b0, 0xb0299999, 0x99b02999, 0x9999b029)
    &&& column_witness(0x2d, 0x5a2d2d77, 0x775a2d2d, 0x2d775a2d, 0x2d2d775a)
    &&& column_witness(0x0f, 0x1e0f0f11, 0x111e0f0f, 0x0f111e0f, 0x0f0f111e)
    &&& column_witness(0xb0, 0x7bb0b0cb, 0xcb7bb0b0, 0xb0cb7bb0, 0xb0b0cb7b)
    &&& column_witness(0x54, 0xa85454fc, 0xfca85454, 0x54fca854, 0x5454fca8)
    &&& column_witness(0xbb, 0x6dbbbbd6, 0xd66dbbbb, 0xbbd66dbb, 0xbbbbd66d)
    &&& column_witness(0x16, 0x2c16163a, 0x3a2c1616, 0x163a2c16, 0x16163a2c)
}

proof fn lemma_column_witnesses()
    ensures
        column_witnesses(),
{
    reveal(column_witness);
    assert(column_witnesses()) by (bit_vector);
}

/// The column that MixColumns makes of `s` in row 0.
#[verifier::opaque]
spec fn column(s: u8) -> u32 {
    word(gf_mul(s, 2), s, s, gf_mul(s, 3))
}

/// `w` rotated right by `r` bits.
#[verifier::opaque]
spec fn rotated(w: u32, r: u32) -> u32 {
    rotr(w, r)
}

/// What a witness says of its entries.
proof fn lemma_column_witness(s: u8, w0: u32, w1: u32, w2: u32, w3: u32)
    requires
        column_witness(s, w0, w1, w2, w3),
    ensures
        column(s) == w0,
        rotated(w0, 8) == w1,
        rotated(w0, 16) == w2,
        rotated(w0, 24) == w3,
{
    reveal(column_witness);
    reveal(column);
    reveal(rotated);
    lemma_mul_xtime(s, 0);
}

proof fn lemma_t0_columns()
    ensures
        forall|x: u8| #[trigger] T0@[x as int] == column(SBOX@[x as int]),
{
    assert forall|s: u8, w0: u32, w1: u32, w2: u32, w3: u32| #[trigger]
        column_witness(s, w0, w1, w2, w3) implies column(s) == w0 by {
        lemma_column_witness(s, w0, w1, w2, w3);
    }
    lemma_column_witnesses();
}

proof fn lemma_t1_rotations()
    ensures
        forall|x: u8| #[trigger] T1@[x as int] == rotated(T0@[x as int], 8),
{
    assert forall|s: u8, w0: u32, w1: u32, w2: u32, w3: u32| #[trigger]
        column_witness(s, w0, w1, w2, w3) implies rotated(w0, 8) == w1 by {
        lemma_column_witness(s, w0, w1, w2, w3);
    }
    lemma_column_witnesses();
}

proof fn lemma_t2_rotations()
    ensures
        forall|x: u8| #[trigger] T2@[x as int] == rotated(T0@[x as int], 16),
{
    assert forall|s: u8, w0: u32, w1: u32, w2: u32, w3: u32| #[trigger]
        column_witness(s, w0, w1, w2, w3) implies rotated(w0, 16) == w2 by {
        lemma_column_witness(s, w0, w1, w2, w3);
    }
    lemma_column_witnesses();
}

proof fn lemma_t3_rotations()
    ensures
        forall|x: u8| #[trigger] T3@[x as int] == rotated(T0@[x as int], 24),
{
    assert forall|s: u8, w0: u32, w1: u32, w2: u32, w3: u32| #[trigger]
        column_witness(s, w0, w1, w2, w3) implies rotated(w0, 24) == w3 by {
        lemma_column_witness(s, w0, w1, w2, w3);
    }
    lemma_column_witnesses();
}

/// The constant `SBOX_U32` holds the entries of `SBOX`.
pub proof fn lemma_sbox_u32()
    ensures
        forall|x: u8| #[trigger] SBOX_U32@[x as int] == SBOX@[x as int],
{
}

/// Tables that relate to each other as the AES tables do are the AES tables.
proof fn lemma_related_tables(
    s: Seq<u8>,
    t0: Seq<u32>,
    t1: Seq<u32>,
    t2: Seq<u32>,
    t3: Seq<u32>,
    sb: Seq<u32>,
)
    requires
        forall|x: u8| #[trigger] s[x as int] == sbox(x),
        forall|x: u8| #[trigger] t0[x as int] == column(s[x as int]),
        forall|x: u8| #[trigger] t1[x as int] == rotated(t0[x as int], 8),
        forall|x: u8| #[trigger] t2[x as int] == rotated(t0[x as int], 16),
        forall|x: u8| #[trigger] t3[x as int] == rotated(t0[x as int], 24),
        forall|x: u8| #[trigger] sb[x as int] == s[x as int],
    ensures
        are_aes_tables(t0, t1, t2, t3, sb),
{
    reveal(are_aes_tables);
    reveal(column);
    reveal(rotated);
}

/// The constants are the AES tables: `T0` holds the columns
/// `[2.S[x], S[x], S[x], 3.S[x]]`, `T1`, `T2`, `T3` hold its rotations by one,
/// two and three bytes, and `SBOX_U32` holds the S-box.
pub proof fn constants_are_aes_tables()
    ensures
        are_aes_tables(T0@, T1@, T2@, T3@, SBOX_U32@),
{
    lemma_sbox();
    lemma_t0_columns();
    lemma_t1_rotations();
    lemma_t2_rotations();
    lemma_t3_rotations();
    lemma_sbox_u32();
    lemma_related_tables(SBOX@, T0@, T1@, T2@, T3@, SBOX_U32@);
}

/// The constants `T1`, `T2` and `T3` are `T0` rotated right by 8, 16 and 24 bits.
pub proof fn constants_are_rotations(x: u8)
    ensures
        T1@[x as int] == rotr(T0@[x as int], 8),
        T2@[x as int] == rotr(T0@[x as int], 16),
        T3@[x as int] == rotr(T0@[x as int], 24),
{
    lemma_t1_rotations();
    lemma_t2_rotations();
    lemma_t3_rotations();
    reveal(rotated);
}

/// A table with the entries of T0 is T0.
pub proof fn lemma_is_t0(
    t: Seq<u32>,
    t0: Seq<u32>,
    t1: Seq<u32>,
    t2: Seq<u32>,
    t3: Seq<u32>,
    sb: Seq<u32>,
)
    requires
        are_aes_tables(t0, t1, t2, t3, sb),
        t.len() == 256,
        t0.len() == 256,
        forall|x: u8| #[trigger] t[x as int] == t0_entry(x),
    ensures
        t == t0,
{
    reveal(are_aes_tables);
    assert forall|j: int| 0 <= j < 256 implies t[j] == t0[j] by {
        let x = j as u8;
        assert(t[x as int] == t0[x as int]);
    }
}

/// The constant `RCON` holds the powers of x.
pub proof fn lemma_rcon()
    ensures
        forall|i: int| 0 <= i < 10 ==> #[trigger] RCON@[i] == x_power(i as nat),
{
    reveal(gf_mul);
    reveal_with_fuel(x_power, 11);
    assert(gf_mul(0x01, 2) == 0x02 && gf_mul(0x02, 2) == 0x04 && gf_mul(0x04, 2) == 0x08 && gf_mul(0x08, 2)
        == 0x10 && gf_mul(0x10, 2) == 0x20 && gf_mul(0x20, 2) == 0x40 && gf_mul(0x40, 2) == 0x80
        && gf_mul(0x80, 2) == 0x1b && gf_mul(0x1b, 2) == 0x36) by (bit_vector);
}

} // verus!
