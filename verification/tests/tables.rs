use aes_ctr::field::{ginv, gmul};
use aes_ctr::tables::{build_sbox, build_t0, rcon_of, rotr_table, sbox_of};
use aes_ctr::{RCON, SBOX, SBOX_U32, T0, T1, T2, T3};

#[test]
fn gmul_basics() {
    // Identity and the canonical xtime reduction example.
    assert_eq!(gmul(0x01, 0x57), 0x57);
    assert_eq!(gmul(0x57, 0x83), 0xc1); // FIPS-197 Section 4.2 worked example
    assert_eq!(gmul(0x80, 0x02), 0x1b); // high bit set -> reduce by 0x11b
}

#[test]
fn sbox_known_values() {
    // A handful of published AES S-box entries.
    assert_eq!(SBOX[0x00], 0x63); // = affine(0), fixes the constant term
    assert_eq!(SBOX[0x01], 0x7c);
    assert_eq!(SBOX[0x10], 0xca);
    assert_eq!(SBOX[0x53], 0xed);
    assert_eq!(SBOX[0x7a], 0xda);
    assert_eq!(SBOX[0xff], 0x16);
}

#[test]
fn sbox_is_a_permutation() {
    // A correct S-box is a bijection on 0..=255.
    let mut seen = [false; 256];
    for &v in SBOX.iter() {
        assert!(!seen[v as usize], "duplicate S-box output {v:#04x}");
        seen[v as usize] = true;
    }
    assert!(seen.iter().all(|&b| b));
}

#[test]
fn rcon_values() {
    assert_eq!(
        RCON,
        [0x01, 0x02, 0x04, 0x08, 0x10, 0x20, 0x40, 0x80, 0x1b, 0x36]
    );
}

#[test]
fn t0_matches_published_te0() {
    // Independent known answers from the published Rijndael Te0 table.
    assert_eq!(T0[0x00], 0xc66363a5);
    assert_eq!(T0[0x01], 0xf87c7c84);
    assert_eq!(T0[0xff], 0x2c16163a);
}

#[test]
fn t0_structure() {
    // T0[x] must be exactly [2.S[x], S[x], S[x], 3.S[x]].
    for x in 0..256 {
        let s = SBOX[x] as u32;
        let s2 = gmul(SBOX[x], 2) as u32;
        let s3 = gmul(SBOX[x], 3) as u32;
        assert_eq!(T0[x], (s2 << 24) | (s << 16) | (s << 8) | s3);
    }
}

#[test]
fn tables_are_rotations_of_t0() {
    for x in 0..256 {
        assert_eq!(T1[x], T0[x].rotate_right(8));
        assert_eq!(T2[x], T0[x].rotate_right(16));
        assert_eq!(T3[x], T0[x].rotate_right(24));
    }
}

#[test]
fn sbox_u32_matches_sbox() {
    for x in 0..256 {
        assert_eq!(SBOX_U32[x], SBOX[x] as u32);
    }
}

#[test]
fn built_tables_are_the_constants() {
    assert_eq!(build_sbox(), SBOX);
    assert_eq!(build_t0(), T0);
    assert_eq!(rotr_table(T0, 8), T1);
    assert_eq!(rotr_table(T0, 16), T2);
    assert_eq!(rotr_table(T0, 24), T3);
}

#[test]
fn rotations_wrap_at_the_word() {
    assert_eq!(rotr_table(T0, 0), T0);
    assert_eq!(rotr_table(T0, 32), T0);
    assert_eq!(rotr_table(T0, 40), T1);
    assert_eq!(rotr_table([0x0000_0001; 256], 1)[7], 0x8000_0000);
}

#[test]
fn inverses_invert() {
    assert_eq!(ginv(0), 0);
    assert_eq!(ginv(1), 1);
    assert_eq!(ginv(0x02), 0x8d);
    assert_eq!(ginv(0x53), 0xca);
    for a in 1..=255u8 {
        assert_eq!(gmul(a, ginv(a)), 1);
        assert_eq!(ginv(ginv(a)), a);
    }
}

#[test]
fn gmul_is_a_field_product() {
    for a in (0..=255u8).step_by(7) {
        for b in (0..=255u8).step_by(5) {
            assert_eq!(gmul(a, b), gmul(b, a));
            assert_eq!(gmul(a, b ^ 0x1d), gmul(a, b) ^ gmul(a, 0x1d));
            assert_eq!(gmul(a, gmul(b, 0xe5)), gmul(gmul(a, b), 0xe5));
        }
    }
}

#[test]
fn lookups_read_the_constants() {
    assert_eq!(sbox_of(0x53), 0xed);
    assert_eq!(rcon_of(0), 0x01);
    assert_eq!(rcon_of(9), 0x36);
}
