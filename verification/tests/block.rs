use aes_ctr::counter::counter_block;
use aes_ctr::scalar::{encrypt_blocks, encrypt_ctr};
use aes_ctr::{
    ctr_kat, encrypt_block, encrypt_ctr_block, key_expansion, CtrKat, CTR_KAT, KAT_VECTORS, SBOX_U32,
    T0, T1, T2, T3,
};

/// Run the shared `encrypt_block` against a FIPS-197 known-answer test.
fn kat(pt: [u32; 4], key: [u32; 4]) -> [u32; 4] {
    let rk = key_expansion(key);
    encrypt_block(pt, &rk, &T0, &T1, &T2, &T3, &SBOX_U32)
}

#[test]
fn key_expansion_intermediate_values() {
    // FIPS-197 Appendix A.1 expanded-key words for this key.
    let rk = key_expansion([0x2B7E1516, 0x28AED2A6, 0xABF71588, 0x09CF4F3C]);
    assert_eq!(rk[4], 0xa0fafe17); // first generated word
    assert_eq!(rk[43], 0xb6630ca6); // last word
}

#[test]
fn key_schedule_starts_with_the_key() {
    let key = [0x2B7E1516, 0x28AED2A6, 0xABF71588, 0x09CF4F3C];
    assert_eq!(key_expansion(key)[..4], key);
}

#[test]
fn fips197_known_answers() {
    // Every vector in the shared FIPS-197 set round-trips through the same
    // table-based round function the kernel and CPU backends use.
    for &(pt, key, expected) in &KAT_VECTORS {
        assert_eq!(kat(pt, key), expected);
    }
}

#[test]
fn batch_matches_fips197() {
    // Each shared FIPS-197 vector, replicated across a batch, must come back
    // identical for every block.
    for &(pt, key, expected) in &KAT_VECTORS {
        let rk = key_expansion(key);
        let blocks = vec![pt; 64];
        let mut out = vec![[0u32; 4]; 64];
        encrypt_blocks(&rk, &blocks, &mut out);
        assert!(out.iter().all(|&ct| ct == expected));
    }
}

#[test]
fn batch_leaves_the_rest_of_the_output() {
    let (pt, key, expected) = KAT_VECTORS[0];
    let rk = key_expansion(key);
    let mut long = vec![[7u32; 4]; 5];
    encrypt_blocks(&rk, &[pt, pt], &mut long);
    assert_eq!(long, vec![expected, expected, [7; 4], [7; 4], [7; 4]]);
    let mut short = vec![[7u32; 4]; 1];
    encrypt_blocks(&rk, &[pt, pt, pt], &mut short);
    assert_eq!(short, vec![expected]);
    let mut none: Vec<[u32; 4]> = vec![];
    encrypt_blocks(&rk, &[pt], &mut none);
    assert!(none.is_empty());
}

#[test]
fn arbitrary_tables_are_looked_up() {
    // With all tables zero only the last round key is left.
    let zero = [0u32; 256];
    let mut rk = [0u32; 44];
    rk[40] = 1;
    rk[41] = 2;
    rk[42] = 3;
    rk[43] = 4;
    let ct = encrypt_block([9, 8, 7, 6], &rk, &zero, &zero, &zero, &zero, &zero);
    assert_eq!(ct, [1, 2, 3, 4]);
    // An S-box entry wider than a byte spills into the bytes above it.
    let wide = [0x0102u32; 256];
    let ct = encrypt_block([0; 4], &[0; 44], &zero, &zero, &zero, &zero, &wide);
    assert_eq!(ct[0], (0x0102 << 24) | (0x0102 << 16) | (0x0102 << 8) | 0x0102);
}

#[test]
fn different_blocks_encrypt_differently() {
    let (pt, key, _) = KAT_VECTORS[0];
    for bit in 0..32 {
        let mut other = pt;
        other[2] ^= 1 << bit;
        assert_ne!(kat(pt, key), kat(other, key));
    }
}

#[test]
fn scalar_ctr_known_answers() {
    let CtrKat { key, counter0, plaintext, ciphertext } = ctr_kat();
    let rk = key_expansion(key);
    let mut out = [[0u32; 4]; 4];
    encrypt_ctr(&rk, counter0, &plaintext, &mut out);
    assert_eq!(out, ciphertext);
    // A zero block under the counter `pt` is the cipher on `pt`.
    for &(pt, key, expected) in &KAT_VECTORS {
        let rk = key_expansion(key);
        let mut out = [[0u32; 4]];
        encrypt_ctr(&rk, pt, &[[0u32; 4]], &mut out);
        assert_eq!(out[0], expected);
    }
}

#[test]
fn ctr_block_known_answers() {
    let CtrKat { key, counter0, plaintext, ciphertext } = ctr_kat();
    let rk = key_expansion(key);
    for i in 0..4 {
        let ct = encrypt_ctr_block(
            counter0,
            i as u32,
            plaintext[i],
            &rk,
            &T0,
            &T1,
            &T2,
            &T3,
            &SBOX_U32,
        );
        assert_eq!(ct, ciphertext[i]);
    }
}

#[test]
fn ctr_decrypts_what_it_encrypted() {
    let CtrKat { key, counter0, plaintext, ciphertext } = ctr_kat();
    let rk = key_expansion(key);
    let mut back = [[0u32; 4]; 4];
    encrypt_ctr(&rk, counter0, &ciphertext, &mut back);
    assert_eq!(back, plaintext);
}

#[test]
fn ctr_leaves_the_rest_of_the_output() {
    let CtrKat { key, counter0, plaintext, ciphertext } = ctr_kat();
    let rk = key_expansion(key);
    let mut out = [[7u32; 4]; 4];
    encrypt_ctr(&rk, counter0, &plaintext[..2], &mut out);
    assert_eq!(out, [ciphertext[0], ciphertext[1], [7; 4], [7; 4]]);
}

#[test]
fn counters_wrap_in_the_low_word() {
    let c = [1, 2, 3, 0xffff_fffe];
    assert_eq!(counter_block(c, 1), [1, 2, 3, 0xffff_ffff]);
    assert_eq!(counter_block(c, 2), [1, 2, 3, 0]);
    assert_eq!(counter_block(c, 5), [1, 2, 3, 3]);
    assert_eq!(counter_block(counter_block(c, 2), 3), counter_block(c, 5));
}

#[test]
fn known_answer_parts_are_named() {
    let kat = ctr_kat();
    assert_eq!((kat.key, kat.counter0, kat.plaintext, kat.ciphertext), CTR_KAT);
    assert_eq!(kat.key[0], 0x2b7e1516);
    assert_eq!(kat.ciphertext[3][3], 0xf3009cee);
}

#[test]
fn no_block_needs_no_key() {
    let mut out = [[7u32; 4]; 2];
    encrypt_blocks(&[], &[], &mut out);
    encrypt_blocks(&[], &[[1; 4]], &mut []);
    assert_eq!(out, [[7; 4]; 2]);
}
