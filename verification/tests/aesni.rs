use aes_ctr::aesni::{
    encrypt_ctr, encrypt_ctr_pshufb, encrypt_ctr_pshufb_parallel, encrypt_one, load_words,
    round_keys, store_words,
};
use aes_ctr::{ctr_kat, key_expansion, CtrKat, KAT_VECTORS};

/// The shared correctness gate, run at a given interleave width: the NIST
/// F.5.1 multi-block vector (the mode itself) and the FIPS-197 cipher-core
/// vectors via the `counter0 = PT, pt = 0` trick.
fn check_kats<const W: usize>() {
    let CtrKat { key, counter0, plaintext, ciphertext } = ctr_kat();
    let rk = key_expansion(key);
    let mut out = [[0u32; 4]; 4];
    encrypt_ctr::<W>(&rk, counter0, &plaintext, &mut out);
    assert_eq!(out, ciphertext);
    for &(pt, key, expected) in &KAT_VECTORS {
        let rk = key_expansion(key);
        let mut out = [[0u32; 4]];
        encrypt_ctr::<W>(&rk, pt, &[[0u32; 4]], &mut out);
        assert_eq!(out[0], expected);
    }
}

fn sample(n: usize) -> Vec<[u32; 4]> {
    (0..n)
        .map(|k| [k as u32, 0xDEAD_BEEF, 0x0BAD_F00D, 0x1234_5678])
        .collect()
}

#[test]
fn ctr_known_answers() {
    check_kats::<1>(); // naive, one block at a time
    check_kats::<8>(); // interleaved
}

#[test]
fn widths_agree() {
    // Every width must produce identical output, across sizes that exercise
    // full W-chunks *and* the (< W) remainder.
    let rk = key_expansion(ctr_kat().key);
    let counter0 = ctr_kat().counter0;
    for n in [0usize, 1, 7, 8, 9, 16, 17, 100] {
        let blocks = sample(n);
        let mut a = vec![[0u32; 4]; n];
        let mut b = vec![[0u32; 4]; n];
        encrypt_ctr::<1>(&rk, counter0, &blocks, &mut a);
        encrypt_ctr::<8>(&rk, counter0, &blocks, &mut b);
        assert_eq!(a, b, "width 1 vs 8 disagree at n={n}");
    }
}

#[test]
fn parallel_matches_serial() {
    // The multi-core path must be byte-identical to the single-core kernel.
    // Sizes span the empty case, sub-chunk, exact W multiples, the (< W)
    // remainder, and n large enough to split across several worker threads.
    let rk = key_expansion(ctr_kat().key);
    let counter0 = ctr_kat().counter0;
    for n in [0usize, 1, 7, 8, 9, 16, 17, 100, 1000, 65536] {
        let blocks = sample(n);
        let mut serial = vec![[0u32; 4]; n];
        let mut par = vec![[0u32; 4]; n];
        encrypt_ctr::<8>(&rk, counter0, &blocks, &mut serial);
        encrypt_ctr_pshufb_parallel::<8>(&rk, counter0, &blocks, &mut par);
        assert_eq!(serial, par, "pshufb-parallel vs serial disagree at n={n}");
    }
}

#[test]
fn pshufb_matches_serial() {
    // The all-register kernel must be byte-identical to the word-repacking one,
    // at both the single-block width and the interleaved width, across sizes
    // that span the empty case, exact W multiples, and the (< W) remainder tail.
    let rk = key_expansion(ctr_kat().key);
    let counter0 = ctr_kat().counter0;
    for n in [0usize, 1, 7, 8, 9, 16, 17, 100, 1000] {
        let blocks = sample(n);
        let mut reference = vec![[0u32; 4]; n];
        let mut w1 = vec![[0u32; 4]; n];
        let mut w8 = vec![[0u32; 4]; n];
        encrypt_ctr::<8>(&rk, counter0, &blocks, &mut reference);
        encrypt_ctr_pshufb::<1>(&rk, counter0, &blocks, &mut w1);
        encrypt_ctr_pshufb::<8>(&rk, counter0, &blocks, &mut w8);
        assert_eq!(reference, w1, "pshufb W=1 disagrees at n={n}");
        assert_eq!(reference, w8, "pshufb W=8 disagrees at n={n}");
    }
}

#[test]
fn pshufb_known_answers() {
    let CtrKat { key, counter0, plaintext, ciphertext } = ctr_kat();
    let rk = key_expansion(key);
    let mut out = [[0u32; 4]; 4];
    encrypt_ctr_pshufb::<3>(&rk, counter0, &plaintext, &mut out);
    assert_eq!(out, ciphertext);
    let mut out = [[0u32; 4]; 4];
    encrypt_ctr_pshufb_parallel::<2>(&rk, counter0, &plaintext, &mut out);
    assert_eq!(out, ciphertext);
}

#[test]
fn kernels_wrap_the_counter_like_the_scalar_path() {
    let rk = key_expansion(ctr_kat().key);
    let counter0 = [0xffff_ffff, 0xffff_ffff, 0xffff_ffff, 0xffff_fffa];
    let blocks = sample(20);
    let mut scalar = vec![[0u32; 4]; 20];
    let mut repack = vec![[0u32; 4]; 20];
    let mut pshufb = vec![[0u32; 4]; 20];
    let mut par = vec![[0u32; 4]; 20];
    aes_ctr::scalar::encrypt_ctr(&rk, counter0, &blocks, &mut scalar);
    encrypt_ctr::<8>(&rk, counter0, &blocks, &mut repack);
    encrypt_ctr_pshufb::<8>(&rk, counter0, &blocks, &mut pshufb);
    encrypt_ctr_pshufb_parallel::<1>(&rk, counter0, &blocks, &mut par);
    assert_eq!(scalar, repack);
    assert_eq!(scalar, pshufb);
    assert_eq!(scalar, par);
}

#[test]
fn a_width_above_the_message_leaves_it_to_the_tail() {
    let CtrKat { key, counter0, plaintext, ciphertext } = ctr_kat();
    let rk = key_expansion(key);
    let mut out = [[7u32; 4]; 5];
    encrypt_ctr::<100>(&rk, counter0, &plaintext, &mut out);
    assert_eq!(out[..4], ciphertext);
    assert_eq!(out[4], [7; 4]);
}

#[test]
fn words_load_big_endian_and_store_back() {
    let w = [0x00010203, 0x04050607, 0x08090a0b, 0x0c0d0e0f];
    let v = load_words(w);
    assert_eq!(
        v.bytes,
        [0, 1, 2, 3, 4, 5, 6, 7, 8, 9, 10, 11, 12, 13, 14, 15]
    );
    assert_eq!(store_words(v), w);
}

#[test]
fn one_block_matches_fips197() {
    for &(pt, key, expected) in &KAT_VECTORS {
        let keys = round_keys(&key_expansion(key));
        assert_eq!(encrypt_one(&keys, pt), expected);
    }
}
