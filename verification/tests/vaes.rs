use aes_ctr::aesni::encrypt_ctr;
use aes_ctr::vaes::{
    encrypt_ctr_vaes256, encrypt_ctr_vaes256_parallel, encrypt_ctr_vaes512,
    encrypt_ctr_vaes512_parallel,
};
use aes_ctr::{ctr_kat, key_expansion, CtrKat, KAT_VECTORS};

/// The shared KAT gate (FIPS-197 cipher core via `counter0 = PT, pt = 0`, plus
/// NIST F.5.1 multi-block CTR), run through one of the VAES kernels.
fn check_kats(enc: impl Fn(&[u32], [u32; 4], &[[u32; 4]], &mut [[u32; 4]])) {
    let CtrKat { key, counter0, plaintext, ciphertext } = ctr_kat();
    let rk = key_expansion(key);
    let mut out = [[0u32; 4]; 4];
    enc(&rk, counter0, &plaintext, &mut out);
    assert_eq!(out, ciphertext);
    for &(pt, key, expected) in &KAT_VECTORS {
        let rk = key_expansion(key);
        let mut out = [[0u32; 4]];
        enc(&rk, pt, &[[0u32; 4]], &mut out);
        assert_eq!(out[0], expected);
    }
}

/// Every VAES kernel must be byte-identical to the AES-NI reference across
/// sizes that exercise full W*LANES groups *and* the (< group) remainder tail.
fn agrees_with_aesni(enc: impl Fn(&[u32], [u32; 4], &[[u32; 4]], &mut [[u32; 4]])) {
    let rk = key_expansion(ctr_kat().key);
    let counter0 = ctr_kat().counter0;
    for n in [0usize, 1, 3, 4, 7, 8, 9, 16, 17, 32, 33, 100, 1000, 65536] {
        let blocks: Vec<[u32; 4]> = (0..n)
            .map(|k| [k as u32, 0xDEAD_BEEF, 0x0BAD_F00D, 0x1234_5678])
            .collect();
        let mut reference = vec![[0u32; 4]; n];
        let mut got = vec![[0u32; 4]; n];
        encrypt_ctr::<8>(&rk, counter0, &blocks, &mut reference);
        enc(&rk, counter0, &blocks, &mut got);
        assert_eq!(reference, got, "VAES disagrees with AES-NI at n={n}");
    }
}

#[test]
fn vaes256_known_answers() {
    check_kats(encrypt_ctr_vaes256::<1>);
    check_kats(encrypt_ctr_vaes256::<8>);
    agrees_with_aesni(encrypt_ctr_vaes256::<1>);
    agrees_with_aesni(encrypt_ctr_vaes256::<8>);
    agrees_with_aesni(encrypt_ctr_vaes256_parallel::<8>);
}

#[test]
fn vaes512_known_answers() {
    check_kats(encrypt_ctr_vaes512::<1>);
    check_kats(encrypt_ctr_vaes512::<8>);
    agrees_with_aesni(encrypt_ctr_vaes512::<1>);
    agrees_with_aesni(encrypt_ctr_vaes512::<8>);
    agrees_with_aesni(encrypt_ctr_vaes512_parallel::<8>);
}

#[test]
fn lanes_wrap_the_counter_one_by_one() {
    // The low word wraps in the middle of a register.
    let rk = key_expansion(ctr_kat().key);
    let counter0 = [0xffff_ffff, 0xffff_ffff, 0xffff_ffff, 0xffff_fffd];
    let blocks = vec![[5u32; 4]; 30];
    let mut scalar = vec![[0u32; 4]; 30];
    let mut v256 = vec![[0u32; 4]; 30];
    let mut v512 = vec![[0u32; 4]; 30];
    aes_ctr::scalar::encrypt_ctr(&rk, counter0, &blocks, &mut scalar);
    encrypt_ctr_vaes256::<3>(&rk, counter0, &blocks, &mut v256);
    encrypt_ctr_vaes512::<3>(&rk, counter0, &blocks, &mut v512);
    assert_eq!(scalar, v256);
    assert_eq!(scalar, v512);
}

#[test]
fn less_than_a_group_is_all_tail() {
    let CtrKat { key, counter0, plaintext, ciphertext } = ctr_kat();
    let rk = key_expansion(key);
    for n in 0..=4usize {
        let mut out = [[0u32; 4]; 4];
        encrypt_ctr_vaes256::<64>(&rk, counter0, &plaintext[..n], &mut out[..n]);
        assert_eq!(out[..n], ciphertext[..n]);
        let mut out = [[0u32; 4]; 4];
        encrypt_ctr_vaes512::<64>(&rk, counter0, &plaintext[..n], &mut out[..n]);
        assert_eq!(out[..n], ciphertext[..n]);
    }
}
