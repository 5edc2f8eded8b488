use aes_ctr::aesni::encrypt_ctr_pshufb_parallel;
use aes_ctr::parallel::{chunk_for_threads, encrypt_chunk, par_chunk, Kernel};
use aes_ctr::vaes::{encrypt_ctr_vaes256_parallel, encrypt_ctr_vaes512_parallel};
use aes_ctr::{ctr_kat, key_expansion, CtrKat};

#[test]
fn chunks_are_whole_groups() {
    // 100 blocks on 4 threads: 25 each, rounded up to 32.
    assert_eq!(chunk_for_threads(100, 4, 8), 32);
    assert_eq!(chunk_for_threads(100, 4, 25), 25);
    assert_eq!(chunk_for_threads(100, 3, 1), 34);
    assert_eq!(chunk_for_threads(1, 64, 8), 8);
    assert_eq!(chunk_for_threads(0, 4, 8), 0);
    // No threads count as one.
    assert_eq!(chunk_for_threads(10, 0, 4), 12);
}

#[test]
fn the_machine_splits_into_chunks() {
    for n in [1usize, 7, 100, 65536] {
        let chunk = par_chunk(n, 8);
        assert!(chunk > 0 && chunk % 8 == 0 && chunk < n + 8);
        assert!(n.div_ceil(chunk) <= rayon::current_num_threads());
    }
}

#[test]
fn a_chunk_starts_at_its_own_counter() {
    let CtrKat { key, counter0, plaintext, ciphertext } = ctr_kat();
    let rk = key_expansion(key);
    for kernel in [Kernel::Pshufb, Kernel::Vaes256, Kernel::Vaes512] {
        let mut out = [[0u32; 4]; 2];
        encrypt_chunk::<2>(kernel, &rk, counter0, 1, 2, &plaintext[2..], &mut out);
        assert_eq!(out, ciphertext[2..]);
    }
}

#[test]
fn an_empty_message_needs_no_key() {
    encrypt_ctr_pshufb_parallel::<8>(&[], [0; 4], &[], &mut []);
    encrypt_ctr_vaes256_parallel::<8>(&[], [0; 4], &[], &mut []);
    encrypt_ctr_vaes512_parallel::<8>(&[], [0; 4], &[], &mut []);
}
