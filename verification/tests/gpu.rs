use aes_ctr::gpu::{
    aes128_ctr, aes128_ctr_part, aes128_encrypt_blocks, aes128_encrypt_part, launch_for,
    thread_blocks, Launch,
};
use aes_ctr::scalar::{encrypt_blocks, encrypt_ctr};
use aes_ctr::{ctr_kat, key_expansion, CtrKat, KAT_VECTORS, SBOX_U32, T0, T1, T2, T3};

/// Run every thread of the launch for `blocks`, last thread first.
fn launch_ctr(
    rk: &[u32],
    counter0: [u32; 4],
    blocks: &[[u32; 4]],
    blocks_per_thread: usize,
) -> Vec<u32> {
    let n = blocks.len();
    let pt = blocks.as_flattened();
    let mut ct = vec![0u32; n * 4];
    if let Some(Launch { grid, block }) = launch_for(n, blocks_per_thread) {
        for t in (0..grid * block).rev() {
            aes128_ctr(
                t,
                &counter0,
                pt,
                rk,
                &T0,
                &T1,
                &T2,
                &T3,
                &SBOX_U32,
                &mut ct,
                n,
                blocks_per_thread,
            );
        }
    }
    ct
}

#[test]
fn threads_match_the_known_answers() {
    let CtrKat { key, counter0, plaintext, ciphertext } = ctr_kat();
    let rk = key_expansion(key);
    for r in [1usize, 2, 3, 4, 16] {
        let ct = launch_ctr(&rk, counter0, &plaintext, r);
        assert_eq!(ct, ciphertext.as_flattened());
    }
    for &(pt, key, expected) in &KAT_VECTORS {
        let rk = key_expansion(key);
        assert_eq!(launch_ctr(&rk, pt, &[[0u32; 4]], 1), expected);
    }
}

#[test]
fn any_number_of_blocks_per_thread_agrees() {
    let rk = key_expansion(ctr_kat().key);
    let counter0 = [9, 9, 9, 0xffff_fff0];
    let blocks: Vec<[u32; 4]> = (0..300u32).map(|k| [k, k + 1, k + 2, k + 3]).collect();
    let mut expected = vec![[0u32; 4]; 300];
    encrypt_ctr(&rk, counter0, &blocks, &mut expected);
    for r in [1usize, 7, 300, 1000, usize::MAX] {
        assert_eq!(launch_ctr(&rk, counter0, &blocks, r), expected.as_flattened());
    }
    assert!(launch_ctr(&rk, counter0, &[], 1).is_empty());
}

#[test]
fn a_thread_writes_only_its_own_blocks() {
    let CtrKat { key, counter0, plaintext, ciphertext } = ctr_kat();
    let rk = key_expansion(key);
    let pt = plaintext.as_flattened();
    let mut ct = vec![7u32; 20];
    aes128_ctr(
        1, &counter0, pt, &rk, &T0, &T1, &T2, &T3, &SBOX_U32, &mut ct, 4, 2,
    );
    assert_eq!(ct[..8], [7; 8]);
    assert_eq!(ct[8..16], ciphertext.as_flattened()[8..16]);
    assert_eq!(ct[16..], [7; 4]);
    // A thread past the blocks, and a thread with none to do, write nothing.
    let mut ct = vec![7u32; 16];
    aes128_ctr(
        4, &counter0, pt, &rk, &T0, &T1, &T2, &T3, &SBOX_U32, &mut ct, 4, 1,
    );
    aes128_ctr(
        0, &counter0, pt, &rk, &T0, &T1, &T2, &T3, &SBOX_U32, &mut ct, 4, 0,
    );
    assert_eq!(ct, vec![7; 16]);
}

#[test]
fn ecb_threads_match_fips197() {
    for &(block, key, expected) in &KAT_VECTORS {
        let rk = key_expansion(key);
        let blocks = [block; 3];
        let mut ct = vec![7u32; 12];
        for t in [0, 2, 3] {
            aes128_encrypt_blocks(
                t,
                blocks.as_flattened(),
                &rk,
                &T0,
                &T1,
                &T2,
                &T3,
                &SBOX_U32,
                &mut ct,
                3,
            );
        }
        assert_eq!(ct[..4], expected);
        assert_eq!(ct[4..8], [7; 4]);
        assert_eq!(ct[8..], expected);
    }
}

#[test]
fn launches_round_up_to_whole_blocks() {
    assert_eq!(launch_for(0, 1), None);
    assert_eq!(launch_for(1, 1), Some(Launch { grid: 1, block: 256 }));
    assert_eq!(launch_for(256, 1), Some(Launch { grid: 1, block: 256 }));
    assert_eq!(launch_for(257, 1), Some(Launch { grid: 2, block: 256 }));
    assert_eq!(launch_for(65536, 1), Some(Launch { grid: 256, block: 256 }));
    assert_eq!(launch_for(1025, 4), Some(Launch { grid: 2, block: 256 }));
}

#[test]
fn ecb_launch_matches_the_scalar_backend() {
    let rk = key_expansion(ctr_kat().key);
    for n in [1usize, 255, 256, 257] {
        let blocks: Vec<[u32; 4]> = (0..n as u32).map(|k| [k, k ^ 5, !k, 3]).collect();
        let mut expected = vec![[0u32; 4]; n];
        encrypt_blocks(&rk, &blocks, &mut expected);
        let mut ct = vec![0u32; n * 4];
        let Launch { grid, block } = launch_for(n, 1).unwrap();
        for t in (0..grid * block).rev() {
            aes128_encrypt_blocks(
                t,
                blocks.as_flattened(),
                &rk,
                &T0,
                &T1,
                &T2,
                &T3,
                &SBOX_U32,
                &mut ct,
                n,
            );
        }
        assert_eq!(ct, expected.as_flattened());
    }
}

#[test]
fn other_tables_are_looked_up_as_they_are() {
    // With zero tables and a zero S-box only the last round key is left.
    let CtrKat { key, counter0, plaintext, .. } = ctr_kat();
    let rk = key_expansion(key);
    let zero = [0u32; 256];
    let mut ct = [0u32; 16];
    for t in [1, 0] {
        aes128_ctr(
            t,
            &counter0,
            plaintext.as_flattened(),
            &rk,
            &zero,
            &zero,
            &zero,
            &zero,
            &zero,
            &mut ct,
            4,
            2,
        );
    }
    for i in 0..4 {
        for k in 0..4 {
            assert_eq!(ct[4 * i + k], plaintext[i][k] ^ rk[40 + k]);
        }
    }
}

#[test]
fn parts_are_the_blocks_of_a_thread() {
    assert_eq!(thread_blocks(0, 5, 2), (0, 2));
    assert_eq!(thread_blocks(2, 5, 2), (4, 5));
    assert_eq!(thread_blocks(3, 5, 2), (5, 5));
    assert_eq!(thread_blocks(0, 5, 0), (0, 0));
    // A thread whose first block is no machine number is past the blocks.
    assert_eq!(thread_blocks(0, 5, usize::MAX), (0, 5));
    assert_eq!(thread_blocks(2, 5, usize::MAX), (5, 5));
    let CtrKat { key, counter0, plaintext, ciphertext } = ctr_kat();
    let rk = key_expansion(key);
    let pt = plaintext.as_flattened();
    let mut part = [0u32; 8];
    aes128_ctr_part(1, &counter0, pt, &rk, &T0, &T1, &T2, &T3, &SBOX_U32, &mut part);
    assert_eq!(part, ciphertext.as_flattened()[4..12]);
    let (block, key, expected) = KAT_VECTORS[0];
    let rk = key_expansion(key);
    let pt = [[0u32; 4], block];
    let mut part = [0u32; 4];
    aes128_encrypt_part(
        1,
        pt.as_flattened(),
        &rk,
        &T0,
        &T1,
        &T2,
        &T3,
        &SBOX_U32,
        &mut part,
    );
    assert_eq!(part, expected);
}

#[test]
fn a_thread_without_blocks_reads_nothing() {
    let mut ct = [7u32; 8];
    aes128_ctr(3, &[0; 4], &[], &[], &[], &[], &[], &[], &[], &mut ct, 3, 1);
    aes128_encrypt_blocks(3, &[], &[], &[], &[], &[], &[], &[], &mut ct, 3);
    assert_eq!(ct, [7; 8]);
}
