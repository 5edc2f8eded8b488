//! What a whole launch leaves in the output buffer, whatever the order in which
//! its threads run.
//!
//! A run of threads is the order in which they run and the contents of the buffer
//! before the first of them and after each of them.

use crate::division::{ceil_div, lemma_ceil_div};
use crate::equations::counter_with_these_words;
use crate::gpu::{
    block_in, covers, ctr_lookup, ecb_lookup, end_block, first_block, launch_threads, part_holds,
    thread_ran,
};
use crate::lookup::lookup_cipher_is_aes;
use crate::model::{
    are_aes_tables, counter_at, ctr_block, encrypt_words, lookup_cipher, xor_words,
};
use crate::table_entries::constants_are_aes_tables;
use crate::tables::{SBOX_U32, T0, T1, T2, T3};
use vstd::arithmetic::div_mod::lemma_fundamental_div_mod;
use vstd::prelude::*;

verus! {

/// The threads of `order`, one after the other, took the buffer through `bufs`.
pub open spec fn is_run(
    order: Seq<int>,
    r: int,
    n: int,
    f: spec_fn(int) -> Seq<u32>,
    bufs: Seq<Seq<u32>>,
) -> bool {
    &&& bufs.len() == order.len() + 1
    &&& forall|k: int|
        0 <= k < order.len() ==> thread_ran(#[trigger] order[k], r, n, f, bufs[k], bufs[k + 1])
}

/// Each of the threads `0 .. threads` is in `order`.
pub open spec fn runs_all(order: Seq<int>, threads: int) -> bool {
    forall|t: int| 0 <= t < threads ==> #[trigger] order.contains(t)
}

/// A buffer of words holds the blocks of a message.
pub open spec fn is_flattened(words: Seq<u32>, blocks: Seq<[u32; 4]>) -> bool {
    &&& words.len() == 4 * blocks.len()
    &&& forall|i: int| 0 <= i < blocks.len() ==> #[trigger] block_in(words, i) == blocks[i]@
}

/// A launch covers every block exactly once: block `i` is covered by thread
/// `i / R` and by no other, and that thread is one of the launch.
pub proof fn launch_covers_each_block_once(n: int, r: int, i: int)
    requires
        0 <= i < n,
        r > 0,
    ensures
        forall|t: int| t >= 0 ==> (#[trigger] covers(t, r, n, i) <==> t == i / r),
        0 <= i / r < launch_threads(n, r),
{
    lemma_ceil_div(n, r);
    lemma_ceil_div(ceil_div(n, r), 256);
    lemma_fundamental_div_mod(i, r);
    let q = i / r;
    assert(q * r == r * q) by (nonlinear_arith);
    assert(q >= 0) by (nonlinear_arith)
        requires
            i == r * q + i % r,
            i % r < r,
            0 <= i,
            r > 0,
    ;
    assert(q < ceil_div(n, r)) by (nonlinear_arith)
        requires
            q * r <= i,
            i < n,
            n <= ceil_div(n, r) * r,
            r > 0,
    ;
    assert forall|t: int| t >= 0 implies (#[trigger] covers(t, r, n, i) <==> t == i / r) by {
        if covers(t, r, n, i) {
            assert(t == q) by (nonlinear_arith)
                requires
                    t * r <= i < t * r + r,
                    q * r <= i < q * r + r,
                    r > 0,
            ;
        }
    }
}

/// A thread keeps a block that is done.
proof fn lemma_thread_keeps(
    t: int,
    r: int,
    n: int,
    f: spec_fn(int) -> Seq<u32>,
    before: Seq<u32>,
    after: Seq<u32>,
    i: int,
)
    requires
        thread_ran(t, r, n, f, before, after),
        0 <= i < n,
        4 * n <= before.len(),
        block_in(before, i) == f(i),
    ensures
        block_in(after, i) == f(i),
{
    if !covers(t, r, n, i) {
        assert forall|w: int| 4 * i <= w < 4 * i + 4 implies #[trigger] after[w]
            == before[w] by {
            assert(w / 4 == i);
        }
        assert(block_in(after, i) =~= block_in(before, i));
    }
}

/// The length of the buffer and the words past the blocks stay through a run.
proof fn lemma_run_keeps(
    order: Seq<int>,
    r: int,
    n: int,
    f: spec_fn(int) -> Seq<u32>,
    bufs: Seq<Seq<u32>>,
    k: int,
)
    requires
        is_run(order, r, n, f, bufs),
        0 <= k <= order.len(),
        0 <= n,
    ensures
        bufs[k].len() == bufs[0].len(),
        forall|w: int| 4 * n <= w < bufs[0].len() ==> #[trigger] bufs[k][w] == bufs[0][w],
    decreases k,
{
    if k > 0 {
        lemma_run_keeps(order, r, n, f, bufs, k - 1);
        assert(thread_ran(order[k - 1], r, n, f, bufs[k - 1], bufs[k]));
        assert forall|w: int| 4 * n <= w < bufs[0].len() implies #[trigger] bufs[k][w]
            == bufs[0][w] by {
            assert(!covers(order[k - 1], r, n, w / 4));
            assert(bufs[k - 1][w] == bufs[0][w]);
        }
    }
}

/// A block that some thread of a run covers is done after it.
proof fn lemma_block_done(
    order: Seq<int>,
    r: int,
    n: int,
    f: spec_fn(int) -> Seq<u32>,
    bufs: Seq<Seq<u32>>,
    i: int,
    at: int,
    k: int,
)
    requires
        is_run(order, r, n, f, bufs),
        0 <= i < n,
        4 * n <= bufs[0].len(),
        0 <= at < k <= order.len(),
        covers(order[at], r, n, i),
    ensures
        block_in(bufs[k], i) == f(i),
    decreases k,
{
    assert(thread_ran(order[k - 1], r, n, f, bufs[k - 1], bufs[k]));
    if at < k - 1 {
        lemma_block_done(order, r, n, f, bufs, i, at, k - 1);
        lemma_run_keeps(order, r, n, f, bufs, k - 1);
        lemma_thread_keeps(order[k - 1], r, n, f, bufs[k - 1], bufs[k], i);
    }
}

/// Once enough threads to cover the `n` blocks have run, in any order, every
/// block is done, and the words past the blocks are those from before the run.
pub proof fn run_leaves_every_block(
    order: Seq<int>,
    threads: int,
    r: int,
    n: int,
    f: spec_fn(int) -> Seq<u32>,
    bufs: Seq<Seq<u32>>,
)
    requires
        r > 0,
        0 <= n <= threads * r,
        4 * n <= bufs[0].len(),
        is_run(order, r, n, f, bufs),
        runs_all(order, threads),
    ensures
        bufs.last().len() == bufs[0].len(),
        forall|i: int| 0 <= i < n ==> #[trigger] block_in(bufs.last(), i) == f(i),
        forall|w: int|
            4 * n <= w < bufs[0].len() ==> #[trigger] bufs.last()[w] == bufs[0][w],
{
    lemma_run_keeps(order, r, n, f, bufs, order.len() as int);
    assert forall|i: int| 0 <= i < n implies #[trigger] block_in(bufs.last(), i) == f(i) by {
        let t = i / r;
        lemma_fundamental_div_mod(i, r);
        assert(0 <= t < threads && t * r <= i < t * r + r) by (nonlinear_arith)
            requires
                i == r * t + i % r,
                0 <= i % r < r,
                0 <= i < n,
                n <= threads * r,
                r > 0,
        ;
        assert(order.contains(t));
        let at = order.index_of(t);
        assert(order[at] == t);
        lemma_block_done(order, r, n, f, bufs, i, at, order.len() as int);
    }
}

/// A run of enough counter-mode threads, in any order and for any tables, leaves
/// the whole message in counter mode by lookup in those tables; for the AES tables
/// that is AES-128 in counter mode.
pub proof fn ctr_threads_encrypt_the_message(
    counter0: Seq<u32>,
    pt: Seq<u32>,
    rk: Seq<u32>,
    t0: Seq<u32>,
    t1: Seq<u32>,
    t2: Seq<u32>,
    t3: Seq<u32>,
    sbox: Seq<u32>,
    order: Seq<int>,
    threads: int,
    r: int,
    n: int,
    bufs: Seq<Seq<u32>>,
)
    requires
        r > 0,
        0 <= n <= threads * r,
        4 * n <= bufs[0].len(),
        is_run(order, r, n, ctr_lookup(counter0, pt, rk, t0, t1, t2, t3, sbox), bufs),
        runs_all(order, threads),
    ensures
        forall|i: int|
            0 <= i < n ==> #[trigger] block_in(bufs.last(), i) == xor_words(
                block_in(pt, i),
                lookup_cipher(
                    rk,
                    counter_at(counter0.subrange(0, 4), i),
                    t0,
                    t1,
                    t2,
                    t3,
                    sbox,
                ),
            ),
        are_aes_tables(t0, t1, t2, t3, sbox) && rk.len() >= 44 ==> forall|i: int|
            0 <= i < n ==> #[trigger] block_in(bufs.last(), i) == ctr_block(
                rk,
                counter0.subrange(0, 4),
                i,
                block_in(pt, i),
            ),
{
    run_leaves_every_block(
        order,
        threads,
        r,
        n,
        ctr_lookup(counter0, pt, rk, t0, t1, t2, t3, sbox),
        bufs,
    );
    if are_aes_tables(t0, t1, t2, t3, sbox) && rk.len() >= 44 {
        assert forall|i: int| 0 <= i < n implies #[trigger] block_in(bufs.last(), i) == ctr_block(
            rk,
            counter0.subrange(0, 4),
            i,
            block_in(pt, i),
        ) by {
            lookup_cipher_is_aes(
                rk,
                counter_at(counter0.subrange(0, 4), i),
                t0,
                t1,
                t2,
                t3,
                sbox,
            );
        }
    }
}

/// What a run of enough threads leaves depends neither on the order of the
/// threads, nor on the number of blocks per thread, nor on what the buffer held.
pub proof fn runs_agree(
    f: spec_fn(int) -> Seq<u32>,
    n: int,
    order_a: Seq<int>,
    threads_a: int,
    r_a: int,
    bufs_a: Seq<Seq<u32>>,
    order_b: Seq<int>,
    threads_b: int,
    r_b: int,
    bufs_b: Seq<Seq<u32>>,
)
    requires
        r_a > 0,
        r_b > 0,
        0 <= n <= threads_a * r_a,
        n <= threads_b * r_b,
        bufs_a[0].len() == 4 * n,
        bufs_b[0].len() == 4 * n,
        is_run(order_a, r_a, n, f, bufs_a),
        is_run(order_b, r_b, n, f, bufs_b),
        runs_all(order_a, threads_a),
        runs_all(order_b, threads_b),
    ensures
        bufs_a.last() == bufs_b.last(),
{
    run_leaves_every_block(order_a, threads_a, r_a, n, f, bufs_a);
    run_leaves_every_block(order_b, threads_b, r_b, n, f, bufs_b);
    let (a, b) = (bufs_a.last(), bufs_b.last());
    assert forall|w: int| 0 <= w < 4 * n implies #[trigger] a[w] == b[w] by {
        assert(block_in(a, w / 4) == f(w / 4));
        assert(block_in(b, w / 4) == f(w / 4));
        assert(a[w] == block_in(a, w / 4)[w % 4]);
        assert(b[w] == block_in(b, w / 4)[w % 4]);
    }
    assert(a =~= b);
}

/// The threads of a launch are enough to cover the blocks.
pub proof fn launch_has_enough_threads(n: int, r: int)
    requires
        0 <= n,
        r > 0,
    ensures
        n <= launch_threads(n, r) * r,
{
    lemma_ceil_div(n, r);
    let c = ceil_div(n, r);
    assert(c >= 0) by (nonlinear_arith)
        requires
            0 <= n <= c * r,
            r > 0,
    ;
    lemma_ceil_div(c, 256);
    assert(n <= launch_threads(n, r) * r) by (nonlinear_arith)
        requires
            n <= c * r,
            c <= launch_threads(n, r),
            r > 0,
    ;
}

/// The counter-mode launch for a message, at any number of blocks per thread,
/// leaves the message in counter mode: block `i` is what the scalar backend
/// computes for it.
pub proof fn ctr_launch_encrypts_the_message(
    rk: Seq<u32>,
    counter0: Seq<u32>,
    blocks: Seq<[u32; 4]>,
    pt: Seq<u32>,
    r: int,
    order: Seq<int>,
    bufs: Seq<Seq<u32>>,
)
    requires
        rk.len() >= 44,
        counter0.len() == 4,
        r > 0,
        is_flattened(pt, blocks),
        bufs[0].len() == 4 * blocks.len(),
        is_run(
            order,
            r,
            blocks.len() as int,
            ctr_lookup(counter0, pt, rk, T0@, T1@, T2@, T3@, SBOX_U32@),
            bufs,
        ),
        runs_all(order, launch_threads(blocks.len() as int, r)),
    ensures
        bufs.last().len() == 4 * blocks.len(),
        forall|i: int|
            0 <= i < blocks.len() ==> #[trigger] block_in(bufs.last(), i) == ctr_block(
                rk,
                counter0,
                i,
                blocks[i]@,
            ),
{
    let n = blocks.len() as int;
    launch_has_enough_threads(n, r);
    lemma_run_keeps(
        order,
        r,
        n,
        ctr_lookup(counter0, pt, rk, T0@, T1@, T2@, T3@, SBOX_U32@),
        bufs,
        order.len() as int,
    );
    constants_are_aes_tables();
    ctr_threads_encrypt_the_message(
        counter0,
        pt,
        rk,
        T0@,
        T1@,
        T2@,
        T3@,
        SBOX_U32@,
        order,
        launch_threads(n, r),
        r,
        n,
        bufs,
    );
    assert(counter0.subrange(0, 4) =~= counter0);
    assert forall|i: int| 0 <= i < n implies #[trigger] block_in(bufs.last(), i) == ctr_block(
        rk,
        counter0,
        i,
        blocks[i]@,
    ) by {
        assert(block_in(pt, i) == blocks[i]@);
    }
}

/// The ECB launch for a batch, one thread per block, leaves every block encrypted:
/// block `i` is what the scalar backend computes for it.
pub proof fn ecb_launch_encrypts_the_batch(
    rk: Seq<u32>,
    blocks: Seq<[u32; 4]>,
    pt: Seq<u32>,
    order: Seq<int>,
    bufs: Seq<Seq<u32>>,
)
    requires
        rk.len() >= 44,
        is_flattened(pt, blocks),
        bufs[0].len() == 4 * blocks.len(),
        is_run(
            order,
            1,
            blocks.len() as int,
            ecb_lookup(pt, rk, T0@, T1@, T2@, T3@, SBOX_U32@),
            bufs,
        ),
        runs_all(order, launch_threads(blocks.len() as int, 1)),
    ensures
        bufs.last().len() == 4 * blocks.len(),
        forall|i: int|
            0 <= i < blocks.len() ==> #[trigger] block_in(bufs.last(), i) == encrypt_words(
                rk,
                blocks[i]@,
            ),
{
    let n = blocks.len() as int;
    launch_has_enough_threads(n, 1);
    run_leaves_every_block(
        order,
        launch_threads(n, 1),
        1,
        n,
        ecb_lookup(pt, rk, T0@, T1@, T2@, T3@, SBOX_U32@),
        bufs,
    );
    constants_are_aes_tables();
    assert forall|i: int| 0 <= i < n implies #[trigger] block_in(bufs.last(), i)
        == encrypt_words(rk, blocks[i]@) by {
        assert(block_in(pt, i) == blocks[i]@);
        lookup_cipher_is_aes(rk, block_in(pt, i), T0@, T1@, T2@, T3@, SBOX_U32@);
    }
}

// ---------------------------------------------------------------------------
// The buffers, word by word.
// ---------------------------------------------------------------------------

/// Word `k` of block `i` of a buffer is word `4 * i + k` of the buffer.
pub proof fn blocks_lie_in_order(words: Seq<u32>, i: int, k: int)
    requires
        0 <= i,
        4 * i + 4 <= words.len(),
        0 <= k < 4,
    ensures
        block_in(words, i).len() == 4,
        block_in(words, i)[k] == words[4 * i + k],
{
}

/// A buffer holds the blocks of a message exactly if word `4 * i + k` of it is word
/// `k` of block `i`, for every `i` and `k`, and there are no other words.
pub proof fn flattening_by_words(words: Seq<u32>, blocks: Seq<[u32; 4]>)
    ensures
        is_flattened(words, blocks) <==> words.len() == 4 * blocks.len() && forall|i: int, k: int|
            #![trigger blocks[i]@[k]]
            0 <= i < blocks.len() && 0 <= k < 4 ==> words[4 * i + k] == blocks[i]@[k],
{
    if words.len() == 4 * blocks.len() {
        if is_flattened(words, blocks) {
            assert forall|i: int, k: int|
                #![trigger blocks[i]@[k]]
                0 <= i < blocks.len() && 0 <= k < 4 implies words[4 * i + k] == blocks[i]@[k] by {
                assert(block_in(words, i) == blocks[i]@);
                assert(words[4 * i + k] == block_in(words, i)[k]);
            }
        }
        if forall|i: int, k: int|
            #![trigger blocks[i]@[k]]
            0 <= i < blocks.len() && 0 <= k < 4 ==> words[4 * i + k] == blocks[i]@[k] {
            assert forall|i: int| 0 <= i < blocks.len() implies #[trigger] block_in(words, i)
                == blocks[i]@ by {
                assert forall|k: int| 0 <= k < 4 implies block_in(words, i)[k]
                    == blocks[i]@[k] by {
                    assert(words[4 * i + k] == blocks[i]@[k]);
                }
                assert(block_in(words, i) =~= blocks[i]@);
            }
        }
    }
}

/// A thread covers the blocks from its index times `r` on, `r` of them at most, and
/// none past the last.
pub proof fn covered_blocks(t: int, r: int, n: int, i: int)
    ensures
        covers(t, r, n, i) <==> 0 <= i - t * r < r && i < n,
        0 <= i < n && 0 <= r && 0 <= t ==> (covers(t, r, n, i) <==> first_block(t, r, n) <= i
            < end_block(t, r, n)),
        0 <= n && 0 <= r && 0 <= t ==> 0 <= first_block(t, r, n) <= end_block(t, r, n) <= n,
        t * r >= n ==> first_block(t, r, n) == n,
        t * r < n ==> first_block(t, r, n) == t * r,
{
    if 0 <= t && 0 <= r {
        assert(t * r >= 0) by (nonlinear_arith)
            requires
                0 <= t,
                0 <= r,
        ;
    }
}

/// What a thread leaves, word by word: the buffer keeps its length and every word
/// outside the blocks of the thread; words `4 * i ..` of its block `i` are `f(i)`.
#[verifier::rlimit(60)]
pub proof fn thread_by_words(
    t: int,
    r: int,
    n: int,
    f: spec_fn(int) -> Seq<u32>,
    before: Seq<u32>,
    after: Seq<u32>,
    i: int,
    k: int,
)
    requires
        thread_ran(t, r, n, f, before, after),
        0 <= i,
        4 * i + 4 <= before.len(),
        0 <= k < 4,
    ensures
        after.len() == before.len(),
        0 <= i - t * r < r && i < n ==> after[4 * i + k] == f(i)[k],
        !(0 <= i - t * r < r && i < n) ==> after[4 * i + k] == before[4 * i + k],
{
    assert((4 * i + k) / 4 == i);
    if covers(t, r, n, i) {
        assert(block_in(after, i) == f(i));
        assert(after[4 * i + k] == block_in(after, i)[k]);
    }
}

/// A word of a block that a thread leaves, where the block is the sum of an input
/// block and the keystream `e`.
#[verifier::rlimit(60)]
proof fn lemma_summed_word(
    t: int,
    r: int,
    n: int,
    f: spec_fn(int) -> Seq<u32>,
    before: Seq<u32>,
    after: Seq<u32>,
    pt: Seq<u32>,
    e: Seq<u32>,
    i: int,
    k: int,
)
    requires
        thread_ran(t, r, n, f, before, after),
        f(i) == xor_words(block_in(pt, i), e),
        0 <= i < n,
        0 <= i - t * r < r,
        4 * i + 4 <= before.len(),
        4 * i + 4 <= pt.len(),
        0 <= k < 4,
    ensures
        after[4 * i + k] == pt[4 * i + k] ^ e[k],
{
    thread_by_words(t, r, n, f, before, after, i, k);
    blocks_lie_in_order(pt, i, k);
}

/// A word of a block of a part, where the block is the sum of an input block and the
/// keystream `e`.
#[verifier::rlimit(60)]
proof fn lemma_summed_part(
    part: Seq<u32>,
    first: int,
    count: int,
    f: spec_fn(int) -> Seq<u32>,
    pt: Seq<u32>,
    e: Seq<u32>,
    j: int,
    k: int,
)
    requires
        part_holds(part, first, count, f),
        f(first + j) == xor_words(block_in(pt, first + j), e),
        0 <= first,
        0 <= j < count,
        4 * count <= part.len(),
        4 * (first + j) + 4 <= pt.len(),
        0 <= k < 4,
    ensures
        part[4 * j + k] == pt[4 * (first + j) + k] ^ e[k],
{
    assert(block_in(part, j) == f(first + j));
    blocks_lie_in_order(part, j, k);
    blocks_lie_in_order(pt, first + j, k);
}

/// A word of a block of a part.
proof fn lemma_part_word(
    part: Seq<u32>,
    first: int,
    count: int,
    f: spec_fn(int) -> Seq<u32>,
    j: int,
    k: int,
)
    requires
        part_holds(part, first, count, f),
        0 <= j < count,
        4 * count <= part.len(),
        0 <= k < 4,
    ensures
        part[4 * j + k] == f(first + j)[k],
{
    assert(block_in(part, j) == f(first + j));
    blocks_lie_in_order(part, j, k);
}

/// A block of the counter-mode lookup, for a counter block given by its words.
#[verifier::rlimit(40)]
proof fn lemma_ctr_lookup(
    counter0: Seq<u32>,
    pt: Seq<u32>,
    rk: Seq<u32>,
    t0: Seq<u32>,
    t1: Seq<u32>,
    t2: Seq<u32>,
    t3: Seq<u32>,
    sbox: Seq<u32>,
    i: int,
    ctr: Seq<u32>,
)
    requires
        counter0.len() >= 4,
        ctr.len() == 4,
        ctr[0] == counter0[0],
        ctr[1] == counter0[1],
        ctr[2] == counter0[2],
        (ctr[3] - counter0[3] - i) % 0x1_0000_0000 == 0,
    ensures
        ctr_lookup(counter0, pt, rk, t0, t1, t2, t3, sbox)(i) == xor_words(
            block_in(pt, i),
            lookup_cipher(rk, ctr, t0, t1, t2, t3, sbox),
        ),
{
    counter_with_these_words(counter0.subrange(0, 4), i, ctr);
}

/// A thread of the counter-mode kernel, word by word: word `4 * i + k` of the output
/// is word `4 * i + k` of the input plus word `k` of the encryption, by lookup in the
/// tables, of the counter block whose last word is `i` more modulo 2^32.
#[verifier::rlimit(60)]
pub proof fn ctr_thread_by_words(
    t: int,
    r: int,
    n: int,
    counter0: Seq<u32>,
    pt: Seq<u32>,
    rk: Seq<u32>,
    t0: Seq<u32>,
    t1: Seq<u32>,
    t2: Seq<u32>,
    t3: Seq<u32>,
    sbox: Seq<u32>,
    before: Seq<u32>,
    after: Seq<u32>,
    i: int,
    ctr: Seq<u32>,
    k: int,
)
    requires
        thread_ran(
            t,
            r,
            n,
            ctr_lookup(counter0, pt, rk, t0, t1, t2, t3, sbox),
            before,
            after,
        ),
        0 <= i < n,
        0 <= i - t * r < r,
        4 * i + 4 <= before.len(),
        4 * i + 4 <= pt.len(),
        counter0.len() >= 4,
        ctr.len() == 4,
        ctr[0] == counter0[0],
        ctr[1] == counter0[1],
        ctr[2] == counter0[2],
        (ctr[3] - counter0[3] - i) % 0x1_0000_0000 == 0,
        0 <= k < 4,
    ensures
        after[4 * i + k] == pt[4 * i + k] ^ lookup_cipher(rk, ctr, t0, t1, t2, t3, sbox)[k],
{
    lemma_ctr_lookup(counter0, pt, rk, t0, t1, t2, t3, sbox, i, ctr);
    lemma_summed_word(
        t,
        r,
        n,
        ctr_lookup(counter0, pt, rk, t0, t1, t2, t3, sbox),
        before,
        after,
        pt,
        lookup_cipher(rk, ctr, t0, t1, t2, t3, sbox),
        i,
        k,
    );
}

/// A thread of the ECB kernel, word by word: word `4 * i + k` of the output is word
/// `k` of the encryption, by lookup in the tables, of the input words `4 * i ..`.
#[verifier::rlimit(60)]
pub proof fn ecb_thread_by_words(
    t: int,
    n: int,
    pt: Seq<u32>,
    rk: Seq<u32>,
    t0: Seq<u32>,
    t1: Seq<u32>,
    t2: Seq<u32>,
    t3: Seq<u32>,
    sbox: Seq<u32>,
    before: Seq<u32>,
    after: Seq<u32>,
    block: Seq<u32>,
    k: int,
)
    requires
        thread_ran(t, 1, n, ecb_lookup(pt, rk, t0, t1, t2, t3, sbox), before, after),
        0 <= t < n,
        4 * t + 4 <= before.len(),
        4 * t + 4 <= pt.len(),
        block.len() == 4,
        forall|j: int| 0 <= j < 4 ==> #[trigger] block[j] == pt[4 * t + j],
        0 <= k < 4,
    ensures
        after[4 * t + k] == lookup_cipher(rk, block, t0, t1, t2, t3, sbox)[k],
{
    assert(block =~= block_in(pt, t));
    thread_by_words(t, 1, n, ecb_lookup(pt, rk, t0, t1, t2, t3, sbox), before, after, t, k);
}

/// The part of the output of a counter-mode thread, word by word: word `4 * j + k` is
/// word `4 * (first + j) + k` of the input plus word `k` of the encryption, by lookup
/// in the tables, of the counter block whose last word is `first + j` more modulo
/// 2^32.
#[verifier::rlimit(60)]
pub proof fn ctr_part_by_words(
    first: int,
    count: int,
    counter0: Seq<u32>,
    pt: Seq<u32>,
    rk: Seq<u32>,
    t0: Seq<u32>,
    t1: Seq<u32>,
    t2: Seq<u32>,
    t3: Seq<u32>,
    sbox: Seq<u32>,
    part: Seq<u32>,
    j: int,
    ctr: Seq<u32>,
    k: int,
)
    requires
        part_holds(part, first, count, ctr_lookup(counter0, pt, rk, t0, t1, t2, t3, sbox)),
        0 <= first,
        0 <= j < count,
        4 * count <= part.len(),
        4 * (first + j) + 4 <= pt.len(),
        counter0.len() >= 4,
        ctr.len() == 4,
        ctr[0] == counter0[0],
        ctr[1] == counter0[1],
        ctr[2] == counter0[2],
        (ctr[3] - counter0[3] - (first + j)) % 0x1_0000_0000 == 0,
        0 <= k < 4,
    ensures
        part[4 * j + k] == pt[4 * (first + j) + k] ^ lookup_cipher(
            rk,
            ctr,
            t0,
            t1,
            t2,
            t3,
            sbox,
        )[k],
{
    lemma_ctr_lookup(counter0, pt, rk, t0, t1, t2, t3, sbox, first + j, ctr);
    lemma_summed_part(
        part,
        first,
        count,
        ctr_lookup(counter0, pt, rk, t0, t1, t2, t3, sbox),
        pt,
        lookup_cipher(rk, ctr, t0, t1, t2, t3, sbox),
        j,
        k,
    );
}

/// The part of the output of an ECB thread, word by word: word `4 * j + k` is word
/// `k` of the encryption, by lookup in the tables, of the input words
/// `4 * (first + j) ..`.
#[verifier::rlimit(60)]
pub proof fn ecb_part_by_words(
    first: int,
    count: int,
    pt: Seq<u32>,
    rk: Seq<u32>,
    t0: Seq<u32>,
    t1: Seq<u32>,
    t2: Seq<u32>,
    t3: Seq<u32>,
    sbox: Seq<u32>,
    part: Seq<u32>,
    j: int,
    block: Seq<u32>,
    k: int,
)
    requires
        part_holds(part, first, count, ecb_lookup(pt, rk, t0, t1, t2, t3, sbox)),
        0 <= first,
        0 <= j < count,
        4 * count <= part.len(),
        4 * (first + j) + 4 <= pt.len(),
        block.len() == 4,
        forall|m: int| 0 <= m < 4 ==> #[trigger] block[m] == pt[4 * (first + j) + m],
        0 <= k < 4,
    ensures
        part[4 * j + k] == lookup_cipher(rk, block, t0, t1, t2, t3, sbox)[k],
{
    assert(block =~= block_in(pt, first + j));
    lemma_part_word(part, first, count, ecb_lookup(pt, rk, t0, t1, t2, t3, sbox), j, k);
}

/// The threads of a launch are whole blocks of 256, and one block fewer would not
/// cover the blocks.
pub proof fn launch_has_no_spare_block(n: int, r: int)
    requires
        0 < n,
        r > 0,
    ensures
        launch_threads(n, r) % 256 == 0,
        launch_threads(n, r) > 0,
        (launch_threads(n, r) - 256) * r < n <= launch_threads(n, r) * r,
{
    launch_has_enough_threads(n, r);
    lemma_ceil_div(n, r);
    let c = ceil_div(n, r);
    let t = launch_threads(n, r);
    lemma_ceil_div(c, 256);
    assert((t - 256) * r < n) by (nonlinear_arith)
        requires
            t < c + 256,
            c * r < n + r,
            r > 0,
    ;
}

/// An empty run leaves the buffer, and a run goes on with any thread.
pub proof fn runs_go_on(
    order: Seq<int>,
    r: int,
    n: int,
    f: spec_fn(int) -> Seq<u32>,
    bufs: Seq<Seq<u32>>,
    t: int,
    after: Seq<u32>,
)
    requires
        is_run(order, r, n, f, bufs),
        thread_ran(t, r, n, f, bufs.last(), after),
    ensures
        is_run(Seq::empty(), r, n, f, seq![after]),
        is_run(order.push(t), r, n, f, bufs.push(after)),
{
    let (o, b) = (order.push(t), bufs.push(after));
    assert forall|k: int| 0 <= k < o.len() implies thread_ran(
        #[trigger] o[k],
        r,
        n,
        f,
        b[k],
        b[k + 1],
    ) by {
        if k < order.len() {
            assert(thread_ran(order[k], r, n, f, bufs[k], bufs[k + 1]));
        }
    }
}

} // verus!
