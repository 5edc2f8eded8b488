//! The part of the GPU backend that computes: what one GPU thread does to the
//! output buffer, and how many threads a launch has.
//!
//! The device code hands in its thread index; the buffers are plain words, four
//! per block. [`crate::gpu_laws`] says what a whole launch leaves.

use crate::block::encrypt_block;
use crate::counter::{encrypt_ctr_block, lemma_counter_wraps, lemma_truncate};
use crate::division::{ceil_div, lemma_ceil_div};
use crate::lookup::lookup_cipher_is_aes;
use crate::model::{
    are_aes_tables, counter_at, ctr_block, encrypt_words, lookup_cipher, xor_words,
};
use vstd::prelude::*;

verus! {

/// Threads per block of a launch.
pub const THREADS_PER_BLOCK: u32 = 256;

// ---------------------------------------------------------------------------
// What a thread does.
// ---------------------------------------------------------------------------

/// Block `i` of a buffer of words.
pub open spec fn block_in(words: Seq<u32>, i: int) -> Seq<u32> {
    words.subrange(4 * i, 4 * i + 4)
}

/// Thread `t` covers block `i` of `n`, at `r` blocks per thread.
pub open spec fn covers(t: int, r: int, n: int, i: int) -> bool {
    t * r <= i < t * r + r && i < n
}

/// The first of `n` blocks that thread `t` covers, at `r` blocks per thread; `n`
/// for a thread past the blocks.
pub open spec fn first_block(t: int, r: int, n: int) -> int {
    if t * r < n {
        t * r
    } else {
        n
    }
}

/// The end of the blocks that thread `t` covers.
pub open spec fn end_block(t: int, r: int, n: int) -> int {
    if t * r + r < n {
        t * r + r
    } else {
        n
    }
}

/// The words of the tables that a lookup reads are there.
pub open spec fn have_tables(
    rk: Seq<u32>,
    t0: Seq<u32>,
    t1: Seq<u32>,
    t2: Seq<u32>,
    t3: Seq<u32>,
    sbox: Seq<u32>,
) -> bool {
    &&& rk.len() >= 44
    &&& t0.len() >= 256
    &&& t1.len() >= 256
    &&& t2.len() >= 256
    &&& t3.len() >= 256
    &&& sbox.len() >= 256
}

/// The blocks of `pt` in counter mode by table lookup, for any tables.
pub open spec fn ctr_lookup(
    counter0: Seq<u32>,
    pt: Seq<u32>,
    rk: Seq<u32>,
    t0: Seq<u32>,
    t1: Seq<u32>,
    t2: Seq<u32>,
    t3: Seq<u32>,
    sbox: Seq<u32>,
) -> spec_fn(int) -> Seq<u32> {
    |i: int|
        xor_words(
            block_in(pt, i),
            lookup_cipher(rk, counter_at(counter0.subrange(0, 4), i), t0, t1, t2, t3, sbox),
        )
}

/// The blocks of `pt` each encrypted by table lookup (ECB), for any tables.
pub open spec fn ecb_lookup(
    pt: Seq<u32>,
    rk: Seq<u32>,
    t0: Seq<u32>,
    t1: Seq<u32>,
    t2: Seq<u32>,
    t3: Seq<u32>,
    sbox: Seq<u32>,
) -> spec_fn(int) -> Seq<u32> {
    |i: int| lookup_cipher(rk, block_in(pt, i), t0, t1, t2, t3, sbox)
}

/// What thread `t` of a launch over `n` blocks, at `r` blocks per thread, makes of
/// the buffer `before`: block `i` of `after` is `f(i)` where the thread covers it,
/// and every other word is kept.
pub open spec fn thread_ran(
    t: int,
    r: int,
    n: int,
    f: spec_fn(int) -> Seq<u32>,
    before: Seq<u32>,
    after: Seq<u32>,
) -> bool {
    &&& after.len() == before.len()
    &&& forall|i: int| covers(t, r, n, i) ==> #[trigger] block_in(after, i) == f(i)
    &&& forall|w: int|
        0 <= w < before.len() && !covers(t, r, n, w / 4) ==> #[trigger] after[w] == before[w]
}

/// The blocks `first .. first + k` of a message are the first `k` blocks of
/// `part`.
pub open spec fn part_holds(
    part: Seq<u32>,
    first: int,
    k: int,
    f: spec_fn(int) -> Seq<u32>,
) -> bool {
    forall|j: int| 0 <= j < k ==> #[trigger] block_in(part, j) == f(first + j)
}

/// Store block `i` of a buffer of words.
fn store_block(ct: &mut [u32], i: usize, block: [u32; 4])
    requires
        4 * i + 4 <= old(ct).len(),
    ensures
        final(ct).len() == old(ct).len(),
        block_in(final(ct)@, i as int) == block@,
        forall|w: int|
            0 <= w < old(ct).len() && !(4 * i <= w < 4 * i + 4) ==> #[trigger] final(ct)@[w]
                == old(ct)@[w],
{
    let base: usize = i * 4;
    ct[base] = block[0];
    ct[base + 1] = block[1];
    ct[base + 2] = block[2];
    ct[base + 3] = block[3];
    assert(block_in(ct@, i as int) =~= block@);
}

/// Load block `i` of a buffer of words.
fn load_block(words: &[u32], i: usize) -> (block: [u32; 4])
    requires
        4 * i + 4 <= words.len(),
    ensures
        block@ == block_in(words@, i as int),
{
    let base: usize = i * 4;
    let block: [u32; 4] = [words[base], words[base + 1], words[base + 2], words[base + 3]];
    assert(block@ =~= block_in(words@, i as int));
    block
}

/// A store to block `i` keeps the other blocks.
proof fn lemma_other_blocks(before: Seq<u32>, after: Seq<u32>, i: int)
    requires
        after.len() == before.len(),
        forall|w: int|
            0 <= w < before.len() && !(4 * i <= w < 4 * i + 4) ==> #[trigger] after[w]
                == before[w],
    ensures
        forall|j: int|
            0 <= j < i && i < before.len() / 4 ==> #[trigger] block_in(after, j) == block_in(
                before,
                j,
            ),
{
    assert forall|j: int| 0 <= j < i && i < before.len() / 4 implies #[trigger] block_in(after, j)
        == block_in(before, j) by {
        assert(block_in(after, j) =~= block_in(before, j));
    }
}

/// A buffer whose words `4 * start .. 4 * end` were replaced by `part`.
spec fn with_part(before: Seq<u32>, start: int, end: int, part: Seq<u32>) -> Seq<u32> {
    before.subrange(0, 4 * start) + (part + before.subrange(4 * end, before.len() as int))
}

/// A buffer with a part replaced holds the blocks of the part, and the rest of
/// the buffer is kept.
proof fn lemma_part_in_place(
    before: Seq<u32>,
    start: int,
    end: int,
    part: Seq<u32>,
    f: spec_fn(int) -> Seq<u32>,
)
    requires
        0 <= start <= end,
        4 * end <= before.len(),
        part.len() == 4 * (end - start),
        part_holds(part, start, end - start, f),
    ensures
        with_part(before, start, end, part).len() == before.len(),
        forall|i: int|
            start <= i < end ==> #[trigger] block_in(with_part(before, start, end, part), i)
                == f(i),
        forall|w: int|
            0 <= w < before.len() && !(start <= w / 4 < end) ==> #[trigger] with_part(
                before,
                start,
                end,
                part,
            )[w] == before[w],
{
    let after = with_part(before, start, end, part);
    assert forall|i: int| start <= i < end implies #[trigger] block_in(after, i) == f(i) by {
        assert(block_in(part, i - start) == f(start + (i - start)));
        assert(block_in(after, i) =~= block_in(part, i - start));
    }
}

/// The blocks that a thread covers, as the first and the end.
///
/// - `thread_index`: the index of the thread in the launch.
/// - `n_blocks`: number of real blocks; indices past it are skipped.
/// - `blocks_per_thread`: the number of consecutive blocks of a thread.
pub fn thread_blocks(
    thread_index: u32,
    n_blocks: usize,
    blocks_per_thread: usize,
) -> (range: (usize, usize))
    ensures
        range.0 == first_block(
            thread_index as int,
            blocks_per_thread as int,
            n_blocks as int,
        ),
        range.1 == end_block(thread_index as int, blocks_per_thread as int, n_blocks as int),
        range.0 <= range.1 <= n_blocks,
        forall|i: int|
            #[trigger] covers(
                thread_index as int,
                blocks_per_thread as int,
                n_blocks as int,
                i,
            ) <==> range.0 <= i < range.1,
{
    match (thread_index as usize).checked_mul(blocks_per_thread) {
        // Past every block that there can be.
        None => (n_blocks, n_blocks),
        Some(start) => {
            if start >= n_blocks {
                (n_blocks, n_blocks)
            } else if n_blocks - start < blocks_per_thread {
                (start, n_blocks)
            } else {
                (start, start + blocks_per_thread)
            }
        },
    }
}

/// Encrypt the blocks of `pt` from block `first` on in counter mode, as many as
/// `part` has room for: block `first + j` goes to block `j` of `part`.
///
/// The other parameters are those of [`aes128_ctr`].
pub fn aes128_ctr_part(
    first: usize,
    counter0: &[u32],
    pt: &[u32],
    rk: &[u32],
    t0: &[u32],
    t1: &[u32],
    t2: &[u32],
    t3: &[u32],
    sbox: &[u32],
    part: &mut [u32],
)
    requires
        counter0.len() >= 4,
        old(part).len() % 4 == 0,
        old(part).len() > 0 ==> 4 * first + old(part).len() <= pt.len() && have_tables(
            rk@,
            t0@,
            t1@,
            t2@,
            t3@,
            sbox@,
        ),
    ensures
        final(part).len() == old(part).len(),
        part_holds(
            final(part)@,
            first as int,
            final(part).len() as int / 4,
            ctr_lookup(counter0@, pt@, rk@, t0@, t1@, t2@, t3@, sbox@),
        ),
{
    let c0: [u32; 4] = load_block(counter0, 0);
    assert(c0@ =~= counter0@.subrange(0, 4));
    let count: usize = part.len() / 4;
    let mut j: usize = 0;
    while j < count
        invariant
            j <= count,
            c0@ == counter0@.subrange(0, 4),
            part.len() == old(part).len(),
            part.len() == 4 * count,
            count > 0 ==> 4 * first + part.len() <= pt.len() && have_tables(rk@, t0@, t1@, t2@, t3@, sbox@),
            part_holds(
                part@,
                first as int,
                j as int,
                ctr_lookup(counter0@, pt@, rk@, t0@, t1@, t2@, t3@, sbox@),
            ),
        decreases count - j,
    {
        let i: usize = first + j;
        proof {
            lemma_truncate(i);
            lemma_counter_wraps(c0@, 0, i as int);
        }
        let out: [u32; 4] = encrypt_ctr_block(
            c0,
            i as u32,
            load_block(pt, i),
            rk,
            t0,
            t1,
            t2,
            t3,
            sbox,
        );
        let ghost before = part@;
        store_block(part, j, out);
        proof {
            lemma_other_blocks(before, part@, j as int);
        }
        j = j + 1;
    }
}

/// Encrypt the blocks of `pt` from block `first` on independently (ECB), as many
/// as `part` has room for: block `first + j` goes to block `j` of `part`.
///
/// The other parameters are those of [`aes128_encrypt_blocks`].
pub fn aes128_encrypt_part(
    first: usize,
    pt: &[u32],
    rk: &[u32],
    t0: &[u32],
    t1: &[u32],
    t2: &[u32],
    t3: &[u32],
    sbox: &[u32],
    part: &mut [u32],
)
    requires
        old(part).len() % 4 == 0,
        old(part).len() > 0 ==> 4 * first + old(part).len() <= pt.len() && have_tables(
            rk@,
            t0@,
            t1@,
            t2@,
            t3@,
            sbox@,
        ),
    ensures
        final(part).len() == old(part).len(),
        part_holds(
            final(part)@,
            first as int,
            final(part).len() as int / 4,
            ecb_lookup(pt@, rk@, t0@, t1@, t2@, t3@, sbox@),
        ),
{
    let count: usize = part.len() / 4;
    let mut j: usize = 0;
    while j < count
        invariant
            j <= count,
            part.len() == old(part).len(),
            part.len() == 4 * count,
            count > 0 ==> 4 * first + part.len() <= pt.len() && have_tables(rk@, t0@, t1@, t2@, t3@, sbox@),
            part_holds(
                part@,
                first as int,
                j as int,
                ecb_lookup(pt@, rk@, t0@, t1@, t2@, t3@, sbox@),
            ),
        decreases count - j,
    {
        let out: [u32; 4] = encrypt_block(
            load_block(pt, first + j),
            rk,
            t0,
            t1,
            t2,
            t3,
            sbox,
        );
        let ghost before = part@;
        store_block(part, j, out);
        proof {
            lemma_other_blocks(before, part@, j as int);
        }
        j = j + 1;
    }
}

/// What a thread of the batch AES-128-CTR kernel does: thread `t` encrypts the
/// `R` consecutive blocks `t * R .. t * R + R`, where `R = blocks_per_thread`.
///
/// - `thread_index`: the index of the thread in the launch.
/// - `counter0`: the 4-word initial counter block; block `i` uses `counter0`
///   with its low 32-bit word increased by `i`.
/// - `pt`/`ct`: `n_blocks` consecutive blocks of 4 words each.
/// - `rk`: 44 expanded round-key words.
/// - `t0..t3`: the four T-tables (256 words each).
/// - `sbox`: the S-box (256 words) for the last round.
/// - `n_blocks`: number of real blocks; indices past it are skipped.
///
/// A thread that covers no block reads none of the text, the key and the tables.
pub fn aes128_ctr(
    thread_index: u32,
    counter0: &[u32],
    pt: &[u32],
    rk: &[u32],
    t0: &[u32],
    t1: &[u32],
    t2: &[u32],
    t3: &[u32],
    sbox: &[u32],
    ct: &mut [u32],
    n_blocks: usize,
    blocks_per_thread: usize,
)
    requires
        counter0.len() >= 4,
        blocks_per_thread > 0 && thread_index * blocks_per_thread < n_blocks ==> ({
            let end = end_block(thread_index as int, blocks_per_thread as int, n_blocks as int);
            &&& pt.len() >= 4 * end
            &&& old(ct).len() >= 4 * end
            &&& have_tables(rk@, t0@, t1@, t2@, t3@, sbox@)
        }),
    ensures
        thread_ran(
            thread_index as int,
            blocks_per_thread as int,
            n_blocks as int,
            ctr_lookup(counter0@, pt@, rk@, t0@, t1@, t2@, t3@, sbox@),
            old(ct)@,
            final(ct)@,
        ),
        are_aes_tables(t0@, t1@, t2@, t3@, sbox@) ==> forall|i: int|
            covers(thread_index as int, blocks_per_thread as int, n_blocks as int, i)
                ==> #[trigger] block_in(final(ct)@, i) == ctr_block(
                rk@,
                counter0@.subrange(0, 4),
                i,
                block_in(pt@, i),
            ),
{
    let (start, end): (usize, usize) = thread_blocks(thread_index, n_blocks, blocks_per_thread);
    if start == end {
        return ;
    }
    let ghost before = ct@;
    let (_head, rest) = ct.split_at_mut(4 * start);
    let (part, _tail) = rest.split_at_mut(4 * (end - start));
    aes128_ctr_part(start, counter0, pt, rk, t0, t1, t2, t3, sbox, part);
    let ghost written = part@;
    proof {
        assert(ct@ =~= with_part(before, start as int, end as int, written));
        lemma_part_in_place(
            before,
            start as int,
            end as int,
            written,
            ctr_lookup(counter0@, pt@, rk@, t0@, t1@, t2@, t3@, sbox@),
        );
        if are_aes_tables(t0@, t1@, t2@, t3@, sbox@) {
            assert forall|i: int|
                covers(thread_index as int, blocks_per_thread as int, n_blocks as int, i)
                implies #[trigger] block_in(ct@, i) == ctr_block(
                rk@,
                counter0@.subrange(0, 4),
                i,
                block_in(pt@, i),
            ) by {
                lookup_cipher_is_aes(
                    rk@,
                    counter_at(counter0@.subrange(0, 4), i),
                    t0@,
                    t1@,
                    t2@,
                    t3@,
                    sbox@,
                );
            }
        }
    }
}

/// What a thread of the batch ECB kernel does: thread `t` encrypts block `t`, if
/// there is one. The buffers and tables are those of [`aes128_ctr`].
pub fn aes128_encrypt_blocks(
    thread_index: u32,
    pt: &[u32],
    rk: &[u32],
    t0: &[u32],
    t1: &[u32],
    t2: &[u32],
    t3: &[u32],
    sbox: &[u32],
    ct: &mut [u32],
    n_blocks: usize,
)
    requires
        thread_index < n_blocks ==> pt.len() >= 4 * thread_index + 4 && old(ct).len() >= 4
            * thread_index + 4 && have_tables(rk@, t0@, t1@, t2@, t3@, sbox@),
    ensures
        thread_ran(
            thread_index as int,
            1,
            n_blocks as int,
            ecb_lookup(pt@, rk@, t0@, t1@, t2@, t3@, sbox@),
            old(ct)@,
            final(ct)@,
        ),
        thread_index < n_blocks && are_aes_tables(t0@, t1@, t2@, t3@, sbox@) ==> block_in(
            final(ct)@,
            thread_index as int,
        ) == encrypt_words(rk@, block_in(pt@, thread_index as int)),
{
    let i: usize = thread_index as usize;
    if i >= n_blocks {
        return ;
    }
    let ghost before = ct@;
    let (_head, rest) = ct.split_at_mut(4 * i);
    let (part, _tail) = rest.split_at_mut(4);
    aes128_encrypt_part(i, pt, rk, t0, t1, t2, t3, sbox, part);
    let ghost written = part@;
    proof {
        assert(ct@ =~= with_part(before, i as int, i + 1, written));
        lemma_part_in_place(
            before,
            i as int,
            i + 1,
            written,
            ecb_lookup(pt@, rk@, t0@, t1@, t2@, t3@, sbox@),
        );
        if are_aes_tables(t0@, t1@, t2@, t3@, sbox@) {
            lookup_cipher_is_aes(rk@, block_in(pt@, i as int), t0@, t1@, t2@, t3@, sbox@);
        }
    }
}

// ---------------------------------------------------------------------------
// The launch.
// ---------------------------------------------------------------------------

/// The number of threads of the launch for `n` blocks at `r` blocks per thread:
/// enough to cover the blocks, rounded up to whole blocks of threads.
pub open spec fn launch_threads(n: int, r: int) -> int {
    ceil_div(ceil_div(n, r), 256) * 256
}

/// The shape of a kernel launch.
#[derive(Clone, Copy, PartialEq, Eq, Structural, Debug)]
pub struct Launch {
    /// Blocks of threads.
    pub grid: u32,
    /// Threads per block.
    pub block: u32,
}

/// The launch for `n` blocks at `blocks_per_thread` blocks per thread: enough
/// threads to cover the blocks, the grid rounded up to whole blocks of threads.
/// There is nothing to launch for no blocks.
///
/// The device numbers its threads with 32 bits, so the threads that cover the
/// blocks must be fewer than 2^32.
pub fn launch_for(n: usize, blocks_per_thread: usize) -> (launch: Option<Launch>)
    requires
        blocks_per_thread > 0,
        ceil_div(n as int, blocks_per_thread as int) < 0x1_0000_0000,
    ensures
        n == 0 ==> launch is None,
        n > 0 ==> launch == Some(
            Launch {
                grid: ceil_div(ceil_div(n as int, blocks_per_thread as int), 256) as u32,
                block: 256,
            },
        ),
        launch matches Some(l) ==> l.grid * l.block == launch_threads(
            n as int,
            blocks_per_thread as int,
        ),
{
    if n == 0 {
        return None;
    }
    proof {
        lemma_ceil_div(n as int, blocks_per_thread as int);
    }
    let whole: usize = n / blocks_per_thread;
    let threads: usize = if n % blocks_per_thread == 0 {
        whole
    } else {
        whole + 1
    };
    let threads: u32 = threads as u32;
    proof {
        lemma_ceil_div(threads as int, 256);
    }
    let grid: u32 = threads / THREADS_PER_BLOCK + (if threads % THREADS_PER_BLOCK == 0 {
        0
    } else {
        1
    });
    Some(Launch { grid, block: THREADS_PER_BLOCK })
}

} // verus!
