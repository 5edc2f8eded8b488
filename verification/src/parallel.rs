//! Counter mode fanned across the cores with rayon.
//!
//! Block `i` only needs `counter0 + i`, so a message splits into chunks, each of
//! which is a message of its own whose counter starts at its first block. One
//! chunk goes to each worker thread.

use crate::aesni::encrypt_ctr_pshufb;
use crate::counter::{counter_at_composes, counter_block_at};
use crate::division::{ceil_div, lemma_ceil_div};
use crate::model::{counter_at, ctr_block, is_ctr};
use crate::vaes::{encrypt_ctr_vaes256, encrypt_ctr_vaes512};
use rayon::iter::{IndexedParallelIterator, ParallelIterator};
use rayon::slice::{ParallelSlice, ParallelSliceMut};
use vstd::arithmetic::div_mod::lemma_fundamental_div_mod;
use vstd::prelude::*;

verus! {

/// The kernel that encrypts a chunk.
#[derive(Clone, Copy, PartialEq, Eq, Structural)]
pub enum Kernel {
    /// [`encrypt_ctr_pshufb`].
    Pshufb,
    /// [`encrypt_ctr_vaes256`].
    Vaes256,
    /// [`encrypt_ctr_vaes512`].
    Vaes512,
}

impl Kernel {
    /// The number of blocks in a register of the kernel.
    pub open spec fn lanes(self) -> int {
        match self {
            Kernel::Pshufb => 1,
            Kernel::Vaes256 => 2,
            Kernel::Vaes512 => 4,
        }
    }

    /// The number of blocks in a register of the kernel.
    fn lane_count(self) -> (l: usize)
        ensures
            l == self.lanes(),
    {
        match self {
            Kernel::Pshufb => 1,
            Kernel::Vaes256 => 2,
            Kernel::Vaes512 => 4,
        }
    }
}

// ---------------------------------------------------------------------------
// The split.
// ---------------------------------------------------------------------------

/// The chunk length for `n` blocks on `threads` threads: one chunk per thread,
/// rounded up to a whole number of groups of `group` blocks.
pub open spec fn chunk_length(n: int, threads: int, group: int) -> int {
    ceil_div(ceil_div(n, if threads > 1 { threads } else { 1 }), group) * group
}

/// Chunk `c` of a message, in chunks of `chunk` blocks.
pub open spec fn chunk_of(s: Seq<[u32; 4]>, c: int, chunk: int) -> Seq<[u32; 4]> {
    s.subrange(
        c * chunk,
        if c * chunk + chunk <= s.len() {
            c * chunk + chunk
        } else {
            s.len() as int
        },
    )
}

/// The chunk length for `n` blocks on `threads` threads.
///
/// Every chunk but the last is a whole number of groups, and there are no more
/// chunks than threads.
pub fn chunk_for_threads(n: usize, threads: usize, group: usize) -> (chunk: usize)
    requires
        group > 0,
        chunk_length(n as int, threads as int, group as int) <= usize::MAX,
    ensures
        chunk == chunk_length(n as int, threads as int, group as int),
        chunk % group == 0,
        n <= chunk * (if threads > 1 { threads as int } else { 1 }),
        n > 0 ==> chunk > 0,
{
    let t: usize = if threads > 1 {
        threads
    } else {
        1
    };
    proof {
        lemma_ceil_div(n as int, t as int);
        lemma_ceil_div(ceil_div(n as int, t as int), group as int);
    }
    let whole: usize = n / t;
    let share: usize = if n % t == 0 {
        whole
    } else {
        whole + 1
    };
    let rest: usize = share % group;
    let chunk: usize = if rest == 0 {
        share
    } else {
        share + (group - rest)
    };
    assert(n <= chunk * t) by (nonlinear_arith)
        requires
            n <= share * t,
            share <= chunk,
    ;
    chunk
}

/// The chunk length is the least multiple of `group` of which as many as there are
/// threads cover the `n` blocks; no threads count as one.
#[verifier::rlimit(40)]
pub proof fn chunk_length_is_least(n: int, threads: int, t: int, group: int)
    requires
        0 <= n,
        0 <= threads,
        t == (if threads > 0 {
            threads
        } else {
            1
        }),
        group > 0,
    ensures
        chunk_length(n, threads, group) % group == 0,
        n <= chunk_length(n, threads, group) * t,
        n > 0 ==> (chunk_length(n, threads, group) - group) * t < n,
        n == 0 ==> chunk_length(n, threads, group) == 0,
{
    let share = ceil_div(n, t);
    let chunk = chunk_length(n, threads, group);
    lemma_ceil_div(n, t);
    assert(share >= 0) by (nonlinear_arith)
        requires
            0 <= n <= share * t,
            t > 0,
    ;
    lemma_ceil_div(share, group);
    assert(n <= chunk * t) by (nonlinear_arith)
        requires
            n <= share * t,
            share <= chunk,
            t > 0,
    ;
    assert(n > 0 ==> (chunk - group) * t < n) by (nonlinear_arith)
        requires
            chunk < share + group,
            share * t < n + t,
            t > 0,
    ;
}

/// Chunk `c` starts at block `c * chunk` of the message, and has `chunk` blocks or as
/// many as are left.
#[verifier::rlimit(40)]
pub proof fn chunks_lie_in_order(s: Seq<[u32; 4]>, c: int, chunk: int, k: int)
    requires
        0 <= c,
        0 < chunk,
        0 <= c * chunk <= s.len(),
        0 <= k < chunk,
    ensures
        chunk_of(s, c, chunk).len() <= chunk,
        k < chunk_of(s, c, chunk).len() <==> c * chunk + k < s.len(),
        c * chunk + k < s.len() ==> chunk_of(s, c, chunk)[k] == s[c * chunk + k],
{
}

// ---------------------------------------------------------------------------
// The worker threads.
// ---------------------------------------------------------------------------

/// The number of worker threads: `rayon::current_num_threads`.
///
/// Trusted: the number is at least one. It depends on the machine, on the
/// environment and on the thread pool that the caller runs in, so nothing else
/// is claimed of it.
#[verifier::external_body]
fn worker_threads() -> (threads: usize)
    ensures
        threads >= 1,
{
    rayon::current_num_threads()
}

/// One chunk per worker thread, rounded up to a whole number of `group`-block
/// groups, so that only the last chunk can carry a part of a group.
///
/// The number of threads is the machine's; [`chunk_for_threads`] says what the
/// result is for each number.
pub fn par_chunk(n: usize, group: usize) -> (chunk: usize)
    requires
        group > 0,
        n + group <= usize::MAX + 1,
    ensures
        exists|threads: int|
            threads >= 1 && chunk == #[trigger] chunk_length(n as int, threads, group as int),
        chunk % group == 0,
        chunk < n + group,
        n == 0 ==> chunk == 0,
        n > 0 ==> chunk > 0,
{
    let threads: usize = worker_threads();
    proof {
        lemma_ceil_div(n as int, threads as int);
        lemma_ceil_div(ceil_div(n as int, threads as int), group as int);
    }
    chunk_for_threads(n, threads, group)
}

/// Encrypt chunk `c` of a message in chunks of `chunk` blocks: a message of its
/// own, whose counter starts at the first block of the chunk.
pub fn encrypt_chunk<const W: usize>(
    kernel: Kernel,
    rk: &[u32],
    counter0: [u32; 4],
    c: usize,
    chunk: usize,
    blocks: &[[u32; 4]],
    out: &mut [[u32; 4]],
)
    requires
        W > 0,
        rk.len() >= 44,
        old(out).len() == blocks.len(),
        c * chunk <= usize::MAX,
    ensures
        final(out).len() == blocks.len(),
        is_ctr(
            rk@,
            counter_at(counter0@, c * chunk),
            blocks@,
            final(out)@,
            blocks.len() as int,
        ),
{
    let c0: [u32; 4] = counter_block_at(counter0, c * chunk);
    match kernel {
        Kernel::Pshufb => encrypt_ctr_pshufb::<W>(rk, c0, blocks, out),
        Kernel::Vaes256 => encrypt_ctr_vaes256::<W>(rk, c0, blocks, out),
        Kernel::Vaes512 => encrypt_ctr_vaes512::<W>(rk, c0, blocks, out),
    }
}

/// Hand the chunks of a message to the worker threads: `par_chunks_mut` on `out`
/// zipped with `par_chunks` on `blocks`, numbered by `enumerate` and consumed by
/// `for_each`, of rayon.
///
/// Trusted: the chunks of `out` and of `blocks` have `chunk` blocks each, the
/// last one as many as are left, they do not overlap, chunk `c` of `out` comes
/// with chunk `c` of `blocks` and with the number `c`, and [`encrypt_chunk`] is
/// called once on each; so what it ensures holds of each chunk afterwards.
/// Rayon panics on a chunk length of zero.
#[verifier::external_body]
fn for_each_chunk<const W: usize>(
    kernel: Kernel,
    rk: &[u32],
    counter0: [u32; 4],
    chunk: usize,
    blocks: &[[u32; 4]],
    out: &mut [[u32; 4]],
)
    requires
        chunk > 0,
        W > 0,
        rk.len() >= 44,
        old(out).len() == blocks.len(),
    ensures
        final(out)@.len() == old(out)@.len(),
        forall|c: int|
            0 <= c && c * chunk < blocks.len() ==> is_ctr(
                rk@,
                counter_at(counter0@, c * chunk),
                chunk_of(blocks@, c, chunk as int),
                #[trigger] chunk_of(final(out)@, c, chunk as int),
                chunk_of(blocks@, c, chunk as int).len() as int,
            ),
{
    out.par_chunks_mut(chunk).zip(blocks.par_chunks(chunk)).enumerate().for_each(
        |(c, (out_c, blk_c))| encrypt_chunk::<W>(kernel, rk, counter0, c, chunk, blk_c, out_c),
    );
}

/// A message encrypted chunk by chunk, each chunk with the counter of its first
/// block, is the message encrypted as a whole.
pub proof fn chunks_make_the_message(
    rk: Seq<u32>,
    counter0: Seq<u32>,
    blocks: Seq<[u32; 4]>,
    out: Seq<[u32; 4]>,
    chunk: int,
)
    requires
        chunk > 0,
        counter0.len() == 4,
        out.len() == blocks.len(),
        forall|c: int|
            0 <= c && c * chunk < blocks.len() ==> is_ctr(
                rk,
                counter_at(counter0, c * chunk),
                chunk_of(blocks, c, chunk),
                #[trigger] chunk_of(out, c, chunk),
                chunk_of(blocks, c, chunk).len() as int,
            ),
    ensures
        is_ctr(rk, counter0, blocks, out, blocks.len() as int),
{
    assert forall|i: int| 0 <= i < blocks.len() implies #[trigger] out[i]@ == ctr_block(
        rk,
        counter0,
        i,
        blocks[i]@,
    ) by {
        let c = i / chunk;
        let k = i % chunk;
        lemma_fundamental_div_mod(i, chunk);
        assert(c * chunk == chunk * c) by (nonlinear_arith);
        assert(c >= 0) by (nonlinear_arith)
            requires
                i == chunk * c + k,
                0 <= i,
                k < chunk,
                chunk > 0,
        ;
        let part = chunk_of(out, c, chunk);
        assert(part[k] == out[i]);
        assert(chunk_of(blocks, c, chunk)[k] == blocks[i]);
        counter_at_composes(counter0, c * chunk, k);
    }
}

/// Encrypt `blocks` on all cores with the given kernel, `W` registers of which
/// are in flight at a time.
///
/// Where rounding up to a whole number of groups of `W` registers could leave
/// the range of `usize`, the message is one chunk.
pub(crate) fn encrypt_ctr_parallel<const W: usize>(
    kernel: Kernel,
    rk: &[u32],
    counter0: [u32; 4],
    blocks: &[[u32; 4]],
    out: &mut [[u32; 4]],
)
    requires
        blocks.len() > 0 ==> W > 0 && rk.len() >= 44,
        old(out).len() == blocks.len(),
    ensures
        final(out).len() == blocks.len(),
        is_ctr(rk@, counter0@, blocks@, final(out)@, blocks.len() as int),
{
    let n: usize = blocks.len();
    if n == 0 {
        return ;
    }
    let lanes: usize = kernel.lane_count();
    if W > (usize::MAX - n) / lanes {
        assert(counter_at(counter0@, 0) =~= counter0@);
        encrypt_chunk::<W>(kernel, rk, counter0, 0, n, blocks, out);
        return ;
    }
    assert(0 < W * lanes <= usize::MAX - n) by (nonlinear_arith)
        requires
            W > 0,
            lanes > 0,
            W <= (usize::MAX - n) / (lanes as int),
    ;
    let chunk: usize = par_chunk(n, W * lanes);
    for_each_chunk::<W>(kernel, rk, counter0, chunk, blocks, out);
    proof {
        chunks_make_the_message(rk@, counter0@, blocks@, out@, chunk as int);
    }
}

} // verus!
