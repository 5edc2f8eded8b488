//! AES-128 in counter mode on wide registers: two blocks per 256-bit register,
//! four per 512-bit register.
//!
//! The kernel is that of [`crate::aesni::encrypt_ctr_pshufb`] with every
//! operation on all lanes of a register at once. It keeps `W` registers of `L`
//! lanes in flight, so it takes `W * L` blocks at a time. Round keys, counters
//! and the byte convention are those of [`crate::aesni`].
//!
//! As there, the registers are those of [`crate::register`], computed in software:
//! no VAES or AVX instruction is used, and no CPU feature is tested.

use crate::aesni::{
    are_round_keys, encrypt_tail, keyed_rounds, lemma_ten_rounds, round_keys, ten_rounds,
};
use crate::counter::{lemma_counter_wraps, lemma_truncate};
use crate::model::{add_round_key, bytes_of, counter_at, ctr_block, is_ctr};
use crate::parallel::{encrypt_ctr_parallel, Kernel};
use crate::register::{
    add_words, byte_swap_of_native, byte_swap_of_state, lemma_native_counter_step, lemma_native_xor,
    native_bytes, native_words, V128, Wide, BYTE_SWAP,
};
use vstd::prelude::*;

verus! {

/// Every lane of every register of `wide` holds the round key of `keys`.
pub open spec fn are_broadcast_keys<const L: usize>(
    wide: Seq<Wide<L>>,
    keys: Seq<V128>,
) -> bool {
    forall|r: int, l: int|
        0 <= r < 11 && 0 <= l < L ==> #[trigger] wide[r].lanes@[l] == keys[r]
}

/// The position of lane `l` of register `j`, in registers of `lanes` lanes.
pub open spec fn lane_index(j: int, lanes: int, l: int) -> int {
    j * lanes + l
}

/// The lanes of register `j` of `w` lie within the lanes of `w` registers.
proof fn lemma_register_start(j: int, lanes: int, w: int)
    by (nonlinear_arith)
    requires
        0 <= j < w,
        0 <= lanes,
    ensures
        0 <= j * lanes,
        j * lanes + lanes == (j + 1) * lanes,
        (j + 1) * lanes <= w * lanes,
{
}

/// Broadcast each round key into every lane.
fn broadcast_keys<const L: usize>(keys: &[V128; 11]) -> (wide: [Wide<L>; 11])
    ensures
        are_broadcast_keys(wide@, keys@),
{
    let mut wide: [Wide<L>; 11] = [Wide::broadcast(V128::zero()); 11];
    let mut r: usize = 0;
    while r < 11
        invariant
            r <= 11,
            forall|m: int, l: int|
                0 <= m < r && 0 <= l < L ==> #[trigger] wide@[m].lanes@[l] == keys@[m],
        decreases 11 - r,
    {
        wide[r] = Wide::broadcast(keys[r]);
        r = r + 1;
    }
    wide
}

/// The register whose lane `l` adds `start + l` to the last word of a counter in
/// native order.
fn counter_offsets<const L: usize>(start: usize) -> (w: Wide<L>)
    requires
        start + L <= usize::MAX,
    ensures
        forall|l: int|
            0 <= l < L ==> #[trigger] w.lanes@[l]@ == native_bytes(
                seq![0u32, 0u32, 0u32, ((start + l) % 0x1_0000_0000) as u32],
            ),
{
    let mut lanes: [V128; L] = [V128::zero(); L];
    let mut l: usize = 0;
    while l < L
        invariant
            l <= L,
            start + L <= usize::MAX,
            forall|m: int|
                0 <= m < l ==> #[trigger] lanes@[m]@ == native_bytes(
                    seq![0u32, 0u32, 0u32, ((start + m) % 0x1_0000_0000) as u32],
                ),
        decreases L - l,
    {
        lanes[l] = counter_offset(start + l);
        l = l + 1;
    }
    Wide { lanes }
}

/// The register that adds `k` to the last word of a counter in native order.
fn counter_offset(k: usize) -> (v: V128)
    ensures
        v@ == native_bytes(seq![0u32, 0u32, 0u32, (k as int % 0x1_0000_0000) as u32]),
{
    proof {
        lemma_truncate(k);
    }
    let words: [u32; 4] = [0, 0, 0, k as u32];
    assert(words@ =~= seq![0u32, 0u32, 0u32, (k as int % 0x1_0000_0000) as u32]);
    V128::from_words(words)
}

/// Adding `k` modulo 2^32 to a counter in native order advances it by `k`.
proof fn lemma_lane_step(counter0: Seq<u32>, a: int, k: int)
    requires
        counter0.len() == 4,
    ensures
        native_bytes(
            add_words(
                native_words(native_bytes(counter_at(counter0, a))),
                native_words(
                    native_bytes(seq![0u32, 0u32, 0u32, (k % 0x1_0000_0000) as u32]),
                ),
            ),
        ) == native_bytes(counter_at(counter0, a + k)),
{
    lemma_native_counter_step(counter0, a, (k % 0x1_0000_0000) as u32);
    lemma_counter_wraps(counter0, a, k);
}

/// Run the ten rounds on `W` registers in lockstep: one round on every register
/// before the next round starts.
fn run_rounds<const L: usize, const W: usize>(
    keys: &[V128; 11],
    wide_keys: &[Wide<L>; 11],
    states: [Wide<L>; W],
) -> (s: [Wide<L>; W])
    requires
        are_broadcast_keys(wide_keys@, keys@),
    ensures
        forall|j: int, l: int|
            0 <= j < W && 0 <= l < L ==> #[trigger] s@[j].lanes@[l]@ == ten_rounds(
                keys@,
                states@[j].lanes@[l]@,
            ),
{
    let mut s: [Wide<L>; W] = states;
    let mut r: usize = 1;
    while r < 10
        invariant
            are_broadcast_keys(wide_keys@, keys@),
            1 <= r <= 10,
            forall|j: int, l: int|
                0 <= j < W && 0 <= l < L ==> #[trigger] s@[j].lanes@[l]@ == keyed_rounds(
                    keys@,
                    states@[j].lanes@[l]@,
                    (r - 1) as nat,
                ),
        decreases 10 - r,
    {
        let mut j: usize = 0;
        while j < W
            invariant
                are_broadcast_keys(wide_keys@, keys@),
                1 <= r < 10,
                j <= W,
                forall|m: int, l: int|
                    0 <= m < j && 0 <= l < L ==> #[trigger] s@[m].lanes@[l]@ == keyed_rounds(
                        keys@,
                        states@[m].lanes@[l]@,
                        r as nat,
                    ),
                forall|m: int, l: int|
                    j <= m < W && 0 <= l < L ==> #[trigger] s@[m].lanes@[l]@ == keyed_rounds(
                        keys@,
                        states@[m].lanes@[l]@,
                        (r - 1) as nat,
                    ),
            decreases W - j,
        {
            s[j] = s[j].aesenc(wide_keys[r]);
            j = j + 1;
        }
        r = r + 1;
    }
    let mut j: usize = 0;
    while j < W
        invariant
            are_broadcast_keys(wide_keys@, keys@),
            j <= W,
            forall|m: int, l: int|
                0 <= m < j && 0 <= l < L ==> #[trigger] s@[m].lanes@[l]@ == ten_rounds(
                    keys@,
                    states@[m].lanes@[l]@,
                ),
            forall|m: int, l: int|
                j <= m < W && 0 <= l < L ==> #[trigger] s@[m].lanes@[l]@ == keyed_rounds(
                    keys@,
                    states@[m].lanes@[l]@,
                    9,
                ),
        decreases W - j,
    {
        s[j] = s[j].aesenclast(wide_keys[10]);
        proof {
            reveal(ten_rounds);
        }
        j = j + 1;
    }
    s
}

/// The counters of the first `W` registers: lane `l` of register `j` holds, in
/// native order, the counter for block `j * L + l`.
fn initial_counters<const L: usize, const W: usize>(counter0: [u32; 4]) -> (ctr: [Wide<L>; W])
    requires
        W * L <= usize::MAX,
    ensures
        forall|j: int, l: int|
            0 <= j < W && 0 <= l < L ==> #[trigger] ctr@[j].lanes@[l]@ == native_bytes(
                counter_at(counter0@, lane_index(j, L as int, l)),
            ),
{
    let bc: Wide<L> = Wide::broadcast(V128::from_words(counter0));
    assert(counter_at(counter0@, 0) =~= counter0@);
    let mut ctr: [Wide<L>; W] = [bc; W];
    let mut j: usize = 0;
    while j < W
        invariant
            W * L <= usize::MAX,
            forall|l: int|
                0 <= l < L ==> #[trigger] bc.lanes@[l]@ == native_bytes(
                    counter_at(counter0@, 0),
                ),
            j <= W,
            forall|m: int, l: int|
                0 <= m < j && 0 <= l < L ==> #[trigger] ctr@[m].lanes@[l]@ == native_bytes(
                    counter_at(counter0@, lane_index(m, L as int, l)),
                ),
        decreases W - j,
    {
        proof {
            lemma_register_start(j as int, L as int, W as int);
        }
        let start: usize = j * L;
        ctr[j] = bc.add(counter_offsets(start));
        proof {
            assert forall|l: int| 0 <= l < L implies #[trigger] ctr@[j as int].lanes@[l]@
                == native_bytes(counter_at(counter0@, lane_index(j as int, L as int, l))) by {
                assert(bc.lanes@[l]@ == native_bytes(counter_at(counter0@, 0)));
                lemma_lane_step(counter0@, 0, start + l);
            }
        }
        j = j + 1;
    }
    ctr
}

/// `n` blocks that fill `w` registers are at least one group of blocks.
proof fn lemma_whole_group(n: int, lanes: int, w: int)
    by (nonlinear_arith)
    requires
        0 < w <= n / lanes,
        0 < lanes,
    ensures
        0 < w * lanes <= n,
{
}

/// Encrypt `blocks` in counter mode on registers of `L` lanes, `W` registers per
/// iteration.
fn encrypt_ctr_wide<const L: usize, const W: usize>(
    rk: &[u32],
    counter0: [u32; 4],
    blocks: &[[u32; 4]],
    out: &mut [[u32; 4]],
)
    requires
        W > 0,
        L > 0,
        rk.len() >= 44,
        old(out).len() == blocks.len(),
    ensures
        final(out).len() == blocks.len(),
        is_ctr(rk@, counter0@, blocks@, final(out)@, blocks.len() as int),
{
    let keys: [V128; 11] = round_keys(rk);
    let n: usize = blocks.len();
    if n / L < W {
        // Fewer than W * L blocks.
        encrypt_tail(&keys, counter0, blocks, out, 0);
        return ;
    }
    proof {
        lemma_whole_group(n as int, L as int, W as int);
    }
    let group: usize = W * L;
    let wide_keys: [Wide<L>; 11] = broadcast_keys(&keys);
    let bswap: Wide<L> = Wide::broadcast(V128 { bytes: BYTE_SWAP });
    let step: Wide<L> = Wide::broadcast(counter_offset(group));
    let mut ctr: [Wide<L>; W] = initial_counters(counter0);

    let mut i: usize = 0;
    while n - i >= group
        invariant
            group == W * L,
            group > 0,
            are_round_keys(keys@, rk@),
            are_broadcast_keys(wide_keys@, keys@),
            forall|l: int| 0 <= l < L ==> #[trigger] bswap.lanes@[l]@ == BYTE_SWAP@,
            forall|l: int|
                0 <= l < L ==> #[trigger] step.lanes@[l]@ == native_bytes(
                    seq![0u32, 0u32, 0u32, (group as int % 0x1_0000_0000) as u32],
                ),
            forall|j: int, l: int|
                0 <= j < W && 0 <= l < L ==> #[trigger] ctr@[j].lanes@[l]@ == native_bytes(
                    counter_at(counter0@, i + lane_index(j, L as int, l)),
                ),
            n == blocks.len(),
            n == out.len(),
            i <= n,
            is_ctr(rk@, counter0@, blocks@, out@, i as int),
        decreases n - i,
    {
        let mut s: [Wide<L>; W] = ctr;
        let mut j: usize = 0;
        while j < W
            invariant
                are_broadcast_keys(wide_keys@, keys@),
                forall|l: int| 0 <= l < L ==> #[trigger] bswap.lanes@[l]@ == BYTE_SWAP@,
                forall|m: int, l: int|
                    0 <= m < W && 0 <= l < L ==> #[trigger] ctr@[m].lanes@[l]@ == native_bytes(
                        counter_at(counter0@, i + lane_index(m, L as int, l)),
                    ),
                j <= W,
                forall|m: int, l: int|
                    0 <= m < j && 0 <= l < L ==> #[trigger] s@[m].lanes@[l]@ == add_round_key(
                        bytes_of(counter_at(counter0@, i + lane_index(m, L as int, l))),
                        keys@[0]@,
                    ),
            decreases W - j,
        {
            s[j] = ctr[j].shuffle(bswap).xor(wide_keys[0]);
            proof {
                assert forall|l: int| 0 <= l < L implies #[trigger] s@[j as int].lanes@[l]@
                    == add_round_key(
                    bytes_of(counter_at(counter0@, i + lane_index(j as int, L as int, l))),
                    keys@[0]@,
                ) by {
                    assert(bswap.lanes@[l]@ == BYTE_SWAP@);
                    assert(wide_keys@[0].lanes@[l] == keys@[0]);
                    assert(ctr@[j as int].lanes@[l]@ == native_bytes(
                        counter_at(counter0@, i + lane_index(j as int, L as int, l)),
                    ));
                    byte_swap_of_native(
                        counter_at(counter0@, i + lane_index(j as int, L as int, l)),
                    );
                }
            }
            j = j + 1;
        }
        let s: [Wide<L>; W] = run_rounds(&keys, &wide_keys, s);
        let mut j: usize = 0;
        while j < W
            invariant
                group == W * L,
                i + group <= n,
                are_round_keys(keys@, rk@),
                forall|l: int| 0 <= l < L ==> #[trigger] bswap.lanes@[l]@ == BYTE_SWAP@,
                n == blocks.len(),
                n == out.len(),
                j <= W,
                forall|m: int, l: int|
                    0 <= m < W && 0 <= l < L ==> #[trigger] s@[m].lanes@[l]@ == ten_rounds(
                        keys@,
                        add_round_key(
                            bytes_of(counter_at(counter0@, i + lane_index(m, L as int, l))),
                            keys@[0]@,
                        ),
                    ),
                is_ctr(rk@, counter0@, blocks@, out@, i + j * L),
            decreases W - j,
        {
            proof {
                lemma_register_start(j as int, L as int, W as int);
            }
            let at: usize = i + j * L;
            let pt: Wide<L> = Wide::load(blocks, at);
            let ks: Wide<L> = s[j].shuffle(bswap);
            let ct: Wide<L> = pt.xor(ks);
            let ghost before = out@;
            ct.store(out, at);
            proof {
                assert forall|m: int| 0 <= m < i + (j + 1) * L implies #[trigger] out@[m]@
                    == ctr_block(rk@, counter0@, m, blocks@[m]@) by {
                    if m < at {
                        assert(before[m]@ == ctr_block(rk@, counter0@, m, blocks@[m]@));
                    } else {
                        let l = m - at;
                        let state = s@[j as int].lanes@[l]@;
                        let counter = counter_at(
                            counter0@,
                            i + lane_index(j as int, L as int, l),
                        );
                        assert(out@[at + l]@ == native_words(ct.lanes@[l]@));
                        assert(pt.lanes@[l]@ == native_bytes(blocks@[at + l]@));
                        assert(bswap.lanes@[l]@ == BYTE_SWAP@);
                        lemma_ten_rounds(keys@, rk@, counter);
                        byte_swap_of_state(state);
                        lemma_native_xor(blocks@[m]@, ks.lanes@[l]@);
                    }
                }
            }
            j = j + 1;
        }
        let mut j: usize = 0;
        let ghost before = ctr@;
        while j < W
            invariant
                before.len() == W,
                forall|l: int|
                    0 <= l < L ==> #[trigger] step.lanes@[l]@ == native_bytes(
                        seq![0u32, 0u32, 0u32, (group as int % 0x1_0000_0000) as u32],
                    ),
                forall|m: int, l: int|
                    0 <= m < W && 0 <= l < L ==> #[trigger] before[m].lanes@[l]@ == native_bytes(
                        counter_at(counter0@, i + lane_index(m, L as int, l)),
                    ),
                j <= W,
                forall|m: int| j <= m < W ==> #[trigger] ctr@[m] == before[m],
                forall|m: int, l: int|
                    0 <= m < j && 0 <= l < L ==> #[trigger] ctr@[m].lanes@[l]@ == native_bytes(
                        counter_at(counter0@, i + group + lane_index(m, L as int, l)),
                    ),
            decreases W - j,
        {
            ctr[j] = ctr[j].add(step);
            proof {
                assert forall|l: int| 0 <= l < L implies #[trigger] ctr@[j as int].lanes@[l]@
                    == native_bytes(
                    counter_at(counter0@, i + group + lane_index(j as int, L as int, l)),
                ) by {
                    let a = i + lane_index(j as int, L as int, l);
                    assert(before[j as int].lanes@[l]@ == native_bytes(counter_at(counter0@, a)));
                    assert(step.lanes@[l]@ == native_bytes(
                        seq![0u32, 0u32, 0u32, (group as int % 0x1_0000_0000) as u32],
                    ));
                    lemma_lane_step(counter0@, a, group as int);
                }
            }
            j = j + 1;
        }
        i = i + group;
    }
    // Fewer than W * L blocks left.
    encrypt_tail(&keys, counter0, blocks, out, i);
}

/// Encrypt `blocks` in counter mode on 256-bit registers (two blocks each),
/// interleaving `W` registers (`2 * W` blocks per iteration).
///
/// Same result as [`crate::aesni::encrypt_ctr`] for every `W`. `rk` is the
/// 44-word expanded key; `out` must be as long as `blocks`.
pub fn encrypt_ctr_vaes256<const W: usize>(
    rk: &[u32],
    counter0: [u32; 4],
    blocks: &[[u32; 4]],
    out: &mut [[u32; 4]],
)
    requires
        W > 0,
        rk.len() >= 44,
        old(out).len() == blocks.len(),
    ensures
        final(out).len() == blocks.len(),
        is_ctr(rk@, counter0@, blocks@, final(out)@, blocks.len() as int),
{
    encrypt_ctr_wide::<2, W>(rk, counter0, blocks, out)
}

/// Encrypt `blocks` in counter mode on 512-bit registers (four blocks each),
/// interleaving `W` registers (`4 * W` blocks per iteration).
///
/// Same result as [`crate::aesni::encrypt_ctr`] for every `W`. `rk` is the
/// 44-word expanded key; `out` must be as long as `blocks`.
pub fn encrypt_ctr_vaes512<const W: usize>(
    rk: &[u32],
    counter0: [u32; 4],
    blocks: &[[u32; 4]],
    out: &mut [[u32; 4]],
)
    requires
        W > 0,
        rk.len() >= 44,
        old(out).len() == blocks.len(),
    ensures
        final(out).len() == blocks.len(),
        is_ctr(rk@, counter0@, blocks@, final(out)@, blocks.len() as int),
{
    encrypt_ctr_wide::<4, W>(rk, counter0, blocks, out)
}

/// [`encrypt_ctr_vaes256`] fanned across the cores. The result is the same; `out`
/// must be as long as `blocks`.
pub fn encrypt_ctr_vaes256_parallel<const W: usize>(
    rk: &[u32],
    counter0: [u32; 4],
    blocks: &[[u32; 4]],
    out: &mut [[u32; 4]],
)
    requires
        blocks.len() > 0 ==> W > 0 && rk.len() >= 44,
        old(out).len() == blocks.len(),
    ensures
        final(out).len() == blocks.len(),
        is_ctr(rk@, counter0@, blocks@, final(out)@, blocks.len() as int),
{
    encrypt_ctr_parallel::<W>(Kernel::Vaes256, rk, counter0, blocks, out)
}

/// [`encrypt_ctr_vaes512`] fanned across the cores. The result is the same; `out`
/// must be as long as `blocks`.
pub fn encrypt_ctr_vaes512_parallel<const W: usize>(
    rk: &[u32],
    counter0: [u32; 4],
    blocks: &[[u32; 4]],
    out: &mut [[u32; 4]],
)
    requires
        blocks.len() > 0 ==> W > 0 && rk.len() >= 44,
        old(out).len() == blocks.len(),
    ensures
        final(out).len() == blocks.len(),
        is_ctr(rk@, counter0@, blocks@, final(out)@, blocks.len() as int),
{
    encrypt_ctr_parallel::<W>(Kernel::Vaes512, rk, counter0, blocks, out)
}

} // verus!
