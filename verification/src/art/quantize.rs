//! Adaptive colour reduction, shared by both graphics protocols.
//!
//! Sixel addresses colours through a register table, and the kitty path sends
//! an indexed image; both need the same median-cut palette and nearest-colour
//! lookup, so it lives here rather than inside either one.
use vstd::prelude::*;
use vstd::multiset::Multiset;
use vstd::seq_lib::{lemma_multiset_commutative, to_multiset_len};

verus! {

broadcast use vstd::multiset::group_multiset_axioms;

/// Palette size. 128 adaptive entries look at least as good as a 216-entry
/// fixed cube while emitting far less data.
pub const PALETTE_SIZE: usize = 128;


/// Number of cells in the lookup cube.
pub const LUT_CELLS: usize = 32768;

/// The lookup cell a colour falls in: its top five bits per channel, red
/// most significant.
pub open spec fn lut_cell(p: [u8; 3]) -> int {
    (p[0] as int / 8) * 1024 + (p[1] as int / 8) * 32 + (p[2] as int / 8)
}

/// The centre of lookup cell `k` on channel `ch`, in 0..255.
pub open spec fn cell_centre(k: int, ch: int) -> int {
    let step = if ch == 0 {
        k / 1024
    } else if ch == 1 {
        (k / 32) % 32
    } else {
        k % 32
    };
    step * 8 + 4
}

/// Squared distance from palette colour `p` to the centre of cell `k`.
pub open spec fn dist2(p: [u8; 3], k: int) -> int {
    (p[0] - cell_centre(k, 0)) * (p[0] - cell_centre(k, 0)) + (p[1] - cell_centre(k, 1)) * (
    p[1] - cell_centre(k, 1)) + (p[2] - cell_centre(k, 2)) * (p[2] - cell_centre(k, 2))
}

/// `j` is the first palette entry nearest to the centre of cell `k`.
pub open spec fn is_nearest(pal: Seq<[u8; 3]>, k: int, j: int) -> bool {
    &&& 0 <= j < pal.len()
    &&& forall|m: int| 0 <= m < pal.len() ==> dist2(pal[j], k) <= #[trigger] dist2(pal[m], k)
    &&& forall|m: int| 0 <= m < j ==> dist2(pal[j], k) < #[trigger] dist2(pal[m], k)
}

/// What the lookup table holds for cell `k`: the index of the nearest palette
/// entry, kept to its low byte, or 0 for an empty palette.
pub open spec fn lut_entry_ok(pal: Seq<[u8; 3]>, k: int, v: u8) -> bool {
    if pal.len() == 0 {
        v == 0
    } else {
        exists|j: int| #[trigger] is_nearest(pal, k, j) && v as int == j % 256
    }
}

/// The lookup cell for colour `p`.
pub fn lut_index(p: &[u8; 3]) -> (r: usize)
    ensures
        r as int == lut_cell(*p),
        r < LUT_CELLS,
{
    (p[0] as usize / 8) * 1024 + (p[1] as usize / 8) * 32 + (p[2] as usize / 8)
}

fn square(d: i32) -> (r: i32)
    requires
        -256 < d < 256,
    ensures
        r == d * d,
        0 <= r < 65536,
{
    assert(0 <= d * d < 65536) by (nonlinear_arith)
        requires
            -256 < d < 256,
    ;
    d * d
}

/// Nearest-palette-entry lookup table over the coarse RGB cube: entry `k`
/// holds the first palette index closest to the centre of cell `k`.
pub fn build_lut(palette: &[[u8; 3]]) -> (lut: Vec<u8>)
    ensures
        lut@.len() == LUT_CELLS,
        forall|k: int| 0 <= k < LUT_CELLS ==> lut_entry_ok(palette@, k, #[trigger] lut@[k]),
{
    let mut lut: Vec<u8> = Vec::new();
    let mut k: usize = 0;
    while k < LUT_CELLS
        invariant
            k <= LUT_CELLS,
            lut@.len() == k,
            forall|q: int| 0 <= q < k ==> lut_entry_ok(palette@, q, #[trigger] lut@[q]),
        decreases LUT_CELLS - k,
    {
        let target0 = ((k / 1024) * 8 + 4) as i32;
        let target1 = (((k / 32) % 32) * 8 + 4) as i32;
        let target2 = ((k % 32) * 8 + 4) as i32;
        let mut best: u8 = 0;
        let mut best_d: i32 = i32::MAX;
        let ghost mut best_j: int = 0;
        let mut i: usize = 0;
        while i < palette.len()
            invariant
                k < LUT_CELLS,
                target0 == cell_centre(k as int, 0),
                target1 == cell_centre(k as int, 1),
                target2 == cell_centre(k as int, 2),
                i <= palette@.len(),
                i == 0 ==> best == 0 && best_d == i32::MAX,
                i > 0 ==> {
                    &&& 0 <= best_j < i
                    &&& best_d == dist2(palette@[best_j], k as int)
                    &&& best as int == best_j % 256
                    &&& forall|m: int| 0 <= m < i ==> best_d <= #[trigger] dist2(palette@[m], k as int)
                    &&& forall|m: int| 0 <= m < best_j ==> best_d < #[trigger] dist2(palette@[m], k as int)
                },
            decreases palette@.len() - i,
        {
            let p = palette[i];
            let d = square(p[0] as i32 - target0) + square(p[1] as i32 - target1) + square(
                p[2] as i32 - target2,
            );
            assert(d == dist2(palette@[i as int], k as int));
            if d < best_d {
                best_d = d;
                best = (i % 256) as u8;
                proof {
                    best_j = i as int;
                }
            }
            i += 1;
        }
        proof {
            if palette@.len() > 0 {
                assert(is_nearest(palette@, k as int, best_j));
            }
        }
        lut.push(best);
        k += 1;
    }
    lut
}

/// Sum of channel `ch` over the colours `s`.
pub open spec fn channel_sum(s: Seq<[u8; 3]>, ch: int) -> nat
    decreases s.len(),
{
    if s.len() == 0 {
        0
    } else {
        channel_sum(s.drop_last(), ch) + s.last()[ch] as nat
    }
}

/// `c` is the mean colour of the nonempty bucket `s`, each channel rounded
/// down.
pub open spec fn is_mean(s: Seq<[u8; 3]>, c: [u8; 3]) -> bool {
    forall|ch: int| 0 <= ch < 3 ==> #[trigger] c[ch] as int == channel_sum(s, ch) as int / s.len() as int
}

/// Every colour in `s` has the same value on channel `ch`.
pub open spec fn channel_constant(s: Seq<[u8; 3]>, ch: int) -> bool {
    forall|j: int| 0 <= j < s.len() ==> #[trigger] s[j][ch] == s[0][ch]
}

/// Every colour in `s` is the same colour.
pub open spec fn uniform(s: Seq<[u8; 3]>) -> bool {
    forall|ch: int| 0 <= ch < 3 ==> #[trigger] channel_constant(s, ch)
}

/// All the colours of the buckets `bs`, pooled.
pub open spec fn pooled(bs: Seq<Seq<[u8; 3]>>) -> Multiset<[u8; 3]>
    decreases bs.len(),
{
    if bs.len() == 0 {
        Multiset::empty()
    } else {
        pooled(bs.drop_last()).add(bs.last().to_multiset())
    }
}

/// The contents of each bucket.
pub open spec fn bucket_views(bs: Seq<Vec<[u8; 3]>>) -> Seq<Seq<[u8; 3]>> {
    bs.map_values(|b: Vec<[u8; 3]>| b@)
}

/// The least value of channel `ch` over `s`, starting from 255.
pub open spec fn ch_min(s: Seq<[u8; 3]>, ch: int) -> int
    decreases s.len(),
{
    if s.len() == 0 {
        255
    } else {
        let m = ch_min(s.drop_last(), ch);
        let v = s.last()[ch] as int;
        if v < m {
            v
        } else {
            m
        }
    }
}

/// The greatest value of channel `ch` over `s`, starting from 0.
pub open spec fn ch_max(s: Seq<[u8; 3]>, ch: int) -> int
    decreases s.len(),
{
    if s.len() == 0 {
        0
    } else {
        let m = ch_max(s.drop_last(), ch);
        let v = s.last()[ch] as int;
        if v > m {
            v
        } else {
            m
        }
    }
}

/// The spread of channel `ch` over a bucket.
pub open spec fn ch_range(s: Seq<[u8; 3]>, ch: int) -> int {
    ch_max(s, ch) - ch_min(s, ch)
}

/// Bucket `i` on channel `ch` is the one to split: it has at least two
/// colours and a spread on that channel; no channel of any bucket of two or
/// more colours spreads wider; and it is the first, in bucket order and
/// then channel order, with that spread.
pub open spec fn is_widest(bs: Seq<Seq<[u8; 3]>>, i: int, ch: int) -> bool {
    &&& 0 <= i < bs.len()
    &&& 0 <= ch < 3
    &&& bs[i].len() >= 2
    &&& ch_range(bs[i], ch) > 0
    &&& forall|k: int, c: int|
        0 <= k < bs.len() && 0 <= c < 3 && bs[k].len() >= 2 ==> #[trigger] ch_range(bs[k], c) <= ch_range(
            bs[i],
            ch,
        )
    &&& forall|k: int, c: int|
        0 <= k < bs.len() && 0 <= c < 3 && bs[k].len() >= 2 && (k < i || (k == i && c < ch))
            ==> #[trigger] ch_range(bs[k], c) < ch_range(bs[i], ch)
}

/// `s` is in ascending order of channel `ch`.
pub open spec fn sorted_by(s: Seq<[u8; 3]>, ch: int) -> bool {
    forall|a: int, b: int| 0 <= a <= b < s.len() ==> #[trigger] s[a][ch] <= #[trigger] s[b][ch]
}

/// The buckets after splitting bucket `i`, whose colours sorted are
/// `sorted`: the last bucket takes its place, then the lower half (the
/// first `len / 2` colours) and the upper half go at the end.
pub open spec fn split_at(bs: Seq<Seq<[u8; 3]>>, i: int, sorted: Seq<[u8; 3]>) -> Seq<Seq<[u8; 3]>> {
    bs.update(i, bs.last()).drop_last().push(sorted.take((sorted.len() / 2) as int)).push(
        sorted.skip((sorted.len() / 2) as int),
    )
}

/// Splitting bucket `i` on channel `ch`, with `sorted` its colours in
/// ascending order of that channel, is a step of the cut.
pub open spec fn valid_split(bs: Seq<Seq<[u8; 3]>>, i: int, ch: int, sorted: Seq<[u8; 3]>) -> bool {
    &&& is_widest(bs, i, ch)
    &&& sorted.to_multiset() == bs[i].to_multiset()
    &&& sorted_by(sorted, ch)
}

/// `next` is `bs` after one step of the cut. Which of two colours with the
/// same value on the channel lands first is left open.
pub open spec fn is_step(bs: Seq<Seq<[u8; 3]>>, next: Seq<Seq<[u8; 3]>>) -> bool {
    exists|i: int, ch: int, sorted: Seq<[u8; 3]>|
        #[trigger] valid_split(bs, i, ch, sorted) && next == split_at(bs, i, sorted)
}

/// `trace` starts from all the samples in one bucket and goes one step
/// of the cut at a time.
pub open spec fn is_run(trace: Seq<Seq<Seq<[u8; 3]>>>, samples: Seq<[u8; 3]>) -> bool {
    &&& trace.len() >= 1
    &&& trace[0] == seq![samples]
    &&& forall|k: int| 0 <= k < trace.len() - 1 ==> #[trigger] is_step(trace[k], trace[k + 1])
}

/// `pal` is a median-cut palette of `samples` with at most `n` entries
/// (at least one): the buckets `bs` come from the samples by steps of the
/// cut -- each splitting the first bucket with the widest channel spread at
/// its median on that channel -- one entry per bucket, each entry its
/// bucket's mean; the cutting stopped short of `n` buckets only because no
/// bucket had two different colours left to split.
pub open spec fn is_cut(samples: Seq<[u8; 3]>, bs: Seq<Seq<[u8; 3]>>, pal: Seq<[u8; 3]>, n: int) -> bool {
    &&& exists|trace: Seq<Seq<Seq<[u8; 3]>>>| #[trigger] is_run(trace, samples) && trace.last() == bs
    &&& bs.len() == pal.len()
    &&& 1 <= bs.len()
    &&& (bs.len() <= n || bs.len() == 1)
    &&& pooled(bs) == samples.to_multiset()
    &&& forall|i: int| 0 <= i < bs.len() ==> (#[trigger] bs[i]).len() > 0 && is_mean(bs[i], pal[i])
    &&& bs.len() < n ==> forall|i: int| 0 <= i < bs.len() ==> uniform(#[trigger] bs[i])
}

proof fn lemma_pooled_update(bs: Seq<Seq<[u8; 3]>>, i: int, x: Seq<[u8; 3]>)
    requires
        0 <= i < bs.len(),
    ensures
        pooled(bs.update(i, x)).add(bs[i].to_multiset()) =~= pooled(bs).add(x.to_multiset()),
    decreases bs.len(),
{
    let u = bs.update(i, x);
    assert(u.len() == bs.len());
    assert(pooled(u) == pooled(u.drop_last()).add(u.last().to_multiset()));
    assert(pooled(bs) == pooled(bs.drop_last()).add(bs.last().to_multiset()));
    let p = pooled(bs.drop_last());
    if i == bs.len() - 1 {
        assert(u.drop_last() =~= bs.drop_last());
        assert(u.last() == x);
        assert(bs.last() == bs[i]);
        assert(p.add(x.to_multiset()).add(bs[i].to_multiset()) =~= p.add(bs[i].to_multiset()).add(
            x.to_multiset(),
        ));
    } else {
        lemma_pooled_update(bs.drop_last(), i, x);
        assert(u.drop_last() =~= bs.drop_last().update(i, x));
        assert(u.last() == bs.last());
        let q = pooled(bs.drop_last().update(i, x));
        assert(bs.drop_last()[i] == bs[i]);
        assert(q.add(bs[i].to_multiset()) =~= p.add(x.to_multiset()));
        let l = bs.last().to_multiset();
        assert forall|v: [u8; 3]|
            #[trigger] q.add(l).add(bs[i].to_multiset()).count(v) == p.add(l).add(
                x.to_multiset(),
            ).count(v) by {
            assert(q.add(bs[i].to_multiset()).count(v) == p.add(x.to_multiset()).count(v));
        }
        assert(q.add(l).add(bs[i].to_multiset()) =~= p.add(l).add(x.to_multiset()));
    }
}

proof fn lemma_channel_sum_step(s: Seq<[u8; 3]>, j: int, ch: int)
    requires
        0 <= j < s.len(),
    ensures
        channel_sum(s.take(j + 1), ch) == channel_sum(s.take(j), ch) + s[j][ch] as nat,
{
    assert(s.take(j + 1).drop_last() =~= s.take(j));
}

proof fn lemma_channel_sum_bound(s: Seq<[u8; 3]>, ch: int)
    ensures
        channel_sum(s, ch) <= 255 * s.len(),
    decreases s.len(),
{
    if s.len() > 0 {
        lemma_channel_sum_bound(s.drop_last(), ch);
    }
}

proof fn lemma_channel_sum_constant(s: Seq<[u8; 3]>, ch: int, v: u8)
    requires
        forall|j: int| 0 <= j < s.len() ==> #[trigger] s[j][ch] == v,
    ensures
        channel_sum(s, ch) == s.len() * v,
    decreases s.len(),
{
    if s.len() > 0 {
        lemma_channel_sum_constant(s.drop_last(), ch, v);
        assert(channel_sum(s, ch) == (s.len() - 1) * v + v);
        assert((s.len() - 1) * v + v == s.len() * v) by (nonlinear_arith);
    }
}

/// Calls `slice::sort_unstable_by_key` with channel `ch` as the key: claimed
/// to reorder the colours, keeping every one, into ascending order of that
/// channel. Which of two colours with the same key comes first is left open.
#[verifier::external_body]
fn sort_by_channel(bucket: &mut Vec<[u8; 3]>, ch: usize)
    requires
        ch < 3,
    ensures
        final(bucket)@.to_multiset() == old(bucket)@.to_multiset(),
        forall|a: int, b: int|
            0 <= a <= b < final(bucket)@.len() ==> #[trigger] final(bucket)@[a][ch as int]
                <= #[trigger] final(bucket)@[b][ch as int],
{
    bucket.sort_unstable_by_key(|p| p[ch]);
}

/// The spread of channel `ch` over a nonempty bucket: zero exactly when the
/// channel is constant.
fn channel_range(b: &Vec<[u8; 3]>, ch: usize) -> (r: u16)
    requires
        b@.len() > 0,
        ch < 3,
    ensures
        r <= 255,
        r == ch_range(b@, ch as int),
        (r == 0) == channel_constant(b@, ch as int),
{
    let mut lo: u8 = 255;
    let mut hi: u8 = 0;
    let ghost mut lo_at: int = 0;
    let ghost mut hi_at: int = 0;
    let mut j: usize = 0;
    while j < b.len()
        invariant
            ch < 3,
            j <= b@.len(),
            forall|q: int| 0 <= q < j ==> lo <= #[trigger] b@[q][ch as int] <= hi,
            j > 0 ==> 0 <= lo_at < j && b@[lo_at][ch as int] == lo,
            j > 0 ==> 0 <= hi_at < j && b@[hi_at][ch as int] == hi,
            j > 0 ==> lo == ch_min(b@.take(j as int), ch as int),
            j > 0 ==> hi == ch_max(b@.take(j as int), ch as int),
        decreases b@.len() - j,
    {
        proof {
            assert(b@.take(j + 1).drop_last() =~= b@.take(j as int));
            assert(b@.take(j + 1).last() == b@[j as int]);
            if j == 0 {
                assert(b@.take(0) =~= Seq::<[u8; 3]>::empty());
                assert(ch_min(b@.take(0), ch as int) == 255);
                assert(ch_max(b@.take(0), ch as int) == 0);
            }
        }
        let v = b[j][ch];
        if j == 0 || v < lo {
            lo = v;
            proof {
                lo_at = j as int;
            }
        }
        if j == 0 || v > hi {
            hi = v;
            proof {
                hi_at = j as int;
            }
        }
        j += 1;
    }
    proof {
        assert(b@.take(b@.len() as int) =~= b@);
        if channel_constant(b@, ch as int) {
            assert(b@[lo_at][ch as int] == b@[0][ch as int]);
            assert(b@[hi_at][ch as int] == b@[0][ch as int]);
        }
        if hi == lo {
            assert forall|q: int| 0 <= q < b@.len() implies #[trigger] b@[q][ch as int] == b@[0][ch as int] by {
                assert(lo <= b@[q][ch as int] <= hi);
                assert(lo <= b@[0][ch as int] <= hi);
            }
        }
    }
    hi as u16 - lo as u16
}

/// The mean colour of a nonempty bucket.
fn bucket_mean(b: &Vec<[u8; 3]>) -> (c: [u8; 3])
    requires
        0 < b@.len() <= 16843009,
    ensures
        is_mean(b@, c),
{
    let mut s0: u32 = 0;
    let mut s1: u32 = 0;
    let mut s2: u32 = 0;
    let mut j: usize = 0;
    while j < b.len()
        invariant
            j <= b@.len() <= 16843009,
            s0 == channel_sum(b@.take(j as int), 0),
            s1 == channel_sum(b@.take(j as int), 1),
            s2 == channel_sum(b@.take(j as int), 2),
            s0 <= 255 * j,
            s1 <= 255 * j,
            s2 <= 255 * j,
        decreases b@.len() - j,
    {
        let p = b[j];
        proof {
            lemma_channel_sum_step(b@, j as int, 0);
            lemma_channel_sum_step(b@, j as int, 1);
            lemma_channel_sum_step(b@, j as int, 2);
        }
        s0 = s0 + p[0] as u32;
        s1 = s1 + p[1] as u32;
        s2 = s2 + p[2] as u32;
        j += 1;
    }
    assert(b@.take(b@.len() as int) =~= b@);
    let n = b.len() as u32;
    assert(s0 / n <= 255 && s1 / n <= 255 && s2 / n <= 255) by (nonlinear_arith)
        requires
            n > 0,
            s0 <= 255 * n,
            s1 <= 255 * n,
            s2 <= 255 * n,
    ;
    let c = [(s0 / n) as u8, (s1 / n) as u8, (s2 / n) as u8];
    assert(c[0] == s0 / n && c[1] == s1 / n && c[2] == s2 / n);
    c
}

/// Build an adaptive palette of at most `n` entries by median cut, consuming
/// `samples`.
///
/// Repeatedly split the bucket with the widest single-channel spread at its
/// median on that channel, which concentrates palette entries where the image
/// actually has detail; each entry is then its bucket's mean. Without samples
/// the palette is black alone.
pub fn median_cut(samples: &mut Vec<[u8; 3]>, n: usize) -> (r: Vec<[u8; 3]>)
    requires
        old(samples)@.len() <= 16843009,
    ensures
        final(samples)@.len() == 0,
        old(samples)@.len() == 0 ==> r@ == seq![[0u8, 0u8, 0u8]],
        old(samples)@.len() > 0 ==> exists|bs: Seq<Seq<[u8; 3]>>| is_cut(old(samples)@, bs, r@, n as int),
        old(samples)@.len() > 0 && uniform(old(samples)@) ==> r@.len() == 1 && forall|ch: int|
            0 <= ch < 3 ==> #[trigger] r@[0][ch] == old(samples)@[0][ch],
{
    if samples.len() == 0 {
        return vec![[0u8, 0u8, 0u8]];
    }
    let ghost orig = samples@;
    let mut all: Vec<[u8; 3]> = Vec::new();
    std::mem::swap(&mut all, samples);
    let mut buckets: Vec<Vec<[u8; 3]>> = Vec::new();
    buckets.push(all);
    proof {
        assert(bucket_views(buckets@) =~= seq![orig]);
        let one = seq![orig];
        assert(one.drop_last() =~= Seq::<Seq<[u8; 3]>>::empty());
        assert(pooled(one.drop_last()) == Multiset::<[u8; 3]>::empty());
        assert(pooled(one) == pooled(one.drop_last()).add(orig.to_multiset()));
        assert(pooled(one) =~= orig.to_multiset());
    }
    let mut done = false;
    let ghost mut trace: Seq<Seq<Seq<[u8; 3]>>> = seq![seq![orig]];
    proof {
        assert(trace.last() == bucket_views(buckets@));
    }
    while !done && buckets.len() < n
        invariant
            samples@.len() == 0,
            0 < orig.len() <= 16843009,
            1 <= buckets@.len(),
            buckets@.len() <= n || buckets@.len() == 1,
            pooled(bucket_views(buckets@)) == orig.to_multiset(),
            forall|k: int| 0 <= k < buckets@.len() ==> 0 < (#[trigger] buckets@[k])@.len() <= orig.len(),
            done ==> forall|k: int| 0 <= k < buckets@.len() ==> uniform((#[trigger] buckets@[k])@),
            uniform(orig) ==> buckets@.len() == 1 && buckets@[0]@ == orig,
            is_run(trace, orig),
            trace.last() == bucket_views(buckets@),
        decreases n - buckets@.len() + (if done { 0int } else { 1int }),
    {
        // Find the bucket worth splitting: widest single-channel range.
        let mut best: Option<usize> = None;
        let mut best_range: u16 = 0;
        let mut best_channel: usize = 0;
        let mut i: usize = 0;
        while i < buckets.len()
            invariant
                i <= buckets@.len(),
                forall|k: int| 0 <= k < buckets@.len() ==> 0 < (#[trigger] buckets@[k])@.len(),
                best.is_none() == (best_range == 0),
                best_range <= 255,
                best.is_some() ==> {
                    &&& best.unwrap() < i
                    &&& buckets@[best.unwrap() as int]@.len() >= 2
                    &&& best_channel < 3
                    &&& best_range == ch_range(buckets@[best.unwrap() as int]@, best_channel as int)
                    &&& !channel_constant(buckets@[best.unwrap() as int]@, best_channel as int)
                },
                forall|k: int, c: int|
                    0 <= k < i && 0 <= c < 3 && buckets@[k]@.len() >= 2 ==> #[trigger] ch_range(
                        buckets@[k]@,
                        c,
                    ) <= best_range,
                best.is_some() ==> forall|k: int, c: int|
                    0 <= k < buckets@.len() && 0 <= c < 3 && buckets@[k]@.len() >= 2 && (k
                        < best.unwrap() || (k == best.unwrap() && c < best_channel)) ==> #[trigger] ch_range(
                        buckets@[k]@,
                        c,
                    ) < best_range,
                best.is_none() ==> forall|k: int| 0 <= k < i ==> uniform((#[trigger] buckets@[k])@),
            decreases buckets@.len() - i,
        {
            let b = &buckets[i];
            if b.len() >= 2 {
                let mut ch: usize = 0;
                while ch < 3
                    invariant
                        i < buckets@.len(),
                        *b == buckets@[i as int],
                        b@.len() >= 2,
                        ch <= 3,
                        best.is_none() == (best_range == 0),
                        best_range <= 255,
                        best.is_some() ==> {
                            &&& best.unwrap() <= i
                            &&& buckets@[best.unwrap() as int]@.len() >= 2
                            &&& best_channel < 3
                            &&& (best.unwrap() == i ==> best_channel < ch)
                            &&& best_range == ch_range(buckets@[best.unwrap() as int]@, best_channel as int)
                            &&& !channel_constant(buckets@[best.unwrap() as int]@, best_channel as int)
                        },
                        forall|k: int, c: int|
                            0 <= c < 3 && buckets@[k]@.len() >= 2 && (0 <= k < i || (k == i && c < ch))
                                ==> #[trigger] ch_range(buckets@[k]@, c) <= best_range,
                        best.is_some() ==> forall|k: int, c: int|
                            0 <= k < buckets@.len() && 0 <= c < 3 && buckets@[k]@.len() >= 2 && (k
                                < best.unwrap() || (k == best.unwrap() && c < best_channel))
                                ==> #[trigger] ch_range(buckets@[k]@, c) < best_range,
                        best.is_none() ==> forall|k: int| 0 <= k < i ==> uniform((#[trigger] buckets@[k])@),
                        best.is_none() ==> forall|c: int| 0 <= c < ch ==> #[trigger] channel_constant(b@, c),
                    decreases 3 - ch,
                {
                    let range = channel_range(b, ch);
                    if range > best_range {
                        best_range = range;
                        best = Some(i);
                        best_channel = ch;
                    }
                    ch += 1;
                }
            } else {
                assert(uniform(b@)) by {
                    assert forall|c: int| 0 <= c < 3 implies #[trigger] channel_constant(b@, c) by {
                        assert forall|j: int| 0 <= j < b@.len() implies #[trigger] b@[j][c] == b@[0][c] by {
                            assert(j == 0);
                        }
                    }
                }
            }
            i += 1;
        }
        match best {
            None => {
                done = true;
            },
            Some(i) => {
                let ghost before = buckets@;
                let ghost bv = bucket_views(before);
                proof {
                    if uniform(orig) {
                        assert(channel_constant(orig, best_channel as int));
                    }
                    assert forall|k: int, c: int|
                        0 <= k < bv.len() && 0 <= c < 3 && bv[k].len() >= 2 implies #[trigger] ch_range(bv[k], c)
                        <= ch_range(bv[i as int], best_channel as int) by {
                        assert(bv[k] == before[k]@);
                        assert(ch_range(before[k]@, c) <= best_range);
                    }
                    assert forall|k: int, c: int|
                        0 <= k < bv.len() && 0 <= c < 3 && bv[k].len() >= 2 && (k < i || (k == i && c
                            < best_channel)) implies #[trigger] ch_range(bv[k], c) < ch_range(
                        bv[i as int],
                        best_channel as int,
                    ) by {
                        assert(bv[k] == before[k]@);
                        assert(ch_range(before[k]@, c) < best_range);
                    }
                    assert(is_widest(bv, i as int, best_channel as int));
                }
                let mut bucket = buckets.swap_remove(i);
                let ghost taken = bucket@;
                sort_by_channel(&mut bucket, best_channel);
                let ghost sorted = bucket@;
                proof {
                    to_multiset_len(taken);
                    to_multiset_len(bucket@);
                    assert(taken == bv[i as int]);
                    assert(valid_split(bv, i as int, best_channel as int, sorted));
                }
                let mid = bucket.len() / 2;
                let upper = bucket.split_off(mid);
                proof {
                    assert(sorted =~= bucket@ + upper@);
                    assert(bucket@ =~= sorted.take((sorted.len() / 2) as int));
                    assert(upper@ =~= sorted.skip((sorted.len() / 2) as int));
                    lemma_multiset_commutative(bucket@, upper@);
                }
                buckets.push(bucket);
                buckets.push(upper);
                proof {
                    let vb = bucket_views(before);
                    let mid_views = bucket_views(before.update(i as int, before.last()));
                    assert(mid_views =~= vb.update(i as int, vb.last()));
                    lemma_pooled_update(vb, i as int, vb.last());
                    let removed = vb.update(i as int, vb.last()).drop_last();
                    assert(vb.update(i as int, vb.last()).last() == vb.last());
                    assert(pooled(vb.update(i as int, vb.last())) == pooled(removed).add(vb.last().to_multiset()));
                    assert(vb[i as int] == taken);
                    let pu = pooled(vb.update(i as int, vb.last()));
                    let pr = pooled(removed);
                    let l = vb.last().to_multiset();
                    assert forall|v: [u8; 3]| #[trigger] pr.add(taken.to_multiset()).count(v) == pooled(vb).count(v) by {
                        assert(pu.add(taken.to_multiset()).count(v) == pooled(vb).add(l).count(v));
                        assert(pu.count(v) == pr.add(l).count(v));
                    }
                    assert(pooled(removed).add(taken.to_multiset()) =~= pooled(vb));
                    let after = bucket_views(buckets@);
                    assert(after =~= removed.push(bucket@).push(upper@));
                    assert(after.drop_last() =~= removed.push(bucket@));
                    assert(removed.push(bucket@).drop_last() =~= removed);
                    assert(pooled(after) == pooled(after.drop_last()).add(upper@.to_multiset()));
                    assert(pooled(removed.push(bucket@)) == pooled(removed).add(bucket@.to_multiset()));
                    assert(pooled(after) =~= orig.to_multiset());
                    assert(after =~= split_at(bv, i as int, sorted));
                    assert(is_step(bv, after));
                    let old_trace = trace;
                    trace = trace.push(after);
                    assert forall|k: int| 0 <= k < trace.len() - 1 implies #[trigger] is_step(
                        trace[k],
                        trace[k + 1],
                    ) by {
                        if k < old_trace.len() - 1 {
                            assert(trace[k] == old_trace[k] && trace[k + 1] == old_trace[k + 1]);
                        } else {
                            assert(trace[k] == bv && trace[k + 1] == after);
                        }
                    }
                }
            },
        }
    }
    proof {
        assert(is_run(trace, orig));
    }
    let mut out: Vec<[u8; 3]> = Vec::new();
    let mut j: usize = 0;
    while j < buckets.len()
        invariant
            j <= buckets@.len(),
            0 < orig.len() <= 16843009,
            forall|k: int| 0 <= k < buckets@.len() ==> 0 < (#[trigger] buckets@[k])@.len() <= orig.len(),
            out@.len() == j,
            forall|k: int| 0 <= k < j ==> is_mean(buckets@[k]@, #[trigger] out@[k]),
        decreases buckets@.len() - j,
    {
        if buckets[j].len() > 0 {
            let c = bucket_mean(&buckets[j]);
            out.push(c);
        }
        j += 1;
    }
    proof {
        let bs = bucket_views(buckets@);
        assert(is_cut(orig, bs, out@, n as int));
        if uniform(orig) {
            assert forall|ch: int| 0 <= ch < 3 implies #[trigger] out@[0][ch] == orig[0][ch] by {
                assert(channel_constant(orig, ch));
                lemma_channel_sum_constant(orig, ch, orig[0][ch]);
                let len = orig.len() as int;
                let v = orig[0][ch] as int;
                assert((len * v) / len == v) by (nonlinear_arith)
                    requires
                        len > 0,
                ;
            }
        }
    }
    out
}

/// Each step of the cut splits at the median: every colour of the lower
/// half is at most every colour of the upper half on the split channel,
/// and the halves hold the bucket's colours between them.
pub proof fn law_split_at_the_median(bs: Seq<Seq<[u8; 3]>>, i: int, ch: int, sorted: Seq<[u8; 3]>, a: int, b: int)
    requires
        valid_split(bs, i, ch, sorted),
        0 <= a < sorted.len() / 2,
        0 <= b < sorted.len() - sorted.len() / 2,
    ensures
        sorted.take((sorted.len() / 2) as int)[a][ch] <= sorted.skip((sorted.len() / 2) as int)[b][ch],
        sorted.take((sorted.len() / 2) as int) + sorted.skip((sorted.len() / 2) as int) == sorted,
{
    let m = (sorted.len() / 2) as int;
    assert(sorted.take(m)[a] == sorted[a]);
    assert(sorted.skip(m)[b] == sorted[m + b]);
    assert(sorted[a][ch] <= sorted[m + b][ch]);
    assert(sorted.take(m) + sorted.skip(m) =~= sorted);
}

} // verus!
