//! The block sampler: 64 samples of an 8x16 cell, their mean greyscale, the
//! coverage pattern, and the quartile colours of the diagonal.
use vstd::prelude::*;
use vstd::arithmetic::power2::{pow2, lemma2_to64, lemma2_to64_rest, lemma_pow2_unfold, lemma_pow2_strictly_increases};
use vstd::set_lib::{set_int_range, lemma_int_range, lemma_map_size, lemma_subset_equality};
use crate::pixel::{Pixel, grey, greyscale, covers, is_pure, pixel_at, read_pixel};

verus! {

/// The 64 samples of cell `(cx, cy)`: sample `8 * dy + dx` is the pixel at
/// `(8 * cx + dx, 16 * cy + 2 * dy)`, so only even rows of the cell are read.
pub open spec fn cell_samples<F: Fn(u32, u32) -> Pixel>(f: &F, cx: u32, cy: u32) -> Seq<Pixel> {
    Seq::new(64, |i: int| pixel_at(f, (cx * 8 + i % 8) as u32, (cy * 16 + 2 * (i / 8)) as u32))
}

/// Sum of the greyscales of the first `n` samples.
pub open spec fn grey_sum(s: Seq<Pixel>, n: nat) -> nat
    decreases n,
{
    if n == 0 {
        0
    } else {
        grey_sum(s, (n - 1) as nat) + grey(s[n - 1])
    }
}

/// The cell's threshold: the mean greyscale of its samples, rounded down.
pub open spec fn mean_grey(s: Seq<Pixel>) -> nat {
    grey_sum(s, s.len()) / s.len()
}

/// The first `n` threshold decisions read as a binary number, first sample
/// most significant.
pub open spec fn pattern_prefix(s: Seq<Pixel>, t: nat, n: nat) -> nat
    decreases n,
{
    if n == 0 {
        0
    } else {
        2 * pattern_prefix(s, t, (n - 1) as nat) + if grey(s[n - 1]) >= t {
            1nat
        } else {
            0nat
        }
    }
}

/// The cell's coverage pattern: bit `63 - i` is set when sample `i` is at
/// least as bright as the mean.
pub open spec fn cell_pattern(s: Seq<Pixel>) -> u64 {
    pattern_prefix(s, mean_grey(s), 64) as u64
}

/// The samples on the diagonal of the 8x8 grid, where `dx == dy`.
pub open spec fn diagonal(s: Seq<Pixel>) -> Seq<Pixel> {
    Seq::new(8, |k: int| s[9 * k])
}

/// In greyscale order, sample `i` comes before sample `j`; equal greyscales
/// keep their positions.
pub open spec fn precedes(d: Seq<Pixel>, i: int, j: int) -> bool {
    grey(d[i]) < grey(d[j]) || (grey(d[i]) == grey(d[j]) && i < j)
}

/// How many of the first `m` samples come before sample `j`.
pub open spec fn count_before(d: Seq<Pixel>, j: int, m: nat) -> nat
    decreases m,
{
    if m == 0 {
        0
    } else {
        count_before(d, j, (m - 1) as nat) + if precedes(d, m - 1, j) {
            1nat
        } else {
            0nat
        }
    }
}

/// Position of sample `j` once the samples are sorted by greyscale.
pub open spec fn rank(d: Seq<Pixel>, j: int) -> nat {
    count_before(d, j, d.len())
}

/// The sample at position `k` of the samples sorted by greyscale.
pub open spec fn order_stat(d: Seq<Pixel>, k: nat) -> Pixel {
    d[choose|j: int| 0 <= j < d.len() && rank(d, j) == k]
}

/// The lower-quartile colour: position 2 of the sorted diagonal.
pub open spec fn low_color(s: Seq<Pixel>) -> Pixel {
    order_stat(diagonal(s), 2)
}

/// The upper-quartile colour: position 6 of the sorted diagonal.
pub open spec fn high_color(s: Seq<Pixel>) -> Pixel {
    order_stat(diagonal(s), 6)
}

/// What the sampler reports for a cell.
#[derive(Clone, Copy, Debug)]
pub struct CellStats {
    pub pattern: u64,
    pub low: Pixel,
    pub high: Pixel,
}

pub open spec fn cell_stats(s: Seq<Pixel>) -> CellStats {
    CellStats { pattern: cell_pattern(s), low: low_color(s), high: high_color(s) }
}

/// Both quartile colours are opaque.
pub open spec fn stats_opaque(c: CellStats) -> bool {
    c.low.3 != 0 && c.high.3 != 0
}

/// Reads the 64 samples of cell `(cx, cy)`.
pub fn sample_cell<F: Fn(u32, u32) -> Pixel>(
    f: &F,
    width: u32,
    height: u32,
    cx: u32,
    cy: u32,
) -> (r: Vec<Pixel>)
    requires
        covers(f, width, height),
        is_pure(f),
        (cx + 1) * 8 <= width,
        (cy + 1) * 16 <= height,
    ensures
        r@ == cell_samples(f, cx, cy),
{
    let mut r: Vec<Pixel> = Vec::new();
    let mut dy: u32 = 0;
    while dy < 8
        invariant
            covers(f, width, height),
            is_pure(f),
            (cx + 1) * 8 <= width,
            (cy + 1) * 16 <= height,
            dy <= 8,
            r@.len() == 8 * dy,
            forall|i: int| 0 <= i < r@.len() ==> r@[i] == #[trigger] cell_samples(f, cx, cy)[i],
        decreases 8 - dy,
    {
        let mut dx: u32 = 0;
        while dx < 8
            invariant
                covers(f, width, height),
                is_pure(f),
                (cx + 1) * 8 <= width,
                (cy + 1) * 16 <= height,
                dy < 8,
                dx <= 8,
                r@.len() == 8 * dy + dx,
                forall|i: int| 0 <= i < r@.len() ==> r@[i] == #[trigger] cell_samples(f, cx, cy)[i],
            decreases 8 - dx,
        {
            let x = cx * 8 + dx;
            let y = cy * 16 + dy * 2;
            let p = read_pixel(f, x, y);
            proof {
                let i = 8 * dy + dx;
                assert(i % 8 == dx as int && i / 8 == dy as int);
            }
            r.push(p);
            dx += 1;
        }
        dy += 1;
    }
    assert(r@ =~= cell_samples(f, cx, cy));
    r
}

proof fn lemma_grey_sum_bound(s: Seq<Pixel>, n: nat)
    requires
        n <= s.len(),
    ensures
        grey_sum(s, n) <= 765 * n,
    decreases n,
{
    if n > 0 {
        lemma_grey_sum_bound(s, (n - 1) as nat);
    }
}

proof fn lemma_pattern_prefix_bound(s: Seq<Pixel>, t: nat, n: nat)
    ensures
        pattern_prefix(s, t, n) < pow2(n),
    decreases n,
{
    if n > 0 {
        lemma_pow2_unfold(n);
        lemma_pattern_prefix_bound(s, t, (n - 1) as nat);
    } else {
        lemma2_to64();
    }
}

/// Mean greyscale and coverage pattern of 64 samples.
fn threshold_pattern(s: &Vec<Pixel>) -> (r: u64)
    requires
        s@.len() == 64,
    ensures
        r == cell_pattern(s@),
{
    let mut sum: usize = 0;
    let mut greys: Vec<usize> = Vec::new();
    let mut i: usize = 0;
    while i < 64
        invariant
            s@.len() == 64,
            i <= 64,
            sum == grey_sum(s@, i as nat),
            greys@.len() == i,
            forall|j: int| 0 <= j < i ==> greys@[j] == grey(#[trigger] s@[j]),
        decreases 64 - i,
    {
        proof {
            lemma_grey_sum_bound(s@, i as nat);
        }
        let g = greyscale(s[i]);
        sum = sum + g;
        greys.push(g);
        i += 1;
    }
    let mean: usize = sum / 64;
    let mut group: u64 = 0;
    let mut k: usize = 0;
    while k < 64
        invariant
            s@.len() == 64,
            k <= 64,
            mean == mean_grey(s@),
            greys@.len() == 64,
            forall|j: int| 0 <= j < 64 ==> greys@[j] == grey(#[trigger] s@[j]),
            group == pattern_prefix(s@, mean as nat, k as nat),
        decreases 64 - k,
    {
        let b: u64 = if greys[k] >= mean {
            1
        } else {
            0
        };
        proof {
            lemma_pattern_prefix_bound(s@, mean as nat, k as nat);
            lemma2_to64_rest();
            if k < 63 {
                lemma_pow2_strictly_increases(k as nat, 63);
            }
            assert((group << 1u64) | b == group * 2 + b) by (bit_vector)
                requires
                    group < 0x8000_0000_0000_0000u64,
                    b <= 1,
            ;
        }
        group = (group << 1u64) | b;
        k += 1;
    }
    group
}

proof fn lemma_count_before_bound(d: Seq<Pixel>, j: int, m: nat)
    ensures
        count_before(d, j, m) <= m,
        0 <= j < m ==> count_before(d, j, m) < m,
    decreases m,
{
    if m > 0 {
        lemma_count_before_bound(d, j, (m - 1) as nat);
    }
}

proof fn lemma_count_before_grows(d: Seq<Pixel>, j1: int, j2: int, m: nat)
    requires
        precedes(d, j1, j2),
    ensures
        count_before(d, j1, m) <= count_before(d, j2, m),
        0 <= j1 < m ==> count_before(d, j1, m) < count_before(d, j2, m),
    decreases m,
{
    if m > 0 {
        lemma_count_before_grows(d, j1, j2, (m - 1) as nat);
    }
}

/// Distinct samples have distinct ranks.
proof fn lemma_rank_injective(d: Seq<Pixel>, j1: int, j2: int)
    requires
        0 <= j1 < d.len(),
        0 <= j2 < d.len(),
        rank(d, j1) == rank(d, j2),
    ensures
        j1 == j2,
{
    if precedes(d, j1, j2) {
        lemma_count_before_grows(d, j1, j2, d.len());
    } else if precedes(d, j2, j1) {
        lemma_count_before_grows(d, j2, j1, d.len());
    }
}

/// Every position of the sorted order is held by some sample.
proof fn lemma_rank_onto(d: Seq<Pixel>, k: nat)
    requires
        k < d.len(),
    ensures
        exists|j: int| 0 <= j < d.len() && rank(d, j) == k,
{
    let n = d.len() as int;
    let dom = set_int_range(0, n);
    let f = |j: int| rank(d, j) as int;
    let img = dom.map(f);
    lemma_int_range(0, n);
    assert forall|j1: int, j2: int| dom.contains(j1) && dom.contains(j2) && #[trigger] f(j1) == #[trigger] f(j2) implies j1 == j2 by {
        lemma_rank_injective(d, j1, j2);
    }
    lemma_map_size(dom, img, f);
    assert forall|r: int| img.contains(r) implies set_int_range(0, n).contains(r) by {
        let j = choose|j: int| dom.contains(j) && f(j) == r;
        lemma_count_before_bound(d, j, d.len());
    }
    lemma_subset_equality(img, set_int_range(0, n));
    assert(img.contains(k as int));
    let j = choose|j: int| dom.contains(j) && f(j) == k as int;
    assert(0 <= j < d.len() && rank(d, j) == k);
}

/// The sample at a position of the sorted order is one of the samples.
pub proof fn lemma_order_stat_is_sample(d: Seq<Pixel>, k: nat)
    requires
        k < d.len(),
    ensures
        exists|j: int| 0 <= j < d.len() && order_stat(d, k) == d[j],
{
    lemma_rank_onto(d, k);
    let j = choose|j: int| 0 <= j < d.len() && rank(d, j) == k;
    assert(order_stat(d, k) == d[j]);
}

/// The sample at position `k` of `d` sorted by greyscale, ties kept in order.
fn select_by_rank(d: &Vec<Pixel>, k: usize) -> (r: Pixel)
    requires
        k < d@.len(),
    ensures
        r == order_stat(d@, k as nat),
{
    let mut greys: Vec<usize> = Vec::new();
    let mut i: usize = 0;
    while i < d.len()
        invariant
            i <= d@.len(),
            greys@.len() == i,
            forall|j: int| 0 <= j < i ==> greys@[j] == grey(#[trigger] d@[j]),
        decreases d@.len() - i,
    {
        greys.push(greyscale(d[i]));
        i += 1;
    }
    let mut j: usize = 0;
    while j < d.len()
        invariant
            k < d@.len(),
            j <= d@.len(),
            greys@.len() == d@.len(),
            forall|m: int| 0 <= m < d@.len() ==> greys@[m] == grey(#[trigger] d@[m]),
            forall|m: int| 0 <= m < j ==> rank(d@, m) != k,
        decreases d@.len() - j,
    {
        let mut count: usize = 0;
        let mut i: usize = 0;
        while i < d.len()
            invariant
                j < d@.len(),
                i <= d@.len(),
                greys@.len() == d@.len(),
                forall|m: int| 0 <= m < d@.len() ==> greys@[m] == grey(#[trigger] d@[m]),
                count == count_before(d@, j as int, i as nat),
            decreases d@.len() - i,
        {
            proof {
                lemma_count_before_bound(d@, j as int, i as nat);
            }
            if greys[i] < greys[j] || (greys[i] == greys[j] && i < j) {
                count += 1;
            }
            i += 1;
        }
        if count == k {
            proof {
                assert(0 <= j < d@.len() && rank(d@, j as int) == k);
                let c = choose|m: int| 0 <= m < d@.len() && rank(d@, m) == k;
                lemma_rank_injective(d@, c, j as int);
            }
            return d[j];
        }
        j += 1;
    }
    proof {
        lemma_rank_onto(d@, k as nat);
    }
    d[0]
}

/// Greyscale mean, coverage pattern and quartile colours of a cell's 64 samples.
pub fn analyze_cell(s: &Vec<Pixel>) -> (r: CellStats)
    requires
        s@.len() == 64,
    ensures
        r == cell_stats(s@),
{
    let pattern = threshold_pattern(s);
    let mut diag: Vec<Pixel> = Vec::new();
    let mut k: usize = 0;
    while k < 8
        invariant
            s@.len() == 64,
            k <= 8,
            diag@.len() == k,
            forall|m: int| 0 <= m < k ==> diag@[m] == #[trigger] diagonal(s@)[m],
        decreases 8 - k,
    {
        diag.push(s[9 * k]);
        k += 1;
    }
    assert(diag@ =~= diagonal(s@));
    let low = select_by_rank(&diag, 2);
    let high = select_by_rank(&diag, 6);
    CellStats { pattern, low, high }
}

} // verus!
