//! The band pipeline's decisions: where each band of rows starts and ends,
//! what a band renders, and the order in which band outputs are put back
//! together.
use vstd::prelude::*;
use vstd::arithmetic::div_mod::{lemma_div_is_ordered, lemma_div_multiples_vanish};
use crate::catalog::Catalog;
use crate::frame::{push_rows, rows_bytes, standard_catalog};
use crate::pixel::{Pixel, covers, is_pure};

verus! {

/// First pixel row of band `i` when `height` rows are split into `count` bands.
pub open spec fn band_start(i: nat, count: nat, height: nat) -> nat {
    i * height / count
}

proof fn lemma_band_start_bounds(i: nat, count: nat, height: nat)
    requires
        i <= count,
        0 < count,
        height <= 0xffff_ffff,
        count <= 0xffff_ffff,
    ensures
        i * height <= 0xffff_ffff * 0xffff_ffff,
        band_start(i, count, height) <= height,
{
    assert(i * height <= count * height) by (nonlinear_arith)
        requires
            i <= count,
    ;
    assert(count * height <= 0xffff_ffff * 0xffff_ffff) by (nonlinear_arith)
        requires
            count <= 0xffff_ffff,
            height <= 0xffff_ffff,
    ;
    lemma_div_is_ordered((i * height) as int, (count * height) as int, count as int);
    lemma_div_multiples_vanish(height as int, count as int);
}

/// The pixel rows `(start, end)` of band `index` of `count`.
pub fn band_rows(index: u32, count: u32, height: u32) -> (r: (u32, u32))
    requires
        index < count,
    ensures
        r.0 == band_start(index as nat, count as nat, height as nat),
        r.1 == band_start((index + 1) as nat, count as nat, height as nat),
        r.1 <= height,
{
    let i = index as u64;
    let n = count as u64;
    let h = height as u64;
    proof {
        lemma_band_start_bounds(i as nat, n as nat, h as nat);
        lemma_band_start_bounds((i + 1) as nat, n as nat, h as nat);
    }
    let start = i * h / n;
    let end = (i + 1) * h / n;
    (start as u32, end as u32)
}

/// Relies on `num_cpus::get`: the number of CPUs this process may run on,
/// documented to be at least 1.
#[verifier::external_body]
fn available_cpus() -> (r: usize)
    ensures
        r >= 1,
{
    num_cpus::get()
}

/// Workers for `cpus` CPUs: twice as many, capped at `u32::MAX`.
pub fn pool_size(cpus: usize) -> (r: u32)
    ensures
        r == (if 2 * cpus > u32::MAX {
            u32::MAX as int
        } else {
            2 * cpus
        }),
{
    if cpus > (u32::MAX / 2) as usize {
        u32::MAX
    } else {
        (cpus * 2) as u32
    }
}

/// Workers for this machine: twice its available CPUs.
pub fn worker_count() -> (r: u32)
    ensures
        r >= 2,
{
    pool_size(available_cpus())
}

/// What band `index` of `count` contributes: the lines of its cell rows,
/// each returning to column 0, without an end-of-payload marker.
pub open spec fn band_bytes<F: Fn(u32, u32) -> Pixel>(
    f: &F,
    width: u32,
    height: u32,
    eol: bool,
    index: nat,
    count: nat,
) -> Seq<u8> {
    rows_bytes(
        f,
        standard_catalog(),
        width,
        band_start(index, count, height as nat) / 16,
        band_start(index + 1, count, height as nat) / 16,
        true,
        None,
        eol,
    )
}

/// Renders band `index` of `count` into a buffer of its own.
pub fn render_band<F: Fn(u32, u32) -> Pixel>(
    width: u32,
    height: u32,
    coordinate_to_rgba: &F,
    write_eol: bool,
    index: u32,
    count: u32,
) -> (r: Vec<u8>)
    requires
        covers(coordinate_to_rgba, width, height),
        is_pure(coordinate_to_rgba),
        index < count,
    ensures
        r@ == band_bytes(coordinate_to_rgba, width, height, write_eol, index as nat, count as nat),
{
    let (top, bottom) = band_rows(index, count, height);
    let catalog = Catalog::standard();
    let mut out: Vec<u8> = Vec::new();
    push_rows(&mut out, coordinate_to_rgba, &catalog, width, top, bottom, true, None, write_eol);
    assert(out@ =~= band_bytes(coordinate_to_rgba, width, height, write_eol, index as nat, count as nat));
    out
}

/// Some report carries ordinal `k`.
pub open spec fn has_ordinal(reports: Seq<(u32, Vec<u8>)>, k: int) -> bool {
    exists|j: int| 0 <= j < reports.len() && reports[j].0 == k
}

/// The bytes of the report with ordinal `k`.
pub open spec fn bytes_of_ordinal(reports: Seq<(u32, Vec<u8>)>, k: int) -> Seq<u8> {
    reports[choose|j: int| 0 <= j < reports.len() && reports[j].0 == k].1@
}

/// The bytes of the reports with ordinals `0 .. m`, in ordinal order.
pub open spec fn in_ordinal_order(reports: Seq<(u32, Vec<u8>)>, m: nat) -> Seq<u8>
    decreases m,
{
    if m == 0 {
        Seq::empty()
    } else {
        in_ordinal_order(reports, (m - 1) as nat) + bytes_of_ordinal(reports, m - 1)
    }
}

pub open spec fn distinct_ordinals(reports: Seq<(u32, Vec<u8>)>) -> bool {
    forall|i: int, j: int|
        0 <= i < reports.len() && 0 <= j < reports.len() && i != j ==> reports[i].0 != reports[j].0
}

fn find_ordinal(reports: &Vec<(u32, Vec<u8>)>, k: usize) -> (r: Option<usize>)
    ensures
        r is None ==> !has_ordinal(reports@, k as int),
        r matches Some(j) ==> j < reports@.len() && reports@[j as int].0 == k,
{
    let mut j: usize = 0;
    while j < reports.len()
        invariant
            j <= reports@.len(),
            forall|m: int| 0 <= m < j ==> reports@[m].0 != k,
        decreases reports@.len() - j,
    {
        if reports[j].0 as usize == k {
            return Some(j);
        }
        j += 1;
    }
    None
}

/// Appends the bytes of `src`.
pub fn append_bytes(out: &mut Vec<u8>, src: &Vec<u8>)
    ensures
        final(out)@ == old(out)@ + src@,
{
    let ghost before = out@;
    let mut b: usize = 0;
    while b < src.len()
        invariant
            b <= src@.len(),
            out@ == before + src@.subrange(0, b as int),
        decreases src@.len() - b,
    {
        out.push(src[b]);
        assert(out@ =~= before + src@.subrange(0, b + 1));
        b += 1;
    }
    assert(src@.subrange(0, b as int) =~= src@);
}

/// Puts band reports, which arrive in any order, back in ordinal order.
/// `None` when some ordinal below the number of reports is missing.
pub fn assemble_bands(reports: &Vec<(u32, Vec<u8>)>) -> (r: Option<Vec<u8>>)
    requires
        distinct_ordinals(reports@),
    ensures
        r is Some <==> forall|k: int| 0 <= k < reports@.len() ==> has_ordinal(reports@, k),
        r matches Some(v) ==> v@ == in_ordinal_order(reports@, reports@.len()),
{
    let n = reports.len();
    let mut out: Vec<u8> = Vec::new();
    let mut k: usize = 0;
    while k < n
        invariant
            n == reports@.len(),
            distinct_ordinals(reports@),
            k <= n,
            forall|m: int| 0 <= m < k ==> has_ordinal(reports@, m),
            out@ == in_ordinal_order(reports@, k as nat),
        decreases n - k,
    {
        match find_ordinal(reports, k) {
            None => {
                return None;
            },
            Some(j) => {
                proof {
                    let c = choose|m: int| 0 <= m < reports@.len() && reports@[m].0 == k;
                    assert(c == j);
                }
                append_bytes(&mut out, &reports[j].1);
            },
        }
        k += 1;
    }
    Some(out)
}

} // verus!
