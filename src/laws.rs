//! Properties that relate the renderer's parts to one another.
use vstd::prelude::*;
use vstd::arithmetic::div_mod::{lemma_div_is_ordered, lemma_div_multiples_vanish};
use crate::ansi::{StyledCell, cell_bytes, rgb_of, sgr_reset, style, utf8};
use crate::bands::{band_bytes, band_start, bytes_of_ordinal, in_ordinal_order};
use crate::bits::{hamming, is_first_closest, is_first_near, scan_end};
use crate::catalog::{
    GlyphEntry, candidates_spec, has_pattern, lookup_spec, patterns, register_all, template_table,
    upright,
};
use crate::frame::{cell_at, cells_bytes, line_bytes, line_end, line_prefix, row_cells, rows_bytes, standard_catalog};
use crate::matcher::{closest_index, matched};
use crate::pixel::Pixel;
use crate::sampler::{cell_samples, cell_stats, diagonal, high_color, lemma_order_stat_is_sample, low_color};

verus! {

/// The bands' outputs `0 .. m`, one after another.
pub open spec fn bands_in_order<F: Fn(u32, u32) -> Pixel>(
    f: &F,
    width: u32,
    height: u32,
    eol: bool,
    m: nat,
    count: nat,
) -> Seq<u8>
    decreases m,
{
    if m == 0 {
        Seq::empty()
    } else {
        bands_in_order(f, width, height, eol, (m - 1) as nat, count) + band_bytes(
            f,
            width,
            height,
            eol,
            (m - 1) as nat,
            count,
        )
    }
}

proof fn lemma_band_start_grows(i: nat, count: nat, height: nat)
    requires
        0 < count,
    ensures
        band_start(i, count, height) <= band_start(i + 1, count, height),
        band_start(i, count, height) / 16 <= band_start(i + 1, count, height) / 16,
{
    assert(i * height <= (i + 1) * height) by (nonlinear_arith);
    lemma_div_is_ordered((i * height) as int, ((i + 1) * height) as int, count as int);
    lemma_div_is_ordered(
        band_start(i, count, height) as int,
        band_start(i + 1, count, height) as int,
        16,
    );
}

/// Splitting a range of cell rows in two splits its lines, when no line
/// carries a cursor position.
proof fn lemma_rows_split<F: Fn(u32, u32) -> Pixel>(
    f: &F,
    cat: Seq<GlyphEntry>,
    width: u32,
    a: nat,
    b: nat,
    c: nat,
    restart: bool,
    eol: bool,
)
    requires
        a <= b <= c,
    ensures
        rows_bytes(f, cat, width, a, c, restart, None, eol) == rows_bytes(
            f,
            cat,
            width,
            a,
            b,
            restart,
            None,
            eol,
        ) + rows_bytes(f, cat, width, b, c, restart, None, eol),
    decreases c,
{
    if c == b {
        assert(rows_bytes(f, cat, width, b, c, restart, None, eol) =~= Seq::empty());
        assert(rows_bytes(f, cat, width, a, b, restart, None, eol) + Seq::empty() =~= rows_bytes(
            f,
            cat,
            width,
            a,
            b,
            restart,
            None,
            eol,
        ));
    } else {
        lemma_rows_split(f, cat, width, a, b, (c - 1) as nat, restart, eol);
        let cy = (c - 1) as u32;
        assert(line_bytes(f, cat, width, cy, restart, None, (c - 1 - a) as nat, eol) == line_bytes(
            f,
            cat,
            width,
            cy,
            restart,
            None,
            (c - 1 - b) as nat,
            eol,
        ));
        assert(rows_bytes(f, cat, width, a, c, restart, None, eol) =~= rows_bytes(
            f,
            cat,
            width,
            a,
            b,
            restart,
            None,
            eol,
        ) + rows_bytes(f, cat, width, b, c, restart, None, eol));
    }
}

proof fn lemma_bands_prefix<F: Fn(u32, u32) -> Pixel>(
    f: &F,
    width: u32,
    height: u32,
    eol: bool,
    m: nat,
    count: nat,
)
    requires
        0 < count,
    ensures
        bands_in_order(f, width, height, eol, m, count) == rows_bytes(
            f,
            standard_catalog(),
            width,
            0,
            band_start(m, count, height as nat) / 16,
            true,
            None,
            eol,
        ),
    decreases m,
{
    if m == 0 {
        assert(band_start(0, count, height as nat) == 0);
    } else {
        let k = (m - 1) as nat;
        lemma_bands_prefix(f, width, height, eol, k, count);
        lemma_band_start_grows(k, count, height as nat);
        lemma_rows_split(
            f,
            standard_catalog(),
            width,
            0,
            band_start(k, count, height as nat) / 16,
            band_start(m, count, height as nat) / 16,
            true,
            eol,
        );
    }
}

/// Rendering band by band and putting the bands back in order gives the
/// bytes of one render of the whole image: the same lines, each returning
/// to column 0, for every worker count.
pub proof fn lemma_bands_match_whole<F: Fn(u32, u32) -> Pixel>(
    f: &F,
    width: u32,
    height: u32,
    eol: bool,
    count: nat,
)
    requires
        0 < count,
    ensures
        bands_in_order(f, width, height, eol, count, count) == rows_bytes(
            f,
            standard_catalog(),
            width,
            0,
            (height / 16) as nat,
            true,
            None,
            eol,
        ),
{
    lemma_bands_prefix(f, width, height, eol, count, count);
    lemma_div_multiples_vanish(height as int, count as int);
    assert(band_start(count, count, height as nat) == height);
}

proof fn lemma_reports_prefix<F: Fn(u32, u32) -> Pixel>(
    f: &F,
    width: u32,
    height: u32,
    eol: bool,
    reports: Seq<(u32, Vec<u8>)>,
    m: nat,
)
    requires
        m <= reports.len(),
        forall|k: int|
            0 <= k < reports.len() ==> #[trigger] bytes_of_ordinal(reports, k) == band_bytes(
                f,
                width,
                height,
                eol,
                k as nat,
                reports.len(),
            ),
    ensures
        in_ordinal_order(reports, m) == bands_in_order(f, width, height, eol, m, reports.len()),
    decreases m,
{
    if m > 0 {
        lemma_reports_prefix(f, width, height, eol, reports, (m - 1) as nat);
        assert(bytes_of_ordinal(reports, m - 1) == band_bytes(
            f,
            width,
            height,
            eol,
            (m - 1) as nat,
            reports.len(),
        ));
    }
}

/// Band reports that carry, under each ordinal, what that band renders put
/// back together into the bytes of one render of the whole image, whatever
/// order they arrived in.
pub proof fn lemma_assembled_bands_match_whole<F: Fn(u32, u32) -> Pixel>(
    f: &F,
    width: u32,
    height: u32,
    eol: bool,
    reports: Seq<(u32, Vec<u8>)>,
)
    requires
        reports.len() > 0,
        forall|k: int|
            0 <= k < reports.len() ==> #[trigger] bytes_of_ordinal(reports, k) == band_bytes(
                f,
                width,
                height,
                eol,
                k as nat,
                reports.len(),
            ),
    ensures
        in_ordinal_order(reports, reports.len()) == rows_bytes(
            f,
            standard_catalog(),
            width,
            0,
            (height / 16) as nat,
            true,
            None,
            eol,
        ),
{
    lemma_reports_prefix(f, width, height, eol, reports, reports.len());
    lemma_bands_match_whole(f, width, height, eol, reports.len());
}

/// The bands split `[0, height)` into contiguous ranges with no overlap and
/// no gap: the first starts at 0, each starts where the one before ends, and
/// the last ends at `height`. Their cell rows split `[0, height / 16)` the
/// same way; the rows below the last whole cell row are in no cell.
pub proof fn lemma_bands_partition(height: nat, count: nat)
    requires
        0 < count,
    ensures
        band_start(0, count, height) == 0,
        band_start(count, count, height) == height,
        forall|k: nat|
            k < count ==> #[trigger] band_start(k, count, height) <= band_start(k + 1, count, height)
                && band_start(k, count, height) / 16 <= band_start(k + 1, count, height) / 16,
{
    lemma_div_multiples_vanish(height as int, count as int);
    assert forall|k: nat| k < count implies #[trigger] band_start(k, count, height) <= band_start(
        k + 1,
        count,
        height,
    ) && band_start(k, count, height) / 16 <= band_start(k + 1, count, height) / 16 by {
        lemma_band_start_grows(k, count, height);
    }
}

/// A line holds exactly `width / 8` cells, the cells of its row in order,
/// between its prefix and its end.
pub proof fn lemma_cells_per_line<F: Fn(u32, u32) -> Pixel>(
    f: &F,
    cat: Seq<GlyphEntry>,
    width: u32,
    cy: u32,
    restart: bool,
    pos: Option<(u32, u32)>,
    line: nat,
    eol: bool,
)
    ensures
        row_cells(f, cat, width, cy).len() == width / 8,
        forall|cx: int|
            0 <= cx < width / 8 ==> #[trigger] row_cells(f, cat, width, cy)[cx] == cell_at(
                f,
                cat,
                cx as u32,
                cy,
            ),
        line_bytes(f, cat, width, cy, restart, pos, line, eol) == line_prefix(restart, pos, line)
            + cells_bytes(row_cells(f, cat, width, cy)) + line_end(eol),
{
}

/// A cell whose pattern is registered in the catalog gets that entry, drawn
/// with the colour roles its polarity gives: an upright entry in the
/// upper-quartile colour over the lower-quartile one.
pub proof fn lemma_exact_match<F: Fn(u32, u32) -> Pixel>(
    f: &F,
    cat: Seq<GlyphEntry>,
    cx: u32,
    cy: u32,
    e: GlyphEntry,
)
    requires
        lookup_spec(cat, cell_stats(cell_samples(f, cx, cy)).pattern) == Some(e),
    ensures
        cell_at(f, cat, cx, cy) == style(
            e,
            low_color(cell_samples(f, cx, cy)),
            high_color(cell_samples(f, cx, cy)),
        ),
        e.polarity && high_color(cell_samples(f, cx, cy)).3 != 0 ==> cell_at(f, cat, cx, cy)
            == (StyledCell {
            fg: rgb_of(high_color(cell_samples(f, cx, cy))),
            bg: rgb_of(low_color(cell_samples(f, cx, cy))),
            glyph: e.glyph,
        }),
{
}

/// A cell all of whose samples are transparent is a blank with no colour:
/// a style reset and a space, whatever its coverage pattern.
pub proof fn lemma_transparent_cell<F: Fn(u32, u32) -> Pixel>(
    f: &F,
    cat: Seq<GlyphEntry>,
    cx: u32,
    cy: u32,
)
    requires
        forall|i: int| 0 <= i < 64 ==> (#[trigger] cell_samples(f, cx, cy)[i]).3 == 0,
    ensures
        cell_at(f, cat, cx, cy) == (StyledCell { fg: None, bg: None, glyph: ' ' }),
        cell_bytes(cell_at(f, cat, cx, cy)) == sgr_reset() + utf8(' '),
{
    let s = cell_samples(f, cx, cy);
    let d = diagonal(s);
    lemma_order_stat_is_sample(d, 2);
    lemma_order_stat_is_sample(d, 6);
    let j2 = choose|j: int| 0 <= j < d.len() && low_color(s) == d[j];
    let j6 = choose|j: int| 0 <= j < d.len() && high_color(s) == d[j];
    assert(s[9 * j2] == d[j2]);
    assert(s[9 * j6] == d[j6]);
    assert(cell_bytes(cell_at(f, cat, cx, cy)) =~= sgr_reset() + Seq::<u8>::empty() + utf8(' '));
}

proof fn lemma_first_closest_exists(keys: Seq<u64>, p: u64, end: int)
    requires
        0 < end <= keys.len(),
    ensures
        exists|i: int| is_first_closest(keys, p, end, i),
    decreases end,
{
    if end == 1 {
        assert(is_first_closest(keys, p, 1, 0));
    } else {
        let prev = end - 1;
        lemma_first_closest_exists(keys, p, prev);
        let i = choose|i: int| is_first_closest(keys, p, prev, i);
        if hamming(keys[end - 1], p) < hamming(keys[i], p) {
            assert(is_first_closest(keys, p, end, end - 1));
        } else {
            assert(is_first_closest(keys, p, end, i));
        }
    }
}

/// Every pattern resolves to an entry of the catalog, as long as the
/// catalog holds an upright entry: never to "no match".
pub proof fn lemma_match_in_catalog(cat: Seq<GlyphEntry>, p: u64, opaque: bool)
    requires
        upright(cat).len() > 0,
    ensures
        cat.contains(matched(cat, p, opaque)),
{
    match lookup_spec(cat, p) {
        Some(e) => {
            let i = choose|i: int| 0 <= i < cat.len() && cat[i].pattern == p;
            assert(cat[i] == e);
        },
        None => {
            let c = candidates_spec(cat, opaque);
            let keys = patterns(c);
            cat.lemma_filter_len(|e: GlyphEntry| e.polarity);
            assert(c.len() > 0);
            if exists|k: int| is_first_near(keys, p, k) {
                let k = choose|k: int| is_first_near(keys, p, k);
                assert(scan_end(keys, p) == k + 1);
            }
            lemma_first_closest_exists(keys, p, scan_end(keys, p));
            let i = closest_index(keys, p);
            assert(c.contains(c[i]));
            if !opaque {
                cat.lemma_filter_contains_rev(|e: GlyphEntry| e.polarity, c[i]);
            }
        },
    }
}

proof fn lemma_register_all_keeps_first(t: Seq<GlyphEntry>)
    requires
        t.len() > 0,
    ensures
        register_all(t).len() > 0,
        register_all(t)[0] == t[0],
    decreases t.len(),
{
    if t.len() == 1 {
        assert(t.drop_last() =~= Seq::<GlyphEntry>::empty());
        assert(!has_pattern(Seq::<GlyphEntry>::empty(), t.last().pattern));
        assert(register_all(t.drop_last()) =~= Seq::<GlyphEntry>::empty());
        assert(register_all(t) =~= seq![t[0]]);
    } else {
        lemma_register_all_keeps_first(t.drop_last());
        let r = register_all(t.drop_last());
        assert(t.drop_last()[0] == t[0]);
        assert(r.push(t.last())[0] == r[0]);
    }
}

/// With the standard catalog every pattern resolves to one of its entries,
/// whether or not the cell's colours are opaque.
pub proof fn lemma_standard_match_in_catalog(p: u64, opaque: bool)
    ensures
        standard_catalog().contains(matched(standard_catalog(), p, opaque)),
{
    let cat = standard_catalog();
    lemma_register_all_keeps_first(template_table());
    assert(template_table()[0].polarity);
    cat.lemma_filter_contains(|e: GlyphEntry| e.polarity, 0);
    lemma_match_in_catalog(cat, p, opaque);
}

} // verus!
