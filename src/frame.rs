//! The line and frame renderer: every cell of a row, and every row of a
//! vertical range, appended to a byte sink.
use vstd::prelude::*;
use crate::ansi::{StyledCell, cell_bytes, decimal, push_cell, push_decimal, push_reset, style, style_cell};
use crate::catalog::{Catalog, GlyphEntry, register_all, template_table};
use crate::matcher::{match_glyph, matched};
use crate::pixel::{Pixel, covers, is_pure};
use crate::sampler::{analyze_cell, cell_samples, cell_stats, sample_cell, stats_opaque};

verus! {

/// The entries of the standard catalog.
pub open spec fn standard_catalog() -> Seq<GlyphEntry> {
    register_all(template_table())
}

/// What cell `(cx, cy)` of the source becomes.
pub open spec fn cell_at<F: Fn(u32, u32) -> Pixel>(
    f: &F,
    cat: Seq<GlyphEntry>,
    cx: u32,
    cy: u32,
) -> StyledCell {
    let st = cell_stats(cell_samples(f, cx, cy));
    style(matched(cat, st.pattern, stats_opaque(st)), st.low, st.high)
}

/// The cells of cell row `cy`: one for each 8 pixels of width.
pub open spec fn row_cells<F: Fn(u32, u32) -> Pixel>(
    f: &F,
    cat: Seq<GlyphEntry>,
    width: u32,
    cy: u32,
) -> Seq<StyledCell> {
    Seq::new((width / 8) as nat, |cx: int| cell_at(f, cat, cx as u32, cy))
}

/// The bytes of a run of cells, in order.
pub open spec fn cells_bytes(cells: Seq<StyledCell>) -> Seq<u8>
    decreases cells.len(),
{
    if cells.len() == 0 {
        Seq::empty()
    } else {
        cells_bytes(cells.drop_last()) + cell_bytes(cells.last())
    }
}

/// What precedes the cells of the `line`-th line of a render: a return to
/// column 0 (`ESC [ 0 G`) and, with a position `(x, y)`, a cursor move to
/// row `y + line`, column `x` (`ESC [ row ; col H`).
pub open spec fn line_prefix(restart: bool, pos: Option<(u32, u32)>, line: nat) -> Seq<u8> {
    let back = if restart {
        seq![27u8, 91u8, 48u8, 71u8]
    } else {
        Seq::empty()
    };
    let goto = match pos {
        Some((x, y)) => seq![27u8, 91u8] + decimal((y + line) as nat) + seq![59u8] + decimal(x as nat) + seq![
            72u8,
        ],
        None => Seq::empty(),
    };
    back + goto
}

/// What follows the cells of a line: a style reset and a newline, when asked for.
pub open spec fn line_end(eol: bool) -> Seq<u8> {
    if eol {
        seq![27u8, 91u8, 48u8, 109u8, 10u8]
    } else {
        Seq::empty()
    }
}

pub open spec fn line_bytes<F: Fn(u32, u32) -> Pixel>(
    f: &F,
    cat: Seq<GlyphEntry>,
    width: u32,
    cy: u32,
    restart: bool,
    pos: Option<(u32, u32)>,
    line: nat,
    eol: bool,
) -> Seq<u8> {
    line_prefix(restart, pos, line) + cells_bytes(row_cells(f, cat, width, cy)) + line_end(eol)
}

/// The lines of cell rows `first .. last`, numbered from 0.
pub open spec fn rows_bytes<F: Fn(u32, u32) -> Pixel>(
    f: &F,
    cat: Seq<GlyphEntry>,
    width: u32,
    first: nat,
    last: nat,
    restart: bool,
    pos: Option<(u32, u32)>,
    eol: bool,
) -> Seq<u8>
    decreases last,
{
    if last <= first {
        Seq::empty()
    } else {
        rows_bytes(f, cat, width, first, (last - 1) as nat, restart, pos, eol) + line_bytes(
            f,
            cat,
            width,
            (last - 1) as u32,
            restart,
            pos,
            (last - 1 - first) as nat,
            eol,
        )
    }
}

/// Samples, matches and styles cell `(cx, cy)`.
pub fn render_cell<F: Fn(u32, u32) -> Pixel>(
    f: &F,
    catalog: &Catalog,
    width: u32,
    height: u32,
    cx: u32,
    cy: u32,
) -> (r: StyledCell)
    requires
        covers(f, width, height),
        is_pure(f),
        catalog.wf(),
        (cx + 1) * 8 <= width,
        (cy + 1) * 16 <= height,
    ensures
        r == cell_at(f, catalog@, cx, cy),
{
    let samples = sample_cell(f, width, height, cx, cy);
    let st = analyze_cell(&samples);
    let opaque = st.low.3 != 0 && st.high.3 != 0;
    let e = match_glyph(catalog, st.pattern, opaque);
    style_cell(e, st.low, st.high)
}

/// Appends one line: its prefix, every cell of row `cy`, and its end.
pub fn push_line<F: Fn(u32, u32) -> Pixel>(
    out: &mut Vec<u8>,
    f: &F,
    catalog: &Catalog,
    width: u32,
    height: u32,
    cy: u32,
    restart: bool,
    pos: Option<(u32, u32)>,
    line: u32,
    eol: bool,
)
    requires
        covers(f, width, height),
        is_pure(f),
        catalog.wf(),
        (cy + 1) * 16 <= height,
    ensures
        final(out)@ == old(out)@ + line_bytes(f, catalog@, width, cy, restart, pos, line as nat, eol),
{
    let ghost start = out@;
    if restart {
        out.push(27);
        out.push(91);
        out.push(48);
        out.push(71);
    }
    match pos {
        Some((x, y)) => {
            out.push(27);
            out.push(91);
            push_decimal(out, y as u64 + line as u64);
            out.push(59);
            push_decimal(out, x as u64);
            out.push(72);
        },
        None => {},
    }
    assert(out@ =~= start + line_prefix(restart, pos, line as nat));
    let ghost cells = row_cells(f, catalog@, width, cy);
    let cols = width / 8;
    let mut cx: u32 = 0;
    while cx < cols
        invariant
            covers(f, width, height),
            is_pure(f),
            catalog.wf(),
            (cy + 1) * 16 <= height,
            cols == width / 8,
            cells == row_cells(f, catalog@, width, cy),
            cx <= cols,
            out@ == start + line_prefix(restart, pos, line as nat) + cells_bytes(
                cells.subrange(0, cx as int),
            ),
        decreases cols - cx,
    {
        let c = render_cell(f, catalog, width, height, cx, cy);
        push_cell(out, c);
        proof {
            let next = cells.subrange(0, cx + 1);
            assert(next.drop_last() =~= cells.subrange(0, cx as int));
            assert(next.last() == c);
            assert(out@ =~= start + line_prefix(restart, pos, line as nat) + cells_bytes(next));
        }
        cx += 1;
    }
    assert(cells.subrange(0, cols as int) =~= cells);
    if eol {
        push_reset(out);
        out.push(10);
    }
    assert(out@ =~= start + line_bytes(f, catalog@, width, cy, restart, pos, line as nat, eol));
}

/// Appends the lines of cell rows `top / 16 .. bottom / 16`.
pub fn push_rows<F: Fn(u32, u32) -> Pixel>(
    out: &mut Vec<u8>,
    f: &F,
    catalog: &Catalog,
    width: u32,
    top: u32,
    bottom: u32,
    restart: bool,
    pos: Option<(u32, u32)>,
    eol: bool,
)
    requires
        covers(f, width, bottom),
        is_pure(f),
        catalog.wf(),
    ensures
        final(out)@ == old(out)@ + rows_bytes(
            f,
            catalog@,
            width,
            (top / 16) as nat,
            (bottom / 16) as nat,
            restart,
            pos,
            eol,
        ),
{
    let ghost start = out@;
    let first = top / 16;
    let last = bottom / 16;
    let mut cy: u32 = first;
    if first >= last {
        assert(out@ =~= start + rows_bytes(f, catalog@, width, first as nat, last as nat, restart, pos, eol));
        return;
    }
    while cy < last
        invariant
            covers(f, width, bottom),
            is_pure(f),
            catalog.wf(),
            first <= cy <= last,
            last == bottom / 16,
            out@ == start + rows_bytes(f, catalog@, width, first as nat, cy as nat, restart, pos, eol),
        decreases last - cy,
    {
        push_line(out, f, catalog, width, bottom, cy, restart, pos, cy - first, eol);
        assert(out@ =~= start + rows_bytes(f, catalog@, width, first as nat, (cy + 1) as nat, restart, pos, eol));
        cy += 1;
    }
}

/// What a render of pixel rows `top .. bottom` appends to its sink: the
/// lines of cell rows `top / 16 .. bottom / 16` (a range whose ends are not
/// multiples of 16 is rounded down at both ends), then a zero byte that
/// marks the end of the payload.
pub open spec fn frame_bytes<F: Fn(u32, u32) -> Pixel>(
    f: &F,
    width: u32,
    top: u32,
    bottom: u32,
    restart: bool,
    pos: Option<(u32, u32)>,
    eol: bool,
) -> Seq<u8> {
    rows_bytes(
        f,
        standard_catalog(),
        width,
        (top / 16) as nat,
        (bottom / 16) as nat,
        restart,
        pos,
        eol,
    ).push(0u8)
}

/// Renders cell rows `top / 16 .. bottom / 16` into `handle`, each
/// line optionally led by a return to column 0 and a cursor move to `pos`
/// (one row further down for every line) and optionally closed by a style
/// reset and newline; then writes the end-of-payload zero byte.
pub fn render_write_eol_with_write_with_restart_start_of_line<F: Fn(u32, u32) -> Pixel>(
    width: u32,
    coordinate_to_rgba: &F,
    write_eol: bool,
    restart_start_of_line: bool,
    top: u32,
    bottom: u32,
    handle: &mut Vec<u8>,
    pos: Option<(u32, u32)>,
)
    requires
        covers(coordinate_to_rgba, width, bottom),
        is_pure(coordinate_to_rgba),
    ensures
        final(handle)@ == old(handle)@ + frame_bytes(
            coordinate_to_rgba,
            width,
            top,
            bottom,
            restart_start_of_line,
            pos,
            write_eol,
        ),
{
    let catalog = Catalog::standard();
    push_rows(
        handle,
        coordinate_to_rgba,
        &catalog,
        width,
        top,
        bottom,
        restart_start_of_line,
        pos,
        write_eol,
    );
    handle.push(0);
}

/// As `render_write_eol_with_write_with_restart_start_of_line`, with every
/// line led by a return to column 0.
pub fn render_write_eol_with_write<F: Fn(u32, u32) -> Pixel>(
    width: u32,
    coordinate_to_rgba: &F,
    write_eol: bool,
    top: u32,
    bottom: u32,
    handle: &mut Vec<u8>,
    pos: Option<(u32, u32)>,
)
    requires
        covers(coordinate_to_rgba, width, bottom),
        is_pure(coordinate_to_rgba),
    ensures
        final(handle)@ == old(handle)@ + frame_bytes(
            coordinate_to_rgba,
            width,
            top,
            bottom,
            true,
            pos,
            write_eol,
        ),
{
    render_write_eol_with_write_with_restart_start_of_line(
        width,
        coordinate_to_rgba,
        write_eol,
        true,
        top,
        bottom,
        handle,
        pos,
    );
}

/// Renders pixel rows `top .. bottom` into the front of a fixed-size
/// buffer, end-of-payload zero byte included, and returns how many bytes
/// that took. When they do not fit, the buffer is left as it was and the
/// result is `None`.
pub fn render_write_eol_relative_buffer<F: Fn(u32, u32) -> Pixel>(
    width: u32,
    coordinate_to_rgba: &F,
    write_eol: bool,
    top: u32,
    bottom: u32,
    buffer: &mut [u8],
) -> (r: Option<u64>)
    requires
        covers(coordinate_to_rgba, width, bottom),
        is_pure(coordinate_to_rgba),
    ensures
        ({
            let out = frame_bytes(coordinate_to_rgba, width, top, bottom, true, None, write_eol);
            &&& r is Some <==> out.len() <= old(buffer)@.len()
            &&& r matches Some(n) ==> n == out.len() && final(buffer)@ == out + old(
                buffer,
            )@.subrange(out.len() as int, old(buffer)@.len() as int)
            &&& r is None ==> final(buffer)@ == old(buffer)@
        }),
{
    let mut out: Vec<u8> = Vec::new();
    render_write_eol_with_write(width, coordinate_to_rgba, write_eol, top, bottom, &mut out, None);
    assert(out@ =~= frame_bytes(coordinate_to_rgba, width, top, bottom, true, None, write_eol));
    if out.len() > buffer.len() {
        return None;
    }
    let ghost old_buf = buffer@;
    let mut i: usize = 0;
    while i < out.len()
        invariant
            out@.len() <= old_buf.len(),
            buffer@.len() == old_buf.len(),
            i <= out@.len(),
            forall|j: int| 0 <= j < i ==> buffer@[j] == out@[j],
            forall|j: int| i <= j < old_buf.len() ==> buffer@[j] == old_buf[j],
        decreases out@.len() - i,
    {
        buffer[i] = out[i];
        i += 1;
    }
    assert(buffer@ =~= out@ + old_buf.subrange(out@.len() as int, old_buf.len() as int));
    Some(out.len() as u64)
}

/// The bytes for a terminal showing a `width` x `height` image: one line
/// for each whole cell row, each returning to column 0 and ending with a
/// style reset and newline. No end-of-payload marker is added.
pub fn render<F: Fn(u32, u32) -> Pixel>(
    width: u32,
    height: u32,
    coordinate_to_rgba: &F,
    pos: Option<(u32, u32)>,
) -> (r: Vec<u8>)
    requires
        covers(coordinate_to_rgba, width, height),
        is_pure(coordinate_to_rgba),
    ensures
        r@ == rows_bytes(
            coordinate_to_rgba,
            standard_catalog(),
            width,
            0,
            (height / 16) as nat,
            true,
            pos,
            true,
        ),
{
    let catalog = Catalog::standard();
    let mut out: Vec<u8> = Vec::new();
    push_rows(&mut out, coordinate_to_rgba, &catalog, width, 0, height, true, pos, true);
    assert(out@ =~= rows_bytes(
        coordinate_to_rgba,
        standard_catalog(),
        width,
        0,
        (height / 16) as nat,
        true,
        pos,
        true,
    ));
    out
}

} // verus!
