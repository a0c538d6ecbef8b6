//! The cell renderer: colour roles of a matched glyph, and the ANSI truecolor
//! bytes that draw it.
use vstd::prelude::*;
use crate::catalog::GlyphEntry;
use crate::pixel::Pixel;

verus! {

pub type Rgb = (u8, u8, u8);

/// One terminal cell: a foreground colour (`None` resets the style), a
/// background colour (`None` keeps the terminal's), and a glyph.
#[derive(Clone, Copy, Debug)]
pub struct StyledCell {
    pub fg: Option<Rgb>,
    pub bg: Option<Rgb>,
    pub glyph: char,
}

pub open spec fn rgb_of(p: Pixel) -> Option<Rgb> {
    if p.3 != 0 {
        Some((p.0, p.1, p.2))
    } else {
        None
    }
}

/// An upright entry is drawn in the high colour over the low one, an inverted
/// entry the other way round. A transparent foreground shows a blank.
pub open spec fn style(e: GlyphEntry, low: Pixel, high: Pixel) -> StyledCell {
    let fg = if e.polarity {
        high
    } else {
        low
    };
    let bg = if e.polarity {
        low
    } else {
        high
    };
    StyledCell { fg: rgb_of(fg), bg: rgb_of(bg), glyph: if fg.3 == 0 { ' ' } else { e.glyph } }
}

pub fn style_cell(e: GlyphEntry, low: Pixel, high: Pixel) -> (r: StyledCell)
    ensures
        r == style(e, low, high),
{
    let (fg, bg) = if e.polarity {
        (high, low)
    } else {
        (low, high)
    };
    let fg_rgb = if fg.3 != 0 {
        Some((fg.0, fg.1, fg.2))
    } else {
        None
    };
    let bg_rgb = if bg.3 != 0 {
        Some((bg.0, bg.1, bg.2))
    } else {
        None
    };
    let glyph = if fg.3 == 0 {
        ' '
    } else {
        e.glyph
    };
    StyledCell { fg: fg_rgb, bg: bg_rgb, glyph }
}

/// Decimal digits of `n`, most significant first, as ASCII.
pub open spec fn decimal(n: nat) -> Seq<u8>
    decreases n,
{
    if n < 10 {
        seq![(48 + n) as u8]
    } else {
        decimal(n / 10).push((48 + n % 10) as u8)
    }
}

/// UTF-8 encoding of a character.
pub open spec fn utf8(c: char) -> Seq<u8> {
    let v = c as u32;
    if v < 0x80 {
        seq![v as u8]
    } else if v < 0x800 {
        seq![(0xc0 + v / 64) as u8, (0x80 + v % 64) as u8]
    } else if v < 0x10000 {
        seq![(0xe0 + v / 4096) as u8, (0x80 + (v / 64) % 64) as u8, (0x80 + v % 64) as u8]
    } else {
        seq![
            (0xf0 + v / 262144) as u8,
            (0x80 + (v / 4096) % 64) as u8,
            (0x80 + (v / 64) % 64) as u8,
            (0x80 + v % 64) as u8,
        ]
    }
}

/// `ESC [ code ; 2 ; r ; g ; b m`: a truecolor foreground (38) or background (48).
pub open spec fn sgr_rgb(code: nat, c: Rgb) -> Seq<u8> {
    seq![27u8, 91u8] + decimal(code) + seq![59u8, 50u8, 59u8] + decimal(c.0 as nat) + seq![59u8]
        + decimal(c.1 as nat) + seq![59u8] + decimal(c.2 as nat) + seq![109u8]
}

/// `ESC [ 0 m`: resets every attribute.
pub open spec fn sgr_reset() -> Seq<u8> {
    seq![27u8, 91u8, 48u8, 109u8]
}

/// The bytes that draw one cell.
pub open spec fn cell_bytes(c: StyledCell) -> Seq<u8> {
    let fg = match c.fg {
        Some(rgb) => sgr_rgb(38, rgb),
        None => sgr_reset(),
    };
    let bg = match c.bg {
        Some(rgb) => sgr_rgb(48, rgb),
        None => Seq::empty(),
    };
    fg + bg + utf8(c.glyph)
}

/// Appends the decimal digits of `n`.
pub fn push_decimal(out: &mut Vec<u8>, n: u64)
    ensures
        final(out)@ == old(out)@ + decimal(n as nat),
    decreases n,
{
    if n >= 10 {
        push_decimal(out, n / 10);
    }
    out.push((48 + n % 10) as u8);
    assert(final(out)@ =~= old(out)@ + decimal(n as nat));
}

/// Appends the UTF-8 encoding of `c`.
pub fn push_utf8(out: &mut Vec<u8>, c: char)
    ensures
        final(out)@ == old(out)@ + utf8(c),
{
    let v = c as u32;
    if v < 0x80 {
        out.push(v as u8);
    } else if v < 0x800 {
        out.push((0xc0 + v / 64) as u8);
        out.push((0x80 + v % 64) as u8);
    } else if v < 0x10000 {
        out.push((0xe0 + v / 4096) as u8);
        out.push((0x80 + (v / 64) % 64) as u8);
        out.push((0x80 + v % 64) as u8);
    } else {
        out.push((0xf0 + v / 262144) as u8);
        out.push((0x80 + (v / 4096) % 64) as u8);
        out.push((0x80 + (v / 64) % 64) as u8);
        out.push((0x80 + v % 64) as u8);
    }
    assert(final(out)@ =~= old(out)@ + utf8(c));
}

/// Appends `ESC [ code ; 2 ; r ; g ; b m`.
pub fn push_sgr_rgb(out: &mut Vec<u8>, code: u64, c: Rgb)
    ensures
        final(out)@ == old(out)@ + sgr_rgb(code as nat, c),
{
    out.push(27);
    out.push(91);
    push_decimal(out, code);
    out.push(59);
    out.push(50);
    out.push(59);
    push_decimal(out, c.0 as u64);
    out.push(59);
    push_decimal(out, c.1 as u64);
    out.push(59);
    push_decimal(out, c.2 as u64);
    out.push(109);
    assert(final(out)@ =~= old(out)@ + sgr_rgb(code as nat, c));
}

pub fn push_reset(out: &mut Vec<u8>)
    ensures
        final(out)@ == old(out)@ + sgr_reset(),
{
    out.push(27);
    out.push(91);
    out.push(48);
    out.push(109);
    assert(final(out)@ =~= old(out)@ + sgr_reset());
}

/// Appends the bytes that draw `c`.
pub fn push_cell(out: &mut Vec<u8>, c: StyledCell)
    ensures
        final(out)@ == old(out)@ + cell_bytes(c),
{
    let ghost start = out@;
    match c.fg {
        Some(rgb) => push_sgr_rgb(out, 38, rgb),
        None => push_reset(out),
    }
    match c.bg {
        Some(rgb) => push_sgr_rgb(out, 48, rgb),
        None => {},
    }
    push_utf8(out, c.glyph);
    assert(out@ =~= start + cell_bytes(c));
}

} // verus!
