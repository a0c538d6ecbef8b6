//! Plain RGBA rasters as a pixel source, and the sizes an image is drawn at.
use vstd::prelude::*;
use crate::pixel::Pixel;

verus! {

/// The pixel at `(x, y)` of a row-major RGBA raster `width` pixels wide.
pub open spec fn rgba_at(raw: Seq<u8>, width: u32, x: u32, y: u32) -> Pixel {
    let i = (y * width + x) * 4;
    (raw[i], raw[i + 1], raw[i + 2], raw[i + 3])
}

/// Reads the pixel at `(x, y)` of a row-major RGBA raster.
pub fn rgba_pixel(raw: &Vec<u8>, width: u32, height: u32, x: u32, y: u32) -> (r: Pixel)
    requires
        raw@.len() >= 4 * width * height,
        x < width,
        y < height,
    ensures
        r == rgba_at(raw@, width, x, y),
{
    let len = raw.len();
    proof {
        assert((y * width + x) * 4 + 4 <= 4 * width * height) by (nonlinear_arith)
            requires
                x < width,
                y < height,
        ;
        assert(y * width <= (y * width + x) * 4) by (nonlinear_arith);
    }
    let row: usize = y as usize * width as usize;
    let i: usize = (row + x as usize) * 4;
    (raw[i], raw[i + 1], raw[i + 2], raw[i + 3])
}

/// The height that keeps an image's aspect ratio at `width` pixels wide,
/// rounded down: `img_height * width / (img_width as int)`. `None` for an image
/// without width, or when the height does not fit in 32 bits.
pub fn scaled_height(img_width: u32, img_height: u32, width: u32) -> (r: Option<u32>)
    ensures
        r == (if img_width == 0 || img_height * width / (img_width as int) > u32::MAX {
            None
        } else {
            Some((img_height * width / (img_width as int)) as u32)
        }),
{
    if img_width == 0 {
        return None;
    }
    proof {
        assert(img_height * width <= 0xffff_ffff * 0xffff_ffff) by (nonlinear_arith)
            requires
                img_height <= 0xffff_ffff,
                width <= 0xffff_ffff,
        ;
    }
    let h: u64 = img_height as u64 * width as u64 / img_width as u64;
    if h > u32::MAX as u64 {
        None
    } else {
        Some(h as u32)
    }
}

/// The width at which an image fills a terminal of `columns` x `rows`
/// characters (8 x 16 pixels each) without running past its right edge:
/// the width that keeps the aspect ratio at the terminal's full height,
/// capped at the terminal's width. `None` for an image without height, or
/// when the width does not fit in 32 bits.
pub open spec fn fitting_width(img_width: u32, img_height: u32, columns: nat, rows: nat) -> Option<
    u32,
> {
    if img_height == 0 {
        None
    } else {
        let full: int = img_width * (rows * 16) / (img_height as int);
        let w: int = if full > columns * 8 {
            (columns * 8) as int
        } else {
            full
        };
        if w > u32::MAX {
            None
        } else {
            Some(w as u32)
        }
    }
}

pub fn fit_width(img_width: u32, img_height: u32, columns: usize, rows: usize) -> (r: Option<u32>)
    ensures
        r == fitting_width(img_width, img_height, columns as nat, rows as nat),
{
    if img_height == 0 {
        return None;
    }
    let term_width: u128 = columns as u128 * 8;
    let term_height: u128 = rows as u128 * 16;
    proof {
        assert(img_width * term_height <= 0xffff_ffff * (0xffff_ffff_ffff_ffff * 16)) by (nonlinear_arith)
            requires
                img_width <= 0xffff_ffff,
                term_height <= 0xffff_ffff_ffff_ffff * 16,
        ;
    }
    let full: u128 = img_width as u128 * term_height / img_height as u128;
    let w: u128 = if full > term_width {
        term_width
    } else {
        full
    };
    if w > u32::MAX as u128 {
        None
    } else {
        Some(w as u32)
    }
}

} // verus!
