//! Pixels, their greyscale, and the pixel source that the renderer reads.
use vstd::prelude::*;

verus! {

/// Red, green, blue and alpha; an alpha of 0 is fully transparent.
pub type Pixel = (u8, u8, u8, u8);

/// Unnormalised greyscale: `r + g + b`, or 0 for a transparent pixel.
pub open spec fn grey(p: Pixel) -> nat {
    if p.3 == 0 {
        0
    } else {
        (p.0 + p.1 + p.2) as nat
    }
}

pub fn greyscale(p: Pixel) -> (r: usize)
    ensures
        r == grey(p),
{
    if p.3 == 0 {
        0
    } else {
        p.0 as usize + p.1 as usize + p.2 as usize
    }
}

/// The source answers every coordinate of `[0, width) x [0, height)`.
pub open spec fn covers<F: Fn(u32, u32) -> Pixel>(f: &F, width: u32, height: u32) -> bool {
    forall|x: u32, y: u32| x < width && y < height ==> call_requires(*f, (x, y))
}

/// The source is a function of the coordinates alone.
pub open spec fn is_pure<F: Fn(u32, u32) -> Pixel>(f: &F) -> bool {
    forall|x: u32, y: u32, p: Pixel, q: Pixel|
        call_ensures(*f, (x, y), p) && call_ensures(*f, (x, y), q) ==> p == q
}

/// The pixel that the source gives at `(x, y)`.
pub open spec fn pixel_at<F: Fn(u32, u32) -> Pixel>(f: &F, x: u32, y: u32) -> Pixel {
    choose|p: Pixel| call_ensures(*f, (x, y), p)
}

/// Reads the source at `(x, y)`.
pub fn read_pixel<F: Fn(u32, u32) -> Pixel>(f: &F, x: u32, y: u32) -> (r: Pixel)
    requires
        call_requires(*f, (x, y)),
        is_pure(f),
    ensures
        r == pixel_at(f, x, y),
{
    let p = f(x, y);
    p
}

} // verus!
