//! Renders a grid of RGBA pixels as Unicode block glyphs coloured with ANSI
//! truecolor escapes, one glyph for every 8x16 pixel cell.
//!
//! The renderer reads its pixels through a pixel source: a closure from
//! coordinates to `(r, g, b, a)` that must answer every coordinate of the
//! image and depend on nothing else. Each cell is sampled on an 8x8 grid,
//! thresholded at its mean greyscale into a 64-bit coverage pattern, matched
//! against a catalog of glyph templates, and drawn in two colours taken from
//! the quartiles of its diagonal samples.
pub mod ansi;
pub mod bands;
pub mod bits;
pub mod catalog;
pub mod frame;
pub mod laws;
pub mod matcher;
pub mod pixel;
pub mod raster;
pub mod sampler;

pub use ansi::{Rgb, StyledCell, push_cell, style_cell};
pub use bands::{assemble_bands, band_rows, pool_size, render_band, worker_count};
pub use bits::{bit_count, find_closest_group, pattern_distance};
pub use catalog::{Catalog, GlyphEntry, glyph_templates};
pub use frame::{
    render, render_cell, render_write_eol_relative_buffer, render_write_eol_with_write,
    render_write_eol_with_write_with_restart_start_of_line,
};
pub use matcher::match_glyph;
pub use pixel::{Pixel, greyscale};
pub use raster::{fit_width, rgba_pixel, scaled_height};
pub use sampler::{CellStats, analyze_cell, sample_cell};
