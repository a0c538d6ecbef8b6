use blockish::{analyze_cell, fit_width, greyscale, render, rgba_pixel, sample_cell, scaled_height};

#[test]
fn rgba_pixel_reads_row_major() {
    let raw: Vec<u8> = (0..24u8).collect();
    assert_eq!(rgba_pixel(&raw, 3, 2, 0, 0), (0, 1, 2, 3));
    assert_eq!(rgba_pixel(&raw, 3, 2, 2, 0), (8, 9, 10, 11));
    assert_eq!(rgba_pixel(&raw, 3, 2, 1, 1), (16, 17, 18, 19));
}

#[test]
fn render_reads_a_raster() {
    let mut raw: Vec<u8> = Vec::new();
    for _y in 0..16 {
        for x in 0..16 {
            if x < 8 {
                raw.extend_from_slice(&[200, 100, 50, 255]);
            } else {
                raw.extend_from_slice(&[7, 42, 9, 255]);
            }
        }
    }
    let out = render(16, 16, &|x: u32, y: u32| rgba_pixel(&raw, 16, 16, x, y), None);
    assert_eq!(
        String::from_utf8(out).unwrap(),
        "\x1b[0G\x1b[38;2;200;100;50m\x1b[48;2;200;100;50m\u{2588}\
         \x1b[38;2;7;42;9m\x1b[48;2;7;42;9m\u{2588}\x1b[0m\n"
    );
}

#[test]
fn scaled_height_keeps_aspect_ratio() {
    assert_eq!(scaled_height(100, 50, 80), Some(40));
    assert_eq!(scaled_height(3, 10, 8), Some(26));
    assert_eq!(scaled_height(0, 10, 8), None);
    assert_eq!(scaled_height(1, u32::MAX, 2), None);
}

#[test]
fn fit_width_caps_at_terminal_width() {
    // 80x24 terminal: 640 pixels wide, 384 high.
    assert_eq!(fit_width(100, 100, 80, 24), Some(384));
    assert_eq!(fit_width(400, 100, 80, 24), Some(640));
    assert_eq!(fit_width(10, 0, 80, 24), None);
    assert_eq!(fit_width(u32::MAX, 1, usize::MAX, 1), None);
}

#[test]
fn greyscale_ignores_transparent_pixels() {
    assert_eq!(greyscale((255, 255, 255, 255)), 765);
    assert_eq!(greyscale((255, 255, 255, 0)), 0);
    assert_eq!(greyscale((1, 2, 3, 1)), 6);
}

#[test]
fn sampler_reads_even_rows_and_quartiles() {
    // Odd rows are never read: make them black, even rows a gradient by row.
    let src = |x: u32, y: u32| {
        if y % 2 == 1 { (0, 0, 0, 255) } else { ((y * 10) as u8, x as u8, 0, 255) }
    };
    let s = sample_cell(&src, 16, 32, 1, 1);
    assert_eq!(s.len(), 64);
    assert_eq!(s[0], (160, 8, 0, 255));
    assert_eq!(s[9], (180, 9, 0, 255));
    assert_eq!(s[63], (44, 15, 0, 255));
    let st = analyze_cell(&s);
    // Diagonal greys: 168, 189, 210, 231, 252, then 17, 38, 59 once red wraps.
    assert_eq!(st.low, s[63]);
    assert_eq!(st.high, s[27]);
}
