use blockish::{render, render_write_eol_with_write, render_write_eol_with_write_with_restart_start_of_line};

fn text(bytes: &[u8]) -> String {
    String::from_utf8(bytes.to_vec()).unwrap()
}

#[test]
fn all_white_cell_is_a_white_full_block() {
    let out = render(8, 16, &|_x: u32, _y: u32| (255, 255, 255, 255), None);
    assert_eq!(
        text(&out),
        "\x1b[0G\x1b[38;2;255;255;255m\x1b[48;2;255;255;255m\u{2588}\x1b[0m\n"
    );
}

#[test]
fn top_white_bottom_black_is_an_upper_half_block() {
    let src = |_x: u32, y: u32| if y < 8 { (255, 255, 255, 255) } else { (0, 0, 0, 255) };
    let out = render(8, 16, &src, None);
    assert_eq!(
        text(&out),
        "\x1b[0G\x1b[38;2;255;255;255m\x1b[48;2;0;0;0m\u{2580}\x1b[0m\n"
    );
}

#[test]
fn transparent_cell_is_a_reset_space() {
    let out = render(8, 16, &|x: u32, y: u32| ((x * 30) as u8, (y * 15) as u8, 7, 0), None);
    assert_eq!(text(&out), "\x1b[0G\x1b[0m \x1b[0m\n");
}

#[test]
fn two_cell_row_red_over_blue_then_green() {
    let src = |x: u32, y: u32| {
        if x < 8 {
            if y < 8 { (255, 0, 0, 255) } else { (0, 0, 128, 255) }
        } else {
            (0, 255, 0, 255)
        }
    };
    let out = render(16, 16, &src, None);
    assert_eq!(
        text(&out),
        "\x1b[0G\x1b[38;2;255;0;0m\x1b[48;2;0;0;128m\u{2580}\
         \x1b[38;2;0;255;0m\x1b[48;2;0;255;0m\u{2588}\x1b[0m\n"
    );
}

#[test]
fn equal_greyscales_keep_diagonal_order() {
    // Pure red and pure blue have the same greyscale: every sample reaches
    // the mean, and the quartiles are the diagonal's third and seventh samples.
    let src = |_x: u32, y: u32| if y < 8 { (255, 0, 0, 255) } else { (0, 0, 255, 255) };
    let out = render(8, 16, &src, None);
    assert_eq!(
        text(&out),
        "\x1b[0G\x1b[38;2;0;0;255m\x1b[48;2;255;0;0m\u{2588}\x1b[0m\n"
    );
}

#[test]
fn transparent_background_omits_background_escape() {
    // Upper half opaque grey, lower half transparent: the pattern is the upper
    // half block, drawn without a background colour.
    let src = |_x: u32, y: u32| if y < 8 { (10, 20, 30, 255) } else { (0, 0, 0, 0) };
    let out = render(8, 16, &src, None);
    assert_eq!(text(&out), "\x1b[0G\x1b[38;2;10;20;30m\u{2580}\x1b[0m\n");
}

#[test]
fn width_gives_one_cell_per_eight_pixels() {
    let out = render(40, 32, &|_x: u32, _y: u32| (1, 2, 3, 255), None);
    let s = text(&out);
    assert_eq!(s.matches('\u{2588}').count(), 10);
    assert_eq!(s.matches('\n').count(), 2);
    let line = "\x1b[0G".to_string() + &"\x1b[38;2;1;2;3m\x1b[48;2;1;2;3m\u{2588}".repeat(5) + "\x1b[0m\n";
    assert_eq!(s, line.repeat(2));
}

#[test]
fn partial_cells_are_not_drawn() {
    let out = render(15, 31, &|_x: u32, _y: u32| (9, 9, 9, 255), None);
    assert_eq!(text(&out).matches('\u{2588}').count(), 1);
}

#[test]
fn sink_gets_end_marker_and_positions() {
    let mut sink: Vec<u8> = b"ab".to_vec();
    render_write_eol_with_write(8, &|_x: u32, _y: u32| (255, 255, 255, 255), false, 0, 32, &mut sink, Some((3, 5)));
    let cell = "\x1b[38;2;255;255;255m\x1b[48;2;255;255;255m\u{2588}";
    let expected = format!("ab\x1b[0G\x1b[5;3H{}\x1b[0G\x1b[6;3H{}\0", cell, cell);
    assert_eq!(text(&sink), expected);
}

#[test]
fn without_restart_lines_start_bare() {
    let mut sink: Vec<u8> = Vec::new();
    render_write_eol_with_write_with_restart_start_of_line(
        8,
        &|_x: u32, _y: u32| (0, 0, 0, 0),
        true,
        false,
        16,
        48,
        &mut sink,
        None,
    );
    assert_eq!(text(&sink), "\x1b[0m \x1b[0m\n\x1b[0m \x1b[0m\n\0");
}

#[test]
fn empty_row_range_writes_only_the_marker() {
    let mut sink: Vec<u8> = Vec::new();
    render_write_eol_with_write(8, &|_x: u32, _y: u32| (0, 0, 0, 255), true, 20, 30, &mut sink, None);
    assert_eq!(sink, vec![0u8]);
}
