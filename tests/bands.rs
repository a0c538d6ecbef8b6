use blockish::{
    assemble_bands, band_rows, pool_size, render, render_band, render_write_eol_relative_buffer, worker_count,
};

fn pattern(x: u32, y: u32) -> (u8, u8, u8, u8) {
    let v = x.wrapping_mul(2654435761).wrapping_add(y.wrapping_mul(40503)) ^ (x * y);
    (v as u8, (v >> 8) as u8, (v >> 16) as u8, if (v >> 24) % 5 == 0 { 0 } else { 255 })
}

#[test]
fn bands_cover_the_height_without_gaps() {
    assert_eq!(band_rows(0, 3, 50), (0, 16));
    assert_eq!(band_rows(1, 3, 50), (16, 33));
    assert_eq!(band_rows(2, 3, 50), (33, 50));
    for count in 1..9u32 {
        for height in [0u32, 1, 15, 16, 47, 100, 333] {
            let mut next = 0;
            for i in 0..count {
                let (start, end) = band_rows(i, count, height);
                assert_eq!(start, next);
                assert!(start <= end);
                next = end;
            }
            assert_eq!(next, height);
        }
    }
}

#[test]
fn bands_in_any_order_match_one_render() {
    for count in 1..6u32 {
        for height in [16u32, 40, 64, 97] {
            let mut reports: Vec<(u32, Vec<u8>)> = Vec::new();
            for i in (0..count).rev() {
                reports.push((i, render_band(24, height, &pattern, true, i, count)));
            }
            let assembled = assemble_bands(&reports).unwrap();
            assert_eq!(assembled, render(24, height, &pattern, None));
        }
    }
}

#[test]
fn assembling_with_a_missing_band_fails() {
    let reports = vec![(0u32, vec![1u8]), (2u32, vec![2u8])];
    assert_eq!(assemble_bands(&reports), None);
}

#[test]
fn assembling_orders_by_ordinal() {
    let reports = vec![(2u32, vec![5u8, 6]), (0u32, vec![1u8]), (1u32, vec![]), (3u32, vec![9u8])];
    assert_eq!(assemble_bands(&reports), Some(vec![1u8, 5, 6, 9]));
}

#[test]
fn fixed_buffer_render_reports_bytes_written() {
    let whole = {
        let mut v: Vec<u8> = Vec::new();
        blockish::render_write_eol_with_write(16, &pattern, true, 0, 32, &mut v, None);
        v
    };
    let mut buf = vec![0xAAu8; whole.len() + 3];
    let n = render_write_eol_relative_buffer(16, &pattern, true, 0, 32, &mut buf);
    assert_eq!(n, Some(whole.len() as u64));
    assert_eq!(&buf[..whole.len()], &whole[..]);
    assert_eq!(&buf[whole.len()..], &[0xAA, 0xAA, 0xAA]);
    assert_eq!(whole.last(), Some(&0u8));
}

#[test]
fn fixed_buffer_too_small_is_left_alone() {
    let mut buf = vec![7u8; 10];
    let n = render_write_eol_relative_buffer(16, &pattern, true, 0, 32, &mut buf);
    assert_eq!(n, None);
    assert_eq!(buf, vec![7u8; 10]);
}

#[test]
fn pool_has_two_workers_per_cpu() {
    assert_eq!(pool_size(1), 2);
    assert_eq!(pool_size(6), 12);
    assert_eq!(pool_size(usize::MAX), u32::MAX);
    let n = worker_count();
    assert!(n >= 2);
    assert_eq!(n % 2, 0);
}
