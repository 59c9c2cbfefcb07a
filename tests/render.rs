use mandelbrot::partition::band_layout;
use mandelbrot::render::{intensity, render_band, ITERATION_LIMIT};

#[test]
fn shade_of_escape_times() {
    assert_eq!(intensity(Some(0)), 255);
    assert_eq!(intensity(Some(1)), 254);
    assert_eq!(intensity(Some(254)), 1);
    assert_eq!(intensity(Some(ITERATION_LIMIT)), 0);
    assert_eq!(intensity(None), 0);
}

#[test]
fn band_is_filled_row_major() {
    let mut pixels = vec![0u8; 6];
    render_band(&mut pixels, 3, 2, |col, row| (10 * row + col) as u8);
    assert_eq!(pixels, vec![0, 1, 2, 10, 11, 12]);
}

#[test]
fn empty_band_is_left_alone() {
    let mut pixels: Vec<u8> = Vec::new();
    render_band(&mut pixels, 5, 0, |_, _| 7);
    assert!(pixels.is_empty());
}

fn render_with(width: usize, height: usize, workers: usize) -> Vec<u8> {
    let mut pixels = vec![0u8; width * height];
    let mut rest: &mut [u8] = &mut pixels;
    for band in band_layout(height, workers) {
        let (chunk, tail) = std::mem::take(&mut rest).split_at_mut(band.rows * width);
        let top = band.top;
        render_band(chunk, width, band.rows, |col, row| ((col * 7 + (top + row) * 13) % 251) as u8);
        rest = tail;
    }
    assert!(rest.is_empty());
    pixels
}

#[test]
fn worker_count_does_not_change_the_image() {
    let single = render_with(100, 100, 1);
    for workers in [2, 4, 8, 13] {
        assert_eq!(render_with(100, 100, workers), single);
    }
    assert_eq!(single.len(), 100 * 100);
    assert_eq!(single[101], ((7 + 13) % 251) as u8);
}
