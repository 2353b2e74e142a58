use crt_phosphor::buffer::Image;
use crt_phosphor::scanline::apply_scanlines;

fn varied_image(width: usize, height: usize) -> Image {
    let mut data: Vec<u8> = Vec::new();
    for i in 0..width * height * 3 {
        data.push(((i * 29 + 5) % 256) as u8);
    }
    Image { width, height, data }
}

/// The per-row darkening factor of the original formula.
fn scanline_factor(count: usize, height: usize, y: usize) -> f64 {
    let density = count as f64 / height as f64;
    0.3 * (std::f64::consts::PI * density * y as f64).sin().powi(2) + 0.7
}

/// The per-row channel maps handed to the library: entry v of row y is
/// (v as f64 * factor) as u8.
fn scanline_rows(count: usize, height: usize) -> Vec<Vec<u8>> {
    let mut rows: Vec<Vec<u8>> = Vec::new();
    for y in 0..height {
        let factor = scanline_factor(count, height, y);
        let mut row: Vec<u8> = Vec::new();
        for v in 0..256usize {
            row.push((v as f64 * factor) as u8);
        }
        rows.push(row);
    }
    rows
}

#[test]
fn scanline_zero_count_uniform_factor() {
    // scanline count 0 makes the density 0, the sine term 0 on every row, and
    // the factor exactly 0.7 everywhere: all rows are darkened identically.
    let height = 4;
    let rows = scanline_rows(0, height);
    for y in 0..height {
        assert_eq!(scanline_factor(0, height, y), 0.7);
        assert_eq!(rows[y], rows[0]);
    }
    assert_eq!(rows[0][255], 178);
    assert_eq!(rows[0][100], 70);
    assert_eq!(rows[0][128], 89);
    assert_eq!(rows[0][0], 0);
    let mut img = varied_image(3, height);
    let before = img.data.clone();
    apply_scanlines(&mut img, &rows);
    for i in 0..before.len() {
        assert_eq!(img.data[i], (before[i] as f64 * 0.7) as u8);
    }
}

#[test]
fn scanline_factor_bounds() {
    // The factor stays in [0.7, 1.0] on every row, and equals 0.7 exactly
    // where density * y is an integer (here y = 0).
    let height = 8;
    for count in [0usize, 1, 2, 3, 8] {
        for y in 0..height {
            let f = scanline_factor(count, height, y);
            assert!((0.7..=1.0).contains(&f));
        }
        assert_eq!(scanline_factor(count, height, 0), 0.7);
    }
    // density * y = 1 at count 2, height 8, y 4: the sine term vanishes
    assert_eq!(scanline_factor(2, height, 4), 0.7);
}

#[test]
fn scanline_applies_row_maps_exactly() {
    let height = 8;
    let rows = scanline_rows(2, height);
    let mut img = varied_image(5, height);
    let before = img.data.clone();
    apply_scanlines(&mut img, &rows);
    for y in 0..height {
        for x in 0..5 {
            for c in 0..3 {
                let i = (y * 5 + x) * 3 + c;
                assert_eq!(img.data[i], rows[y][before[i] as usize]);
                let expected = (before[i] as f64 * scanline_factor(2, height, y)) as u8;
                assert_eq!(img.data[i], expected);
            }
        }
    }
}

#[test]
fn scanline_never_brightens() {
    let height = 16;
    let rows = scanline_rows(5, height);
    let mut img = varied_image(4, height);
    let before = img.data.clone();
    apply_scanlines(&mut img, &rows);
    for i in 0..before.len() {
        assert!(img.data[i] <= before[i]);
    }
}

#[test]
fn scanline_keeps_seventy_percent_floor() {
    let height = 12;
    let rows = scanline_rows(4, height);
    let mut img = varied_image(5, height);
    let before = img.data.clone();
    apply_scanlines(&mut img, &rows);
    for i in 0..before.len() {
        assert!(img.data[i] as i32 >= 7 * before[i] as i32 / 10 - 1);
    }
}
