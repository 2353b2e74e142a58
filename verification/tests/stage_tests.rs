use crt_phosphor::buffer::Image;
use crt_phosphor::scanline::apply_scanlines;
use crt_phosphor::stages::{
    brighten, check_configuration, encode_image, finish_frame, resize_image, upsample,
    PipelineError,
};

fn solid_white(width: usize, height: usize) -> Image {
    Image { width, height, data: vec![255u8; width * height * 3] }
}

#[test]
fn resize_changes_dimensions() {
    let img = solid_white(4, 4);
    let out = resize_image(&img, 8, 6);
    assert_eq!(out.width, 8);
    assert_eq!(out.height, 6);
    assert_eq!(out.data.len(), 8 * 6 * 3);
    // a solid image resamples to the same solid color
    assert!(out.data.iter().all(|&v| v == 255));
}

#[test]
fn resize_same_dimensions_keeps_pixels() {
    let mut img = solid_white(4, 3);
    img.data[5] = 17;
    let out = resize_image(&img, 4, 3);
    assert_eq!(out.data, img.data);
}

#[test]
fn upsample_scales_both_dimensions() {
    let img = solid_white(4, 3);
    let out = upsample(&img, 2);
    assert_eq!(out.width, 8);
    assert_eq!(out.height, 6);
    assert_eq!(out.data.len(), 8 * 6 * 3);
}

#[test]
fn brighten_adds_and_clamps() {
    let mut img = Image { width: 1, height: 2, data: vec![0, 100, 250, 5, 30, 255] };
    brighten(&mut img, 10);
    assert_eq!(img.data, vec![10, 110, 255, 15, 40, 255]);
    brighten(&mut img, -20);
    assert_eq!(img.data, vec![0, 90, 235, 0, 20, 235]);
}

#[test]
fn encode_produces_png_bytes() {
    let img = solid_white(2, 2);
    let bytes = encode_image(&img).unwrap();
    // the PNG signature
    assert_eq!(&bytes[..8], &[137u8, 80, 78, 71, 13, 10, 26, 10]);
    assert_ne!(bytes, img.data);
}

#[test]
fn encode_is_deterministic() {
    let mut img = solid_white(3, 2);
    img.data[4] = 9;
    let a = encode_image(&img).unwrap();
    let b = encode_image(&img).unwrap();
    assert_eq!(a, b);
}

#[test]
fn configuration_rejects_degenerate_parameters() {
    assert_eq!(check_configuration(4, 4, 12, 2, 0), Ok(()));
    assert_eq!(check_configuration(4, 4, 12, 2, -1000), Ok(()));
    let invalid = Err(PipelineError::InvalidConfiguration);
    assert_eq!(check_configuration(4, 4, 0, 2, 0), invalid);
    assert_eq!(check_configuration(4, 4, 12, 0, 0), invalid);
    assert_eq!(check_configuration(0, 4, 12, 2, 0), invalid);
    assert_eq!(check_configuration(4, 0, 12, 2, 0), invalid);
    assert_eq!(check_configuration(4, 4, 12, 2, i32::MAX), invalid);
    assert_eq!(check_configuration(usize::MAX / 2, 4, 12, 2, 0), invalid);
    assert_eq!(check_configuration(4, 4, usize::MAX, 2, 0), invalid);
}

#[test]
fn finish_frame_matches_separate_stages() {
    let mut img = solid_white(6, 4);
    for i in 0..img.data.len() {
        img.data[i] = ((i * 31 + 7) % 256) as u8;
    }
    let other = Image { width: 6, height: 4, data: img.data.clone() };
    let mut rows: Vec<Vec<u8>> = Vec::new();
    for y in 0..4usize {
        let mut row: Vec<u8> = Vec::new();
        for v in 0..256usize {
            row.push((v * (7 + y) / 10).min(v) as u8);
        }
        rows.push(row);
    }
    let combined = finish_frame(img, &rows, 3, 2, 7);
    let mut work = other;
    apply_scanlines(&mut work, &rows);
    let mut separate = resize_image(&work, 3, 2);
    brighten(&mut separate, 7);
    assert_eq!(combined.width, 3);
    assert_eq!(combined.height, 2);
    assert_eq!(combined.data, separate.data);
}

#[test]
fn encode_round_trips_through_decoder() {
    let mut img = solid_white(3, 3);
    for i in 0..img.data.len() {
        img.data[i] = ((i * 41 + 3) % 256) as u8;
    }
    let bytes = encode_image(&img).unwrap();
    let decoded = image::load_from_memory(&bytes).unwrap().into_rgb8();
    assert_eq!(decoded.dimensions(), (3, 3));
    assert_eq!(decoded.into_raw(), img.data);
}
