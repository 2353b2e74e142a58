use crt_phosphor::buffer::{Image, Rgb};
use crt_phosphor::mask::{apply_mask, classify_pixel, mask_channel, Stripe};

fn solid_image(width: usize, height: usize, r: u8, g: u8, b: u8) -> Image {
    let mut data: Vec<u8> = Vec::new();
    for _ in 0..width * height {
        data.push(r);
        data.push(g);
        data.push(b);
    }
    Image { width, height, data }
}

fn pixel_at(img: &Image, x: usize, y: usize) -> (u8, u8, u8) {
    let base = (y * img.width + x) * 3;
    (img.data[base], img.data[base + 1], img.data[base + 2])
}

fn red() -> Rgb {
    Rgb { r: 255, g: 0, b: 0 }
}

fn green() -> Rgb {
    Rgb { r: 0, g: 255, b: 0 }
}

fn blue() -> Rgb {
    Rgb { r: 0, g: 0, b: 255 }
}

#[test]
fn mask_center_of_red_third() {
    // pixel_size = 30: gap = round(0.05 * 30) = 2, red third is 2 < gx < 8.
    // A pixel at the center of the red third with source red 200 keeps
    // floor(200 * 255 / 256) = 199 in the red channel and 0 elsewhere.
    let mut img = solid_image(30, 30, 200, 131, 77);
    apply_mask(&mut img, 30, red(), green(), blue(), 40);
    assert_eq!(pixel_at(&img, 5, 15), (199, 0, 0));
}

#[test]
fn mask_green_and_blue_thirds() {
    let mut img = solid_image(30, 30, 10, 200, 208);
    apply_mask(&mut img, 30, red(), green(), blue(), 40);
    // green third: 12 < gx < 18; driven by the source green channel.
    assert_eq!(pixel_at(&img, 15, 15), (0, 199, 0));
    // blue third: 22 < gx < 28; driven by the source blue channel.
    assert_eq!(pixel_at(&img, 25, 15), (0, 0, 207));
}

#[test]
fn mask_gutter_pixels_black() {
    let mut img = solid_image(30, 30, 200, 200, 200);
    apply_mask(&mut img, 30, red(), green(), blue(), 40);
    // vertical gutters between the thirds
    assert_eq!(pixel_at(&img, 0, 15), (0, 0, 0));
    assert_eq!(pixel_at(&img, 2, 15), (0, 0, 0));
    assert_eq!(pixel_at(&img, 10, 15), (0, 0, 0));
    assert_eq!(pixel_at(&img, 20, 15), (0, 0, 0));
    assert_eq!(pixel_at(&img, 29, 15), (0, 0, 0));
    // horizontal gutters at the top and bottom of the cell
    assert_eq!(pixel_at(&img, 5, 0), (0, 0, 0));
    assert_eq!(pixel_at(&img, 5, 2), (0, 0, 0));
    assert_eq!(pixel_at(&img, 5, 28), (0, 0, 0));
}

#[test]
fn mask_staggered_column_offset() {
    // x = 35 lies in the second column band (35 mod 60 > 30), so its cells are
    // shifted down by 15 rows: y = 0 maps to gy = 15 (active), y = 14 to
    // gy = 29 (bottom gutter).
    let mut img = solid_image(60, 30, 200, 0, 0);
    apply_mask(&mut img, 30, red(), green(), blue(), 40);
    assert_eq!(pixel_at(&img, 35, 0), (199, 0, 0));
    assert_eq!(pixel_at(&img, 35, 14), (0, 0, 0));
}

#[test]
fn classify_pixel_regions() {
    // pixel_size 30: gap 2, thirds at 10 and 20
    assert_eq!(classify_pixel(5, 15, 30), Stripe::Red);
    assert_eq!(classify_pixel(15, 15, 30), Stripe::Green);
    assert_eq!(classify_pixel(25, 15, 30), Stripe::Blue);
    assert_eq!(classify_pixel(0, 15, 30), Stripe::Gutter);
    assert_eq!(classify_pixel(10, 15, 30), Stripe::Gutter);
    assert_eq!(classify_pixel(5, 1, 30), Stripe::Gutter);
    // the staggered second column band
    assert_eq!(classify_pixel(35, 0, 30), Stripe::Red);
    assert_eq!(classify_pixel(35, 14, 30), Stripe::Gutter);
}

#[test]
fn mask_saturation_boundary() {
    // amplification 40: a scaled product of 216 saturates, 215 does not.
    assert_eq!(230 * 240 / 256, 215);
    assert_eq!(mask_channel(230, 240, 40), 215);
    assert_eq!(232 * 239 / 256, 216);
    assert_eq!(mask_channel(232, 239, 40), 255);
    assert_eq!(mask_channel(255, 255, 40), 255);
    assert_eq!(mask_channel(200, 255, 40), 199);
    assert_eq!(mask_channel(200, 0, 40), 0);
}

#[test]
fn mask_cross_channel_routing() {
    // A red stripe with a tinted representation routes energy into other
    // channels: repr (10, 0, 200) and source red 200 give
    // (floor(200*10/256), 0, floor(200*200/256)) = (7, 0, 156).
    let tinted = Rgb { r: 10, g: 0, b: 200 };
    let mut img = solid_image(30, 30, 200, 55, 66);
    apply_mask(&mut img, 30, tinted, green(), blue(), 40);
    assert_eq!(pixel_at(&img, 5, 15), (7, 0, 156));
}

#[test]
fn mask_deterministic_over_equal_buffers() {
    let mut a = solid_image(40, 25, 0, 0, 0);
    for i in 0..a.data.len() {
        a.data[i] = ((i * 37 + 11) % 256) as u8;
    }
    let b = Image { width: a.width, height: a.height, data: a.data.clone() };
    let mut b = b;
    apply_mask(&mut a, 12, red(), green(), blue(), 40);
    apply_mask(&mut b, 12, red(), green(), blue(), 40);
    assert_eq!(a.data, b.data);
}

#[test]
fn mask_degenerate_cell_all_black() {
    // pixel_size = 1 collapses every stripe to zero width: the whole image
    // becomes gutter.
    let mut img = solid_image(8, 8, 255, 255, 255);
    apply_mask(&mut img, 1, red(), green(), blue(), 40);
    assert!(img.data.iter().all(|&v| v == 0));
}
