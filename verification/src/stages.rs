//! The pipeline stages delegated to the image-processing library: Catmull-Rom
//! resampling, additive brightening, and PNG serialization. Each outside call
//! sits in one trusted wrapper; the public functions here are verified against
//! the wrappers' contracts.

use vstd::prelude::*;
use crate::buffer::Image;
use crate::scanline::{apply_scanlines, row_mapped_data};

verus! {

/// The error kinds a pipeline run can surface. Decode and I/O failures arise
/// at the program edge that reads and writes files; an encode failure arises
/// when PNG serialization reports an error; an invalid configuration is a
/// parameter the core rejects, such as a zero stripe-cell edge.
#[derive(Clone, Copy, PartialEq, Eq, Structural, Debug)]
pub enum PipelineError {
    DecodeFailure,
    IoFailure,
    EncodeFailure,
    InvalidConfiguration,
}

/// The Catmull-Rom resampling of `data` (a `sw` by `sh` RGB8 buffer) at `tw`
/// by `th`, as the image-processing library computes it: a pure function of
/// the pixels and dimensions alone.
pub uninterp spec fn catmull_rom_resized(data: Seq<u8>, sw: int, sh: int, tw: int, th: int) -> Seq<u8>;

/// Relies on image::imageops::resize with FilterType::CatmullRom: a pure
/// resampling of the source pixels at the requested dimensions, returned as
/// a buffer of exactly those dimensions.
#[verifier::external_body]
fn resize_raw(data: &Vec<u8>, sw: usize, sh: usize, tw: usize, th: usize) -> (r: Vec<u8>)
    requires
        data@.len() == sw * sh * 3,
        1 <= sw <= u32::MAX,
        1 <= sh <= u32::MAX,
        1 <= tw <= u32::MAX,
        1 <= th <= u32::MAX,
        16 * sw * th <= usize::MAX,
        tw * th * 3 <= usize::MAX,
    ensures
        r@.len() == tw * th * 3,
        r@ == catmull_rom_resized(data@, sw as int, sh as int, tw as int, th as int),
{
    let buf: image::ImageBuffer<image::Rgb<u8>, Vec<u8>> =
        image::ImageBuffer::from_raw(sw as u32, sh as u32, data.clone()).unwrap();
    image::imageops::resize(&buf, tw as u32, th as u32, image::imageops::FilterType::CatmullRom)
        .into_raw()
}

/// One 8-bit channel after an additive brightness offset: the sum clamped to
/// the representable range.
pub open spec fn brightened_channel(v: u8, offset: int) -> u8 {
    if v + offset < 0 {
        0u8
    } else if v + offset > 255 {
        255u8
    } else {
        (v + offset) as u8
    }
}

/// The whole buffer after an additive brightness offset.
pub open spec fn brightened_data(data: Seq<u8>, offset: int) -> Seq<u8> {
    Seq::new(data.len(), |i: int| brightened_channel(data[i], offset))
}

/// Relies on image::imageops::colorops::brighten_in_place: each 8-bit channel
/// becomes clamp(channel + offset, 0, 255).
#[verifier::external_body]
fn brighten_raw(data: &Vec<u8>, w: usize, h: usize, offset: i32) -> (r: Vec<u8>)
    requires
        data@.len() == w * h * 3,
        w <= u32::MAX,
        h <= u32::MAX,
        offset <= i32::MAX - 255,
    ensures
        r@.len() == data@.len(),
        forall|i: int| 0 <= i < data@.len() ==> r@[i] == brightened_channel(data@[i], offset as int),
{
    let mut buf: image::ImageBuffer<image::Rgb<u8>, Vec<u8>> =
        image::ImageBuffer::from_raw(w as u32, h as u32, data.clone()).unwrap();
    image::imageops::colorops::brighten_in_place(&mut buf, offset);
    buf.into_raw()
}

/// The PNG serialization of `data` (a `w` by `h` RGB8 buffer), as the
/// image-processing library computes it with its default compression and
/// filter settings: a pure function of the pixels and dimensions alone.
pub uninterp spec fn png_encoding(data: Seq<u8>, w: int, h: int) -> Seq<u8>;

/// Relies on image::codecs::png::PngEncoder through ImageEncoder::write_image:
/// writes the RGB8 buffer as PNG bytes into an in-memory vector. With nonzero
/// dimensions, an exact-length buffer, the valid RGB8 color and depth, and an
/// in-memory sink whose writes cannot fail, the encoder has no error path
/// left, so the call always succeeds.
#[verifier::external_body]
fn encode_png_raw(data: &Vec<u8>, w: usize, h: usize) -> (r: Option<Vec<u8>>)
    requires
        data@.len() == w * h * 3,
        1 <= w <= u32::MAX,
        1 <= h <= u32::MAX,
    ensures
        r is Some,
        r matches Some(bytes) ==> bytes@ == png_encoding(data@, w as int, h as int),
{
    let mut bytes: Vec<u8> = Vec::new();
    let encoder = image::codecs::png::PngEncoder::new(&mut bytes);
    match image::ImageEncoder::write_image(
        encoder,
        data.as_slice(),
        w as u32,
        h as u32,
        image::ColorType::Rgb8,
    ) {
        Ok(()) => Some(bytes),
        Err(_) => None,
    }
}

/// Resamples `img` to `new_width` by `new_height` with the Catmull-Rom filter.
pub fn resize_image(img: &Image, new_width: usize, new_height: usize) -> (r: Image)
    requires
        img.wf(),
        1 <= img.width <= u32::MAX,
        1 <= img.height <= u32::MAX,
        1 <= new_width <= u32::MAX,
        1 <= new_height <= u32::MAX,
        16 * img.width * new_height <= usize::MAX,
        new_width * new_height * 3 <= usize::MAX,
    ensures
        r.wf(),
        r.width == new_width,
        r.height == new_height,
        r.data@ == catmull_rom_resized(
            img.data@,
            img.width as int,
            img.height as int,
            new_width as int,
            new_height as int,
        ),
{
    let data = resize_raw(&img.data, img.width, img.height, new_width, new_height);
    Image { width: new_width, height: new_height, data }
}

/// Upsamples `img` by an integer factor, the first step of the pipeline.
pub fn upsample(img: &Image, factor: usize) -> (r: Image)
    requires
        img.wf(),
        factor >= 1,
        1 <= img.width,
        1 <= img.height,
        img.width * factor <= u32::MAX,
        img.height * factor <= u32::MAX,
        16 * img.width * (img.height * factor) <= usize::MAX,
        (img.width * factor) * (img.height * factor) * 3 <= usize::MAX,
    ensures
        r.wf(),
        r.width == img.width * factor,
        r.height == img.height * factor,
        r.data@ == catmull_rom_resized(
            img.data@,
            img.width as int,
            img.height as int,
            (img.width * factor) as int,
            (img.height * factor) as int,
        ),
{
    proof {
        assert(img.width * factor >= img.width && img.height * factor >= img.height)
            by (nonlinear_arith)
            requires
                factor >= 1,
                img.width >= 1,
                img.height >= 1,
        ;
    }
    let new_width = img.width * factor;
    let new_height = img.height * factor;
    resize_image(img, new_width, new_height)
}

/// Adds `offset` to every channel of every pixel, clamping to the 8-bit range.
pub fn brighten(img: &mut Image, offset: i32)
    requires
        old(img).wf(),
        old(img).width <= u32::MAX,
        old(img).height <= u32::MAX,
        offset <= i32::MAX - 255,
    ensures
        final(img).wf(),
        final(img).width == old(img).width,
        final(img).height == old(img).height,
        forall|i: int|
            0 <= i < old(img).data@.len() ==> final(img).data@[i] == brightened_channel(
                old(img).data@[i],
                offset as int,
            ),
        final(img).data@ == brightened_data(old(img).data@, offset as int),
{
    img.data = brighten_raw(&img.data, img.width, img.height, offset);
    proof {
        assert(img.data@ =~= brightened_data(old(img).data@, offset as int));
    }
}

/// Serializes `img` as PNG bytes. On a well-formed image with nonzero
/// dimensions the in-memory encoder cannot fail, so the result is always the
/// encoding; the `EncodeFailure` arm exists only for the error surface.
pub fn encode_image(img: &Image) -> (r: Result<Vec<u8>, PipelineError>)
    requires
        img.wf(),
        1 <= img.width <= u32::MAX,
        1 <= img.height <= u32::MAX,
    ensures
        r is Ok,
        r matches Ok(bytes) ==> bytes@ == png_encoding(
            img.data@,
            img.width as int,
            img.height as int,
        ),
{
    match encode_png_raw(&img.data, img.width, img.height) {
        Some(bytes) => Ok(bytes),
        None => Err(PipelineError::EncodeFailure),
    }
}

/// A configuration the pipeline can run: positive stripe-cell edge, positive
/// upsampling factor, a non-empty image whose upsampled form every stage can
/// still address, and a brightness offset the clamp arithmetic can take.
pub open spec fn config_ok(
    width: int,
    height: int,
    pixel_size: int,
    upsampling: int,
    brightness: int,
) -> bool {
    &&& 1 <= width
    &&& 1 <= height
    &&& 1 <= pixel_size
    &&& 1 <= upsampling
    &&& width * upsampling <= u32::MAX
    &&& height * upsampling <= u32::MAX
    &&& 16 * width * (height * upsampling) <= usize::MAX
    &&& 16 * (width * upsampling) * height <= usize::MAX
    &&& (width * upsampling) * (height * upsampling) * 3 <= usize::MAX
    &&& 2 * pixel_size + 10 <= usize::MAX
    &&& height * upsampling + pixel_size <= usize::MAX
    &&& brightness <= i32::MAX - 255
}

proof fn lemma_mul_at_least(a: int, b: int)
    requires
        a >= 0,
        b >= 1,
    ensures
        a * b >= a,
{
    assert(a * b >= a) by (nonlinear_arith)
        requires
            a >= 0,
            b >= 1,
    ;
}

/// Rejects exactly the configurations the pipeline cannot run: a degenerate
/// parameter or image is an invalid configuration rather than a division by
/// zero or an overflow inside a stage.
pub fn check_configuration(
    width: usize,
    height: usize,
    pixel_size: usize,
    upsampling: usize,
    brightness: i32,
) -> (r: Result<(), PipelineError>)
    ensures
        r matches Ok(u) <==> config_ok(
            width as int,
            height as int,
            pixel_size as int,
            upsampling as int,
            brightness as int,
        ),
        r matches Err(e) ==> e == PipelineError::InvalidConfiguration,
{
    if width < 1 || height < 1 || pixel_size < 1 || upsampling < 1 {
        return Err(PipelineError::InvalidConfiguration);
    }
    if brightness > i32::MAX - 255 {
        return Err(PipelineError::InvalidConfiguration);
    }
    let up_w = match width.checked_mul(upsampling) {
        Some(v) => v,
        None => return Err(PipelineError::InvalidConfiguration),
    };
    let up_h = match height.checked_mul(upsampling) {
        Some(v) => v,
        None => return Err(PipelineError::InvalidConfiguration),
    };
    if up_w > u32::MAX as usize || up_h > u32::MAX as usize {
        return Err(PipelineError::InvalidConfiguration);
    }
    proof {
        lemma_mul_at_least(width as int, upsampling as int);
        lemma_mul_at_least(height as int, upsampling as int);
    }
    let t1 = match 16usize.checked_mul(width) {
        Some(v) => v,
        None => {
            proof {
                lemma_mul_at_least(16 * width as int, up_h as int);
            }
            return Err(PipelineError::InvalidConfiguration);
        },
    };
    if t1.checked_mul(up_h).is_none() {
        return Err(PipelineError::InvalidConfiguration);
    }
    let t2 = match 16usize.checked_mul(up_w) {
        Some(v) => v,
        None => {
            proof {
                lemma_mul_at_least(16 * up_w as int, height as int);
            }
            return Err(PipelineError::InvalidConfiguration);
        },
    };
    if t2.checked_mul(height).is_none() {
        return Err(PipelineError::InvalidConfiguration);
    }
    let t3 = match up_w.checked_mul(up_h) {
        Some(v) => v,
        None => {
            proof {
                lemma_mul_at_least(up_w as int * up_h as int, 3);
            }
            return Err(PipelineError::InvalidConfiguration);
        },
    };
    if t3.checked_mul(3).is_none() {
        return Err(PipelineError::InvalidConfiguration);
    }
    let t4 = match 2usize.checked_mul(pixel_size) {
        Some(v) => v,
        None => return Err(PipelineError::InvalidConfiguration),
    };
    if t4 > usize::MAX - 10 {
        return Err(PipelineError::InvalidConfiguration);
    }
    if up_h.checked_add(pixel_size).is_none() {
        return Err(PipelineError::InvalidConfiguration);
    }
    Ok(())
}

/// The tail of the pipeline after the second blur pass: scanline darkening,
/// the resample back to the original resolution, and the brightness offset,
/// in that order.
pub fn finish_frame(
    img: Image,
    rows: &Vec<Vec<u8>>,
    out_width: usize,
    out_height: usize,
    brightness: i32,
) -> (r: Image)
    requires
        img.wf(),
        1 <= img.width <= u32::MAX,
        1 <= img.height <= u32::MAX,
        1 <= out_width <= u32::MAX,
        1 <= out_height <= u32::MAX,
        16 * img.width * out_height <= usize::MAX,
        out_width * out_height * 3 <= usize::MAX,
        rows@.len() == img.height,
        forall|y: int| 0 <= y < rows@.len() ==> #[trigger] rows@[y]@.len() == 256,
        forall|y: int, v: int|
            0 <= y < rows@.len() && 0 <= v < 256 ==> 7 * v / 10 - 1 <= #[trigger] rows@[y]@[v]
                <= v,
        brightness <= i32::MAX - 255,
    ensures
        r.wf(),
        r.width == out_width,
        r.height == out_height,
        r.data@ == brightened_data(
            catmull_rom_resized(
                row_mapped_data(img, rows@.map_values(|row: Vec<u8>| row@)),
                img.width as int,
                img.height as int,
                out_width as int,
                out_height as int,
            ),
            brightness as int,
        ),
{
    let mut work = img;
    apply_scanlines(&mut work, rows);
    let mut out = resize_image(&work, out_width, out_height);
    brighten(&mut out, brightness);
    out
}

} // verus!
