//! The phosphor mask generator: overlays a repeating RGB-triad stripe pattern
//! onto an image, attenuating each output channel by the stripe's reference
//! color and blacking out the gutters between stripes.

use vstd::prelude::*;
use crate::buffer::{Image, Rgb, lemma_flat_index, lemma_pixel_index, lemma_row_major_lt};

verus! {

/// The region a pixel of a stripe cell falls in: one of the three active
/// stripes, or the inactive gutter rendered pure black.
#[derive(Clone, Copy, PartialEq, Eq, Structural, Debug)]
pub enum Stripe {
    Red,
    Green,
    Blue,
    Gutter,
}

/// Width of the gutter shaved off each side of a stripe: one twentieth of the
/// cell edge, rounded to the nearest integer (ties rounded up).
pub open spec fn gap_width(p: int) -> int {
    (p + 10) / 20
}

/// Vertical stagger of a column of cells: columns in every other band of
/// width `p` are shifted down by half a cell, like offset brickwork.
pub open spec fn column_offset(x: int, p: int) -> int {
    if x % (2 * p) > p {
        p / 2
    } else {
        0
    }
}

/// Classifies the pixel at `(x, y)` within the repeating stripe cell of edge
/// length `p`. The cell is split into three vertical thirds (red, green, blue
/// in that order), each shrunk by `gap_width(p)` on both sides; a horizontal
/// gutter of the same width runs along the top and bottom of the cell.
pub open spec fn classify(x: int, y: int, p: int) -> Stripe
    recommends
        p >= 1,
{
    let gap = gap_width(p);
    let gx = x % p;
    let gy = (y + column_offset(x, p)) % p;
    if gy > gap && gy + gap < p {
        if gx > gap && gx + gap < p / 3 {
            Stripe::Red
        } else if gx > p / 3 + gap && gx + gap < 2 * p / 3 {
            Stripe::Green
        } else if gx > 2 * p / 3 + gap && gx + gap < p {
            Stripe::Blue
        } else {
            Stripe::Gutter
        }
    } else {
        Stripe::Gutter
    }
}

/// The value an active stripe writes into one output channel: the source
/// channel scaled by the stripe color's channel over 256, truncated; the
/// channel saturates to 255 as soon as the scaled value plus the
/// `amplification` headroom would reach 256.
pub open spec fn mask_channel_spec(source: u8, repr: u8, amplification: usize) -> u8 {
    let v = (source as int) * (repr as int) / 256;
    if v + amplification < 256 {
        v as u8
    } else {
        255u8
    }
}

/// Executable form of `classify`.
pub fn classify_pixel(x: usize, y: usize, p: usize) -> (s: Stripe)
    requires
        p >= 1,
        2 * p + 10 <= usize::MAX,
        y + p <= usize::MAX,
    ensures
        s == classify(x as int, y as int, p as int),
{
    let offset: usize = if x % (2 * p) > p {
        p / 2
    } else {
        0
    };
    let gap: usize = (p + 10) / 20;
    let gx: usize = x % p;
    let gy: usize = (y + offset) % p;
    let one_third: usize = p / 3;
    let two_thirds: usize = 2 * p / 3;
    if gy > gap && gy + gap < p {
        if gx > gap && gx + gap < one_third {
            Stripe::Red
        } else if gx > one_third + gap && gx + gap < two_thirds {
            Stripe::Green
        } else if gx > two_thirds + gap && gx + gap < p {
            Stripe::Blue
        } else {
            Stripe::Gutter
        }
    } else {
        Stripe::Gutter
    }
}

/// Executable form of `mask_channel_spec`: attenuate one channel, saturating
/// when the headroom test fails.
pub fn mask_channel(source: u8, repr: u8, amplification: usize) -> (out: u8)
    ensures
        out == mask_channel_spec(source, repr, amplification),
{
    proof {
        assert((source as int) * (repr as int) <= 255 * 255) by (nonlinear_arith)
            requires
                source <= 255,
                repr <= 255,
        ;
    }
    let v: usize = (source as usize) * (repr as usize) / 256;
    if amplification < 256 && v + amplification < 256 {
        v as u8
    } else {
        255
    }
}

/// The value channel `c` of the pixel at `(x, y)` holds after the mask pass,
/// as a function of the pre-mask image: an active stripe attenuates its own
/// source channel through the stripe color, a gutter pixel becomes black.
pub open spec fn masked_chan(
    img: Image,
    x: int,
    y: int,
    c: int,
    p: int,
    red_repr: Rgb,
    green_repr: Rgb,
    blue_repr: Rgb,
    amplification: usize,
) -> u8 {
    match classify(x, y, p) {
        Stripe::Red => mask_channel_spec(img.chan(x, y, 0), red_repr.spec_channel(c), amplification),
        Stripe::Green => mask_channel_spec(img.chan(x, y, 1), green_repr.spec_channel(c), amplification),
        Stripe::Blue => mask_channel_spec(img.chan(x, y, 2), blue_repr.spec_channel(c), amplification),
        Stripe::Gutter => 0u8,
    }
}

/// The whole buffer after the mask pass: every byte of `img` replaced by the
/// masked value of the pixel and channel it addresses.
pub open spec fn masked_data(
    img: Image,
    p: int,
    red_repr: Rgb,
    green_repr: Rgb,
    blue_repr: Rgb,
    amplification: usize,
) -> Seq<u8> {
    Seq::new(
        img.data@.len(),
        |i: int|
            masked_chan(
                img,
                (i / 3) % (img.width as int),
                (i / 3) / (img.width as int),
                i % 3,
                p,
                red_repr,
                green_repr,
                blue_repr,
                amplification,
            ),
    )
}

/// The scaled product of two 8-bit channels never exceeds 254, so below the
/// amplification headroom threshold the attenuated channel is exactly the
/// truncated scaled product — which also equals `min(255, product / 256)` —
/// and at or above the threshold it saturates to 255.
pub proof fn lemma_mask_channel_value(source: u8, repr: u8, amplification: usize)
    ensures
        (source as int) * (repr as int) / 256 <= 254,
        (source as int) * (repr as int) / 256 + amplification < 256 ==> mask_channel_spec(
            source,
            repr,
            amplification,
        ) as int == (source as int) * (repr as int) / 256,
        (source as int) * (repr as int) / 256 + amplification >= 256 ==> mask_channel_spec(
            source,
            repr,
            amplification,
        ) == 255,
{
    assert((source as int) * (repr as int) <= 255 * 255) by (nonlinear_arith)
        requires
            source <= 255,
            repr <= 255,
    ;
}

/// Inside a stripe's active region, each output channel equals
/// `min(255, source * repr / 256)` — the stripe's own source channel scaled
/// through the stripe color's channel — whenever the amplification headroom
/// test does not saturate that channel.
pub proof fn lemma_active_region_value(
    img: Image,
    x: int,
    y: int,
    c: int,
    p: int,
    red_repr: Rgb,
    green_repr: Rgb,
    blue_repr: Rgb,
    amplification: usize,
)
    requires
        0 <= c < 3,
    ensures
        classify(x, y, p) == Stripe::Red && (img.chan(x, y, 0) as int) * (red_repr.spec_channel(c)
            as int) / 256 + amplification < 256 ==> masked_chan(
            img, x, y, c, p, red_repr, green_repr, blue_repr, amplification,
        ) as int == (img.chan(x, y, 0) as int) * (red_repr.spec_channel(c) as int) / 256,
        classify(x, y, p) == Stripe::Green && (img.chan(x, y, 1) as int) * (green_repr.spec_channel(
            c,
        ) as int) / 256 + amplification < 256 ==> masked_chan(
            img, x, y, c, p, red_repr, green_repr, blue_repr, amplification,
        ) as int == (img.chan(x, y, 1) as int) * (green_repr.spec_channel(c) as int) / 256,
        classify(x, y, p) == Stripe::Blue && (img.chan(x, y, 2) as int) * (blue_repr.spec_channel(c)
            as int) / 256 + amplification < 256 ==> masked_chan(
            img, x, y, c, p, red_repr, green_repr, blue_repr, amplification,
        ) as int == (img.chan(x, y, 2) as int) * (blue_repr.spec_channel(c) as int) / 256,
{
    lemma_mask_channel_value(img.chan(x, y, 0), red_repr.spec_channel(c), amplification);
    lemma_mask_channel_value(img.chan(x, y, 1), green_repr.spec_channel(c), amplification);
    lemma_mask_channel_value(img.chan(x, y, 2), blue_repr.spec_channel(c), amplification);
}

/// Every pixel of a gutter or gap region is written pure black.
pub proof fn lemma_gutter_black(
    img: Image,
    x: int,
    y: int,
    c: int,
    p: int,
    red_repr: Rgb,
    green_repr: Rgb,
    blue_repr: Rgb,
    amplification: usize,
)
    requires
        classify(x, y, p) == Stripe::Gutter,
    ensures
        masked_chan(img, x, y, c, p, red_repr, green_repr, blue_repr, amplification) == 0,
{
}

/// With the headroom constant 40, a channel saturates exactly when the scaled
/// product reaches 216; below that it is the truncated scaled product itself.
pub proof fn lemma_saturation_boundary(source: u8, repr: u8)
    ensures
        mask_channel_spec(source, repr, 40) == 255 <==> (source as int) * (repr as int) / 256
            >= 216,
        (source as int) * (repr as int) / 256 < 216 ==> mask_channel_spec(source, repr, 40) as int
            == (source as int) * (repr as int) / 256,
{
    lemma_mask_channel_value(source, repr, 40);
}

/// The mask is a pure function of pixel position, parameters and the pre-mask
/// pixels: it reads no hidden state, so two buffers with equal contents mask
/// to equal values everywhere, and a second run over the same pre-mask buffer
/// yields identical output.
pub proof fn lemma_mask_deterministic(
    a: Image,
    b: Image,
    p: int,
    red_repr: Rgb,
    green_repr: Rgb,
    blue_repr: Rgb,
    amplification: usize,
)
    requires
        a.width == b.width,
        a.data@ == b.data@,
    ensures
        forall|x: int, y: int, c: int|
            masked_chan(a, x, y, c, p, red_repr, green_repr, blue_repr, amplification)
                == masked_chan(b, x, y, c, p, red_repr, green_repr, blue_repr, amplification),
{
    assert forall|x: int, y: int, c: int|
        masked_chan(a, x, y, c, p, red_repr, green_repr, blue_repr, amplification) == masked_chan(
        b, x, y, c, p, red_repr, green_repr, blue_repr, amplification,
    ) by {
        assert(a.chan(x, y, 0) == b.chan(x, y, 0));
        assert(a.chan(x, y, 1) == b.chan(x, y, 1));
        assert(a.chan(x, y, 2) == b.chan(x, y, 2));
    }
}

/// Overwrites every pixel of `img` with the phosphor stripe pattern of cell
/// edge `pixel_size`: each pixel inside an active stripe keeps only the energy
/// of that stripe's source channel, routed through the stripe's reference
/// color, and every gutter pixel becomes pure black.
pub fn apply_mask(
    img: &mut Image,
    pixel_size: usize,
    red_repr: Rgb,
    green_repr: Rgb,
    blue_repr: Rgb,
    amplification: usize,
)
    requires
        old(img).wf(),
        pixel_size >= 1,
        2 * pixel_size + 10 <= usize::MAX,
        old(img).height + pixel_size <= usize::MAX,
    ensures
        final(img).wf(),
        final(img).width == old(img).width,
        final(img).height == old(img).height,
        forall|x: int, y: int, c: int|
            0 <= x < old(img).width && 0 <= y < old(img).height && 0 <= c < 3 ==> final(img).chan(
                x,
                y,
                c,
            ) == masked_chan(
                *old(img),
                x,
                y,
                c,
                pixel_size as int,
                red_repr,
                green_repr,
                blue_repr,
                amplification,
            ),
        final(img).data@ == masked_data(
            *old(img),
            pixel_size as int,
            red_repr,
            green_repr,
            blue_repr,
            amplification,
        ),
{
    let w = img.width;
    let h = img.height;
    let mut out: Vec<u8> = Vec::new();
    let mut y: usize = 0;
    while y < h
        invariant
            *img == *old(img),
            img.wf(),
            w == img.width,
            h == img.height,
            0 <= y <= h,
            pixel_size >= 1,
            2 * pixel_size + 10 <= usize::MAX,
            h + pixel_size <= usize::MAX,
            out.len() == y * w * 3,
            forall|xx: int, yy: int, cc: int|
                0 <= xx < w && 0 <= yy < y && 0 <= cc < 3 ==> out@[(yy * w + xx) * 3 + cc]
                    == masked_chan(
                    *old(img),
                    xx,
                    yy,
                    cc,
                    pixel_size as int,
                    red_repr,
                    green_repr,
                    blue_repr,
                    amplification,
                ),
        decreases h - y,
    {
        let mut x: usize = 0;
        while x < w
            invariant
                *img == *old(img),
                img.wf(),
                w == img.width,
                h == img.height,
                0 <= y < h,
                0 <= x <= w,
                pixel_size >= 1,
                2 * pixel_size + 10 <= usize::MAX,
                h + pixel_size <= usize::MAX,
                out.len() == (y * w + x) * 3,
                forall|xx: int, yy: int, cc: int|
                    0 <= xx < w && 0 <= yy < y && 0 <= cc < 3 ==> out@[(yy * w + xx) * 3 + cc]
                        == masked_chan(
                        *old(img),
                        xx,
                        yy,
                        cc,
                        pixel_size as int,
                        red_repr,
                        green_repr,
                        blue_repr,
                        amplification,
                    ),
                forall|xx: int, cc: int|
                    0 <= xx < x && 0 <= cc < 3 ==> out@[(y * w + xx) * 3 + cc] == masked_chan(
                        *old(img),
                        xx,
                        y as int,
                        cc,
                        pixel_size as int,
                        red_repr,
                        green_repr,
                        blue_repr,
                        amplification,
                    ),
            decreases w - x,
        {
            proof {
                lemma_pixel_index(x as int, y as int, w as int, h as int);
            }
            let base: usize = out.len();
            let ghost out0 = out@;
            let s0 = img.data[base];
            let s1 = img.data[base + 1];
            let s2 = img.data[base + 2];
            assert(s0 == old(img).chan(x as int, y as int, 0));
            assert(s1 == old(img).chan(x as int, y as int, 1));
            assert(s2 == old(img).chan(x as int, y as int, 2));
            let class = classify_pixel(x, y, pixel_size);
            match class {
                Stripe::Red => {
                    out.push(mask_channel(s0, red_repr.r, amplification));
                    out.push(mask_channel(s0, red_repr.g, amplification));
                    out.push(mask_channel(s0, red_repr.b, amplification));
                },
                Stripe::Green => {
                    out.push(mask_channel(s1, green_repr.r, amplification));
                    out.push(mask_channel(s1, green_repr.g, amplification));
                    out.push(mask_channel(s1, green_repr.b, amplification));
                },
                Stripe::Blue => {
                    out.push(mask_channel(s2, blue_repr.r, amplification));
                    out.push(mask_channel(s2, blue_repr.g, amplification));
                    out.push(mask_channel(s2, blue_repr.b, amplification));
                },
                Stripe::Gutter => {
                    out.push(0);
                    out.push(0);
                    out.push(0);
                },
            }
            proof {
                assert forall|xx: int, yy: int, cc: int|
                    0 <= xx < w && 0 <= cc < 3 && (0 <= yy < y || (yy == y && 0 <= xx < x))
                        implies out@[(yy * w + xx) * 3 + cc] == masked_chan(
                        *old(img),
                        xx,
                        yy,
                        cc,
                        pixel_size as int,
                        red_repr,
                        green_repr,
                        blue_repr,
                        amplification,
                    ) by {
                    lemma_row_major_lt(xx, yy, x as int, y as int, w as int);
                    assert(out@[(yy * w + xx) * 3 + cc] == out0[(yy * w + xx) * 3 + cc]);
                }
                assert forall|cc: int| 0 <= cc < 3 implies out@[(y * w + x) * 3 + cc]
                    == masked_chan(
                    *old(img),
                    x as int,
                    y as int,
                    cc,
                    pixel_size as int,
                    red_repr,
                    green_repr,
                    blue_repr,
                    amplification,
                ) by {
                    assert(out@[base + cc] == masked_chan(
                        *old(img),
                        x as int,
                        y as int,
                        cc,
                        pixel_size as int,
                        red_repr,
                        green_repr,
                        blue_repr,
                        amplification,
                    ));
                }
            }
            x = x + 1;
        }
        proof {
            assert((y * w + w) * 3 == ((y + 1) * w) * 3) by (nonlinear_arith);
            assert forall|xx: int, yy: int, cc: int|
                0 <= xx < w && 0 <= yy < y + 1 && 0 <= cc < 3 implies out@[(yy * w + xx) * 3 + cc]
                    == masked_chan(
                    *old(img),
                    xx,
                    yy,
                    cc,
                    pixel_size as int,
                    red_repr,
                    green_repr,
                    blue_repr,
                    amplification,
                ) by {
                if yy == y {
                    assert(out@[(y * w + xx) * 3 + cc] == masked_chan(
                        *old(img),
                        xx,
                        y as int,
                        cc,
                        pixel_size as int,
                        red_repr,
                        green_repr,
                        blue_repr,
                        amplification,
                    ));
                }
            }
        }
        y = y + 1;
    }
    img.data = out;
    proof {
        assert(h * w * 3 == w * h * 3) by (nonlinear_arith);
        assert(img.data.len() == w * h * 3);
        assert(img.wf());
        assert forall|x: int, y: int, c: int|
            0 <= x < old(img).width && 0 <= y < old(img).height && 0 <= c < 3 implies img.chan(
            x,
            y,
            c,
        ) == masked_chan(
            *old(img),
            x,
            y,
            c,
            pixel_size as int,
            red_repr,
            green_repr,
            blue_repr,
            amplification,
        ) by {
            lemma_pixel_index(x, y, w as int, h as int);
        }
        assert forall|i: int| 0 <= i < img.data@.len() implies img.data@[i] == masked_data(
            *old(img),
            pixel_size as int,
            red_repr,
            green_repr,
            blue_repr,
            amplification,
        )[i] by {
            assert(w * h * 3 > 0);
            assert(w >= 1 && h >= 1) by (nonlinear_arith)
                requires
                    w * h * 3 > 0,
            ;
            lemma_flat_index(i, w as int, h as int);
            let xi = (i / 3) % (w as int);
            let yi = (i / 3) / (w as int);
            let ci = i % 3;
            assert(img.chan(xi, yi, ci) == masked_chan(
                *old(img),
                xi,
                yi,
                ci,
                pixel_size as int,
                red_repr,
                green_repr,
                blue_repr,
                amplification,
            ));
            assert(img.chan(xi, yi, ci) == img.data@[(yi * w + xi) * 3 + ci]);
        }
        assert(img.data@ =~= masked_data(
            *old(img),
            pixel_size as int,
            red_repr,
            green_repr,
            blue_repr,
            amplification,
        ));
    }
}

} // verus!
