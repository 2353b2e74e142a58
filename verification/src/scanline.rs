//! The scanline modulator: darkens each row of an image through a per-row
//! channel map. The maps are produced by the caller from the sinusoidal
//! factor `0.3 * sin(pi * density * y)^2 + 0.7`; that factor lies in
//! `[0.7, 1.0]`, so a row map never brightens a channel and never darkens it
//! below seven tenths, less one for rounding. Those two bounds are what this
//! module requires of a map, and what it guarantees of every output channel.

use vstd::prelude::*;
use crate::buffer::{Image, lemma_flat_index, lemma_pixel_index, lemma_row_major_lt};

verus! {

/// The value channel `c` of the pixel at `(x, y)` holds after the scanline
/// pass: the pre-pass value sent through the channel map of row `y`.
pub open spec fn row_mapped_chan(img: Image, rows: Seq<Seq<u8>>, x: int, y: int, c: int) -> u8 {
    rows[y][img.chan(x, y, c) as int]
}

/// The whole buffer after the scanline pass: every byte of `img` sent through
/// the channel map of the row its pixel lies in.
pub open spec fn row_mapped_data(img: Image, rows: Seq<Seq<u8>>) -> Seq<u8> {
    Seq::new(
        img.data@.len(),
        |i: int|
            row_mapped_chan(
                img,
                rows,
                (i / 3) % (img.width as int),
                (i / 3) / (img.width as int),
                i % 3,
            ),
    )
}

/// Darkens every row of `img` through its channel map: channel value `v` of a
/// pixel in row `y` becomes `rows[y][v]`. A map entry never exceeds its index
/// and never falls below seven tenths of it (less one for rounding), so no
/// channel is brightened and none drops below the seventy percent floor.
pub fn apply_scanlines(img: &mut Image, rows: &Vec<Vec<u8>>)
    requires
        old(img).wf(),
        rows@.len() == old(img).height,
        forall|y: int| 0 <= y < rows@.len() ==> #[trigger] rows@[y]@.len() == 256,
        forall|y: int, v: int|
            0 <= y < rows@.len() && 0 <= v < 256 ==> 7 * v / 10 - 1 <= #[trigger] rows@[y]@[v]
                <= v,
    ensures
        final(img).wf(),
        final(img).width == old(img).width,
        final(img).height == old(img).height,
        forall|x: int, y: int, c: int|
            0 <= x < old(img).width && 0 <= y < old(img).height && 0 <= c < 3 ==> final(img).chan(
                x,
                y,
                c,
            ) == row_mapped_chan(*old(img), rows@.map_values(|r: Vec<u8>| r@), x, y, c),
        final(img).data@ == row_mapped_data(*old(img), rows@.map_values(|r: Vec<u8>| r@)),
        forall|x: int, y: int, c: int|
            0 <= x < old(img).width && 0 <= y < old(img).height && 0 <= c < 3 ==> final(img).chan(
                x,
                y,
                c,
            ) <= old(img).chan(x, y, c),
        forall|x: int, y: int, c: int|
            0 <= x < old(img).width && 0 <= y < old(img).height && 0 <= c < 3 ==> final(img).chan(
                x,
                y,
                c,
            ) >= 7 * old(img).chan(x, y, c) / 10 - 1,
{
    let ghost rowseq = rows@.map_values(|r: Vec<u8>| r@);
    let w = img.width;
    let h = img.height;
    let mut out: Vec<u8> = Vec::new();
    let mut y: usize = 0;
    while y < h
        invariant
            *img == *old(img),
            img.wf(),
            w == img.width,
            h == img.height,
            0 <= y <= h,
            rows@.len() == h,
            rowseq == rows@.map_values(|r: Vec<u8>| r@),
            forall|yy: int| 0 <= yy < rows@.len() ==> #[trigger] rows@[yy]@.len() == 256,
            forall|yy: int, v: int|
                0 <= yy < rows@.len() && 0 <= v < 256 ==> 7 * v / 10 - 1 <= #[trigger] rows@[yy]@[v]
                    <= v,
            out.len() == y * w * 3,
            forall|xx: int, yy: int, cc: int|
                0 <= xx < w && 0 <= yy < y && 0 <= cc < 3 ==> out@[(yy * w + xx) * 3 + cc]
                    == row_mapped_chan(*old(img), rowseq, xx, yy, cc),
        decreases h - y,
    {
        let row: &Vec<u8> = &rows[y];
        let mut x: usize = 0;
        while x < w
            invariant
                *img == *old(img),
                img.wf(),
                w == img.width,
                h == img.height,
                0 <= y < h,
                0 <= x <= w,
                rows@.len() == h,
                rowseq == rows@.map_values(|r: Vec<u8>| r@),
                row == rows@[y as int],
                row@.len() == 256,
                forall|yy: int, v: int|
                    0 <= yy < rows@.len() && 0 <= v < 256 ==> 7 * v / 10 - 1
                        <= #[trigger] rows@[yy]@[v] <= v,
                out.len() == (y * w + x) * 3,
                forall|xx: int, yy: int, cc: int|
                    0 <= xx < w && 0 <= yy < y && 0 <= cc < 3 ==> out@[(yy * w + xx) * 3 + cc]
                        == row_mapped_chan(*old(img), rowseq, xx, yy, cc),
                forall|xx: int, cc: int|
                    0 <= xx < x && 0 <= cc < 3 ==> out@[(y * w + xx) * 3 + cc] == row_mapped_chan(
                        *old(img),
                        rowseq,
                        xx,
                        y as int,
                        cc,
                    ),
            decreases w - x,
        {
            proof {
                lemma_pixel_index(x as int, y as int, w as int, h as int);
            }
            let base: usize = out.len();
            let ghost out0 = out@;
            let s0 = img.data[base];
            let s1 = img.data[base + 1];
            let s2 = img.data[base + 2];
            assert(s0 == old(img).chan(x as int, y as int, 0));
            assert(s1 == old(img).chan(x as int, y as int, 1));
            assert(s2 == old(img).chan(x as int, y as int, 2));
            out.push(row[s0 as usize]);
            out.push(row[s1 as usize]);
            out.push(row[s2 as usize]);
            proof {
                assert forall|xx: int, yy: int, cc: int|
                    0 <= xx < w && 0 <= cc < 3 && (0 <= yy < y || (yy == y && 0 <= xx < x))
                        implies out@[(yy * w + xx) * 3 + cc] == row_mapped_chan(
                        *old(img),
                        rowseq,
                        xx,
                        yy,
                        cc,
                    ) by {
                    lemma_row_major_lt(xx, yy, x as int, y as int, w as int);
                    assert(out@[(yy * w + xx) * 3 + cc] == out0[(yy * w + xx) * 3 + cc]);
                }
                assert(rowseq[y as int] == row@);
                assert forall|cc: int| 0 <= cc < 3 implies out@[(y * w + x) * 3 + cc]
                    == row_mapped_chan(*old(img), rowseq, x as int, y as int, cc) by {
                    assert(out@[base + cc] == row@[old(img).chan(x as int, y as int, cc) as int]);
                }
            }
            x = x + 1;
        }
        proof {
            assert((y * w + w) * 3 == ((y + 1) * w) * 3) by (nonlinear_arith);
            assert forall|xx: int, yy: int, cc: int|
                0 <= xx < w && 0 <= yy < y + 1 && 0 <= cc < 3 implies out@[(yy * w + xx) * 3 + cc]
                    == row_mapped_chan(*old(img), rowseq, xx, yy, cc) by {
                if yy == y {
                    assert(out@[(y * w + xx) * 3 + cc] == row_mapped_chan(
                        *old(img),
                        rowseq,
                        xx,
                        y as int,
                        cc,
                    ));
                }
            }
        }
        y = y + 1;
    }
    img.data = out;
    proof {
        assert(h * w * 3 == w * h * 3) by (nonlinear_arith);
        assert(img.wf());
        assert forall|x: int, y: int, c: int|
            0 <= x < old(img).width && 0 <= y < old(img).height && 0 <= c < 3 implies img.chan(
            x,
            y,
            c,
        ) == row_mapped_chan(*old(img), rowseq, x, y, c) by {
            lemma_pixel_index(x, y, w as int, h as int);
        }
        assert forall|x: int, y: int, c: int|
            0 <= x < old(img).width && 0 <= y < old(img).height && 0 <= c < 3 implies img.chan(
            x,
            y,
            c,
        ) <= old(img).chan(x, y, c) by {
            assert(rowseq[y] == rows@[y]@);
            assert(rows@[y]@[old(img).chan(x, y, c) as int] <= old(img).chan(x, y, c));
        }
        assert forall|x: int, y: int, c: int|
            0 <= x < old(img).width && 0 <= y < old(img).height && 0 <= c < 3 implies img.chan(
            x,
            y,
            c,
        ) >= 7 * old(img).chan(x, y, c) / 10 - 1 by {
            assert(rowseq[y] == rows@[y]@);
            assert(rows@[y]@[old(img).chan(x, y, c) as int] >= 7 * (old(img).chan(x, y, c) as int)
                / 10 - 1);
        }
        assert forall|i: int| 0 <= i < img.data@.len() implies img.data@[i] == row_mapped_data(
            *old(img),
            rowseq,
        )[i] by {
            assert(w * h * 3 > 0);
            assert(w >= 1 && h >= 1) by (nonlinear_arith)
                requires
                    w * h * 3 > 0,
            ;
            lemma_flat_index(i, w as int, h as int);
            let xi = (i / 3) % (w as int);
            let yi = (i / 3) / (w as int);
            let ci = i % 3;
            assert(img.chan(xi, yi, ci) == row_mapped_chan(*old(img), rowseq, xi, yi, ci));
            assert(img.chan(xi, yi, ci) == img.data@[(yi * w + xi) * 3 + ci]);
        }
        assert(img.data@ =~= row_mapped_data(*old(img), rowseq));
    }
}

} // verus!
