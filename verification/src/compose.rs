//! Compositing colour glyph bitmaps onto a straight-alpha RGBA8
//! destination.

use vstd::prelude::*;
pub use crate::color_glyph::RgbaBitmap;
use crate::color_glyph::pixel_at;

verus! {

/// `a * b / 255` rounded, as `oxideav_pixfmt` computes it with shifts.
pub open spec fn mul_div_255(a: int, b: int) -> int {
    let t = a * b + 128;
    (t + t / 256) / 256
}

/// One colour channel of "over": the premultiplied sum of source and
/// weighted destination, divided by the output alpha with rounding and
/// capped at 255.
pub open spec fn over_channel(s: u8, d: u8, sa: int, dst_factor: int, out_a: int) -> u8 {
    let num = mul_div_255(s as int, sa) + mul_div_255(d as int, dst_factor);
    let v = (num * 255 + out_a / 2) / out_a;
    if v > 255 {
        255
    } else {
        v as u8
    }
}

/// Porter-Duff "over" of a straight-alpha source pixel on a
/// straight-alpha destination pixel: a transparent source leaves the
/// destination, an opaque one replaces it, otherwise the output alpha
/// is `sa + da * (255 - sa) / 255` and each colour channel the
/// alpha-weighted mix divided by it.
pub open spec fn over_straight_spec(src: Seq<u8>, dst: Seq<u8>) -> Seq<u8> {
    let sa = src[3] as int;
    if sa == 0 {
        dst
    } else if sa == 255 {
        src
    } else {
        let f = mul_div_255(dst[3] as int, 255 - sa);
        let out_a = sa + f;
        if out_a == 0 {
            seq![0u8, 0u8, 0u8, 0u8]
        } else {
            seq![
                over_channel(src[0], dst[0], sa, f, out_a),
                over_channel(src[1], dst[1], sa, f, out_a),
                over_channel(src[2], dst[2], sa, f, out_a),
                if out_a > 255 {
                    255u8
                } else {
                    out_a as u8
                },
            ]
        }
    }
}

/// Calls `oxideav_pixfmt::over_straight`, Porter-Duff "over" of a
/// straight-alpha source pixel on a straight-alpha destination pixel.
/// Claims that it computes [`over_straight_spec`], the integer formula
/// of its source.
#[verifier::external_body]
fn over_straight(src: [u8; 4], dst: [u8; 4]) -> (r: [u8; 4])
    ensures
        r@ == over_straight_spec(src@, dst@),
{
    oxideav_pixfmt::over_straight(src, dst)
}

/// Pixel `(x, y)` of a row-major RGBA buffer `width` pixels wide.
pub open spec fn pixel_xy(d: Seq<u8>, width: int, x: int, y: int) -> Seq<u8> {
    pixel_at(d, y * width + x)
}

/// What compositing `src` with its top-left at `(dst_x, dst_y)` makes of
/// destination pixel `(x, y)`, whose old value is `old`: where a source
/// pixel with non-zero alpha covers it, that pixel "over" the old one;
/// elsewhere the old pixel.
pub open spec fn composed_pixel(
    src: RgbaBitmap,
    dst_empty: bool,
    dst_x: int,
    dst_y: int,
    x: int,
    y: int,
    old: Seq<u8>,
) -> Seq<u8> {
    let sx = x - dst_x;
    let sy = y - dst_y;
    if dst_empty || src.width == 0 || src.height == 0 || !(0 <= sx < src.width) || !(0 <= sy
        < src.height) {
        old
    } else {
        let s = pixel_xy(src.data@, src.width as int, sx, sy);
        if s[3] == 0 {
            old
        } else {
            over_straight_spec(s, old)
        }
    }
}

proof fn lemma_index_unique(w: int, x1: int, y1: int, x2: int, y2: int)
    requires
        0 <= x1 < w,
        0 <= x2 < w,
        0 <= y1,
        0 <= y2,
        y1 * w + x1 == y2 * w + x2,
    ensures
        x1 == x2 && y1 == y2,
{
    vstd::arithmetic::div_mod::lemma_fundamental_div_mod_converse(y1 * w + x1, w, y1, x1);
    vstd::arithmetic::div_mod::lemma_fundamental_div_mod_converse(y2 * w + x2, w, y2, x2);
}

proof fn lemma_index_bound(w: int, h: int, x: int, y: int)
    requires
        0 <= x < w,
        0 <= y < h,
    ensures
        0 <= y * w + x < w * h,
        4 * (y * w + x) + 4 <= 4 * (w * h),
{
    assert(0 <= y * w + x < w * h) by (nonlinear_arith)
        requires
            0 <= x < w,
            0 <= y < h,
    ;
}

/// Blit the colour bitmap `src` onto `dst` with its top-left at
/// `(dst_x, dst_y)`, Porter-Duff "over" per pixel, clipped to `dst`;
/// fully transparent source pixels are skipped.
pub fn compose_color_bitmap_over(dst: &mut RgbaBitmap, dst_x: i32, dst_y: i32, src: &RgbaBitmap)
    requires
        old(dst).wf(),
        src.wf(),
    ensures
        final(dst).width == old(dst).width,
        final(dst).height == old(dst).height,
        final(dst).wf(),
        forall|x: int, y: int|
            0 <= x < old(dst).width && 0 <= y < old(dst).height ==> #[trigger] pixel_xy(
                final(dst).data@,
                old(dst).width as int,
                x,
                y,
            ) == composed_pixel(
                *src,
                old(dst).width == 0 || old(dst).height == 0,
                dst_x as int,
                dst_y as int,
                x,
                y,
                pixel_xy(old(dst).data@, old(dst).width as int, x, y),
            ),
{
    let ghost old_d = dst.data@;
    let ghost dwi = dst.width as int;
    let ghost dhi = dst.height as int;
    let ghost dempty = dst.width == 0 || dst.height == 0;
    if dst.width == 0 || dst.height == 0 || src.width == 0 || src.height == 0 {
        return;
    }
    let dw = dst.width as i64;
    let dh = dst.height as i64;
    let sw = src.width as i64;
    let sh = src.height as i64;
    let dx = dst_x as i64;
    let dy = dst_y as i64;
    let x0 = if dx > 0 {
        dx
    } else {
        0
    };
    let y0 = if dy > 0 {
        dy
    } else {
        0
    };
    let x1 = if dx + sw < dw {
        dx + sw
    } else {
        dw
    };
    let y1 = if dy + sh < dh {
        dy + sh
    } else {
        dh
    };
    if x1 <= x0 || y1 <= y0 {
        proof {
            assert forall|x: int, y: int| 0 <= x < dwi && 0 <= y < dhi implies #[trigger] pixel_xy(
                dst.data@,
                dwi,
                x,
                y,
            ) == composed_pixel(
                *src,
                dempty,
                dst_x as int,
                dst_y as int,
                x,
                y,
                pixel_xy(old_d, dwi, x, y),
            ) by {}
        }
        return;
    }
    let dlen = dst.data.len();
    let slen = src.data.len();
    let dwu = dst.width as usize;
    let swu = src.width as usize;
    let mut y = y0;
    while y < y1
        invariant
            dwi == dst.width,
            dhi == dst.height,
            dw == dwi,
            dh == dhi,
            sw == src.width,
            sh == src.height,
            dwu == dw,
            swu == sw,
            dx == dst_x,
            dy == dst_y,
            !dempty,
            dw > 0 && dh > 0 && sw > 0 && sh > 0,
            0 <= x0 < x1 <= dw,
            0 <= y0 <= y <= y1,
            y1 <= dh,
            x0 == (if dx > 0 { dx } else { 0 }),
            y0 == (if dy > 0 { dy } else { 0 }),
            x1 == (if dx + sw < dw { dx + sw } else { dw as int }),
            y1 == (if dy + sh < dh { dy + sh } else { dh as int }),
            src.wf(),
            slen == src.data@.len(),
            dlen == dst.data@.len(),
            dst.data@.len() == old_d.len(),
            old_d.len() == dwi * dhi * 4,
            forall|px: int, py: int|
                0 <= px < dwi && 0 <= py < dhi ==> #[trigger] pixel_xy(dst.data@, dwi, px, py) == if py
                    < y {
                    composed_pixel(
                        *src,
                        dempty,
                        dst_x as int,
                        dst_y as int,
                        px,
                        py,
                        pixel_xy(old_d, dwi, px, py),
                    )
                } else {
                    pixel_xy(old_d, dwi, px, py)
                },
        decreases y1 - y,
    {
        let mut x = x0;
        while x < x1
            invariant
                dwi == dst.width,
                dhi == dst.height,
                dw == dwi,
                dh == dhi,
                sw == src.width,
                sh == src.height,
                dwu == dw,
                swu == sw,
                dx == dst_x,
                dy == dst_y,
                !dempty,
                dw > 0 && dh > 0 && sw > 0 && sh > 0,
                0 <= x0 <= x <= x1,
                x1 <= dw,
                0 <= y0 <= y < y1,
                y1 <= dh,
                x0 == (if dx > 0 { dx } else { 0 }),
                x1 == (if dx + sw < dw { dx + sw } else { dw as int }),
                y0 == (if dy > 0 { dy } else { 0 }),
                y1 == (if dy + sh < dh { dy + sh } else { dh as int }),
                src.wf(),
                slen == src.data@.len(),
                dlen == dst.data@.len(),
                dst.data@.len() == old_d.len(),
                old_d.len() == dwi * dhi * 4,
                forall|px: int, py: int|
                    0 <= px < dwi && 0 <= py < dhi ==> #[trigger] pixel_xy(dst.data@, dwi, px, py)
                        == if py < y || (py == y && px < x) {
                        composed_pixel(
                            *src,
                            dempty,
                            dst_x as int,
                            dst_y as int,
                            px,
                            py,
                            pixel_xy(old_d, dwi, px, py),
                        )
                    } else {
                        pixel_xy(old_d, dwi, px, py)
                    },
            decreases x1 - x,
        {
            let src_x = (x - dx) as usize;
            let src_y = (y - dy) as usize;
            proof {
                lemma_index_bound(dwi, dhi, x as int, y as int);
                lemma_index_bound(sw as int, sh as int, src_x as int, src_y as int);
                assert(4 * (dwi * dhi) == dwi * dhi * 4) by (nonlinear_arith);
                assert(4 * (sw * sh) == src.width * src.height * 4) by (nonlinear_arith)
                    requires
                        sw == src.width,
                        sh == src.height,
                ;
            }
            let s_off = (src_y * swu + src_x) * 4;
            let d_off = ((y as usize) * dwu + (x as usize)) * 4;
            let s: [u8; 4] = [
                src.data[s_off],
                src.data[s_off + 1],
                src.data[s_off + 2],
                src.data[s_off + 3],
            ];
            assert(s@ =~= pixel_xy(src.data@, sw as int, src_x as int, src_y as int));
            let ghost before = dst.data@;
            if s[3] != 0 {
                let d: [u8; 4] = [
                    dst.data[d_off],
                    dst.data[d_off + 1],
                    dst.data[d_off + 2],
                    dst.data[d_off + 3],
                ];
                assert(d@ =~= pixel_xy(before, dwi, x as int, y as int));
                let out = over_straight(s, d);
                dst.data.set(d_off, out[0]);
                dst.data.set(d_off + 1, out[1]);
                dst.data.set(d_off + 2, out[2]);
                dst.data.set(d_off + 3, out[3]);
                assert(pixel_xy(dst.data@, dwi, x as int, y as int) =~= out@);
            }
            proof {
                assert forall|px: int, py: int| 0 <= px < dwi && 0 <= py < dhi implies #[trigger] pixel_xy(
                    dst.data@,
                    dwi,
                    px,
                    py,
                ) == if py < y || (py == y && px < x + 1) {
                    composed_pixel(
                        *src,
                        dempty,
                        dst_x as int,
                        dst_y as int,
                        px,
                        py,
                        pixel_xy(old_d, dwi, px, py),
                    )
                } else {
                    pixel_xy(old_d, dwi, px, py)
                } by {
                    if px != x || py != y {
                        lemma_index_bound(dwi, dhi, px, py);
                        if py * dwi + px == y * dwi + x {
                            lemma_index_unique(dwi, px, py, x as int, y as int);
                        }
                        assert(pixel_xy(dst.data@, dwi, px, py) =~= pixel_xy(before, dwi, px, py));
                    }
                }
            }
            x = x + 1;
        }
        proof {
            assert forall|px: int, py: int| 0 <= px < dwi && 0 <= py < dhi implies #[trigger] pixel_xy(
                dst.data@,
                dwi,
                px,
                py,
            ) == if py < y + 1 {
                composed_pixel(
                    *src,
                    dempty,
                    dst_x as int,
                    dst_y as int,
                    px,
                    py,
                    pixel_xy(old_d, dwi, px, py),
                )
            } else {
                pixel_xy(old_d, dwi, px, py)
            } by {}
        }
        y = y + 1;
    }
    proof {
        assert forall|px: int, py: int| 0 <= px < dwi && 0 <= py < dhi implies #[trigger] pixel_xy(
            dst.data@,
            dwi,
            px,
            py,
        ) == composed_pixel(
            *src,
            dempty,
            dst_x as int,
            dst_y as int,
            px,
            py,
            pixel_xy(old_d, dwi, px, py),
        ) by {}
    }
}

} // verus!
