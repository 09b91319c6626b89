//! Grayscale alpha bitmaps, the output of the glyph rasterizer.

use vstd::prelude::*;

verus! {

/// The number of non-zero bytes of `s`.
pub open spec fn count_nonzero(s: Seq<u8>) -> nat
    decreases s.len(),
{
    if s.len() == 0 {
        0
    } else {
        count_nonzero(s.drop_last()) + if s.last() != 0 {
            1nat
        } else {
            0nat
        }
    }
}

/// A grayscale alpha bitmap, one byte per pixel, row-major with stride
/// `width`.
#[derive(Debug, Clone, Default)]
pub struct AlphaBitmap {
    /// Width in pixels.
    pub width: u32,
    /// Height in pixels.
    pub height: u32,
    /// Row-major alpha bytes (`width * height`).
    pub data: Vec<u8>,
}

impl AlphaBitmap {
    /// The data holds exactly `width * height` pixels.
    pub open spec fn wf(&self) -> bool {
        self.data@.len() == self.width * self.height
    }

    /// A `width × height` bitmap with every pixel 0.
    pub fn new(width: u32, height: u32) -> (r: Self)
        requires
            width * height <= usize::MAX,
        ensures
            r.width == width,
            r.height == height,
            r.data@ == Seq::new((width * height) as nat, |i: int| 0u8),
            r.wf(),
    {
        let n = (width as usize) * (height as usize);
        let mut data: Vec<u8> = Vec::new();
        for i in 0..n
            invariant
                data@ == Seq::new(i as nat, |k: int| 0u8),
        {
            data.push(0);
            assert(data@ =~= Seq::new((i + 1) as nat, |k: int| 0u8));
        }
        AlphaBitmap { width, height, data }
    }

    /// True if the bitmap has no pixels.
    pub fn is_empty(&self) -> (r: bool)
        ensures
            r == (self.width == 0 || self.height == 0),
    {
        self.width == 0 || self.height == 0
    }

    /// The alpha at `(x, y)`; `0` outside the bitmap.
    pub fn get(&self, x: u32, y: u32) -> (r: u8)
        requires
            self.wf(),
        ensures
            r == if x < self.width && y < self.height {
                self.data@[y * self.width + x]
            } else {
                0
            },
    {
        if x >= self.width || y >= self.height {
            return 0;
        }
        let n = self.data.len();
        proof {
            assert(y * self.width + x < self.width * self.height) by (nonlinear_arith)
                requires
                    x < self.width,
                    y < self.height,
            ;
        }
        self.data[(y as usize) * (self.width as usize) + (x as usize)]
    }

    /// The number of non-zero pixels.
    pub fn nonzero_pixel_count(&self) -> (r: usize)
        ensures
            r == count_nonzero(self.data@),
    {
        let n = self.data.len();
        let mut count: usize = 0;
        for i in 0..n
            invariant
                n == self.data@.len(),
                count == count_nonzero(self.data@.take(i as int)),
                count <= i,
        {
            assert(self.data@.take(i + 1).drop_last() =~= self.data@.take(i as int));
            if self.data[i] != 0 {
                count = count + 1;
            }
        }
        assert(self.data@.take(n as int) =~= self.data@);
        count
    }
}

/// Vertical supersampling factor of the glyph rasterizer: each pixel
/// row is sampled as this many coverage rows.
pub const SUPERSAMPLE: u32 = 4;

/// The summed coverage of pixel `(x, y)` of a `w`-wide glyph: its cell
/// in each of the `SUPERSAMPLE` coverage rows of pixel row `y`.
pub open spec fn cell_sum(cov: Seq<u8>, w: int, x: int, y: int) -> int {
    cov[(4 * y) * w + x] + cov[(4 * y + 1) * w + x] + cov[(4 * y + 2) * w + x] + cov[(4 * y + 3)
        * w + x]
}

/// The alpha of a pixel whose cells sum to `sum`: their mean scaled to
/// `0..=255`, rounded, and capped at 255.
pub open spec fn averaged_alpha(sum: int) -> u8 {
    let a = (sum * 255 + 2) / 4;
    if a > 255 {
        255
    } else {
        a as u8
    }
}

impl AlphaBitmap {
    /// The `w × h` bitmap of a glyph from its supersampled coverage:
    /// `coverage` holds `SUPERSAMPLE * h` rows of `w` cells, and each
    /// pixel's alpha is the mean of its column of cells scaled to
    /// `0..=255` with rounding.
    pub fn from_coverage(w: u32, h: u32, coverage: &[u8]) -> (r: AlphaBitmap)
        requires
            coverage@.len() == w * h * 4,
        ensures
            r.width == w,
            r.height == h,
            r.wf(),
            forall|y: int, x: int|
                0 <= y < h && 0 <= x < w ==> #[trigger] r.data@[y * w + x] == averaged_alpha(
                    cell_sum(coverage@, w as int, x, y),
                ),
    {
        let wu = w as usize;
        let hu = h as usize;
        let n = coverage.len();
        let mut data: Vec<u8> = Vec::new();
        assert(0 * w == 0);
        for y in 0..hu
            invariant
                wu == w,
                hu == h,
                n == coverage@.len(),
                coverage@.len() == w * h * 4,
                data@.len() == y * w,
                forall|yy: int, xx: int|
                    0 <= yy < y && 0 <= xx < w ==> #[trigger] data@[yy * w + xx] == averaged_alpha(
                        cell_sum(coverage@, w as int, xx, yy),
                    ),
        {
            for x in 0..wu
                invariant
                    wu == w,
                    hu == h,
                    y < h,
                    n == coverage@.len(),
                    coverage@.len() == w * h * 4,
                    data@.len() == y * w + x,
                    forall|yy: int, xx: int|
                        0 <= yy < y && 0 <= xx < w ==> #[trigger] data@[yy * w + xx]
                            == averaged_alpha(cell_sum(coverage@, w as int, xx, yy)),
                    forall|xx: int|
                        0 <= xx < x ==> #[trigger] data@[y * w + xx] == averaged_alpha(
                            cell_sum(coverage@, w as int, xx, y as int),
                        ),
            {
                proof {
                    assert((4 * y + 3) * w + x < w * h * 4) by (nonlinear_arith)
                        requires
                            x < w,
                            y < h,
                    ;
                    assert(0 <= (4 * y) * w + x) by (nonlinear_arith);
                }
                let mut sum: u32 = 0;
                let mut s: usize = 0;
                while s < 4
                    invariant
                        s <= 4,
                        x < w,
                        y < h,
                        wu == w,
                        n == coverage@.len(),
                        coverage@.len() == w * h * 4,
                        (4 * y + 3) * w + x < w * h * 4,
                        sum <= 255 * s,
                        sum == (if s > 0 { coverage@[(4 * y) * w + x] as int } else { 0 }) + (if s
                            > 1 {
                            coverage@[(4 * y + 1) * w + x] as int
                        } else {
                            0
                        }) + (if s > 2 {
                            coverage@[(4 * y + 2) * w + x] as int
                        } else {
                            0
                        }) + (if s > 3 {
                            coverage@[(4 * y + 3) * w + x] as int
                        } else {
                            0
                        }),
                    decreases 4 - s,
                {
                    proof {
                        assert((4 * y + s) * w + x <= (4 * y + 3) * w + x) by (nonlinear_arith)
                            requires
                                s <= 3,
                        ;
                        assert(0 <= (4 * y + s) * w + x) by (nonlinear_arith);
                        assert(4 * y + s <= (4 * y + s) * w) by (nonlinear_arith)
                            requires
                                x < w,
                        ;
                    }
                    let row = 4 * y + s;
                    let idx = row * wu + x;
                    sum = sum + coverage[idx] as u32;
                    s = s + 1;
                }
                let a = (sum * 255 + 2) / 4;
                let alpha: u8 = if a > 255 {
                    255
                } else {
                    a as u8
                };
                proof {
                    assert(data@.len() == y * w + x);
                }
                data.push(alpha);
                proof {
                    assert forall|yy: int, xx: int|
                        0 <= yy < y && 0 <= xx < w implies #[trigger] data@[yy * w + xx]
                        == averaged_alpha(cell_sum(coverage@, w as int, xx, yy)) by {
                        assert(yy * w + xx < y * w) by (nonlinear_arith)
                            requires
                                yy < y,
                                xx < w,
                        ;
                    }
                }
            }
            proof {
                assert forall|yy: int, xx: int|
                    0 <= yy < y + 1 && 0 <= xx < w implies #[trigger] data@[yy * w + xx]
                    == averaged_alpha(cell_sum(coverage@, w as int, xx, yy)) by {
                    if yy == y {
                    }
                }
                assert(y * w + w == (y + 1) * w) by (nonlinear_arith);
            }
        }
        proof {
            assert(h * w == w * h) by (nonlinear_arith);
        }
        AlphaBitmap { width: w, height: h, data }
    }
}

/// The glyph rasterizer; its entry points work on faces and floating
/// point sizes outside this library.
#[derive(Debug)]
pub struct Rasterizer;

} // verus!
