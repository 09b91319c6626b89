//! Colour glyph bitmaps: straight-alpha RGBA8 buffers, the PNG chunk
//! readers that recover a CBDT strike's size and palette, and the
//! conversion of a decoded PNG plane to RGBA8.

use vstd::prelude::*;
use crate::post::be32;

verus! {

/// The number of 4-byte pixels among the first `k` of `d` whose alpha
/// (fourth byte) is non-zero.
pub open spec fn count_visible(d: Seq<u8>, k: int) -> nat
    decreases k,
{
    if k <= 0 {
        0
    } else {
        count_visible(d, k - 1) + if d[4 * (k - 1) + 3] != 0 {
            1nat
        } else {
            0nat
        }
    }
}

/// A straight-alpha RGBA8 bitmap, row-major with stride `width * 4`.
#[derive(Debug, Clone, Default)]
pub struct RgbaBitmap {
    /// Bitmap width in pixels.
    pub width: u32,
    /// Bitmap height in pixels.
    pub height: u32,
    /// Row-major straight-alpha RGBA8 bytes (`width * height * 4`).
    pub data: Vec<u8>,
}

impl RgbaBitmap {
    /// The data holds exactly `width * height` pixels.
    pub open spec fn wf(&self) -> bool {
        self.data@.len() == self.width * self.height * 4
    }

    /// A fully transparent `width × height` bitmap (every byte 0).
    pub fn new(width: u32, height: u32) -> (r: Self)
        requires
            width * height * 4 <= usize::MAX,
        ensures
            r.width == width,
            r.height == height,
            r.data@ == Seq::new((width * height * 4) as nat, |i: int| 0u8),
            r.wf(),
    {
        let n = (width as usize) * (height as usize) * 4;
        let mut data: Vec<u8> = Vec::new();
        for i in 0..n
            invariant
                data@ == Seq::new(i as nat, |k: int| 0u8),
        {
            data.push(0);
            assert(data@ =~= Seq::new((i + 1) as nat, |k: int| 0u8));
        }
        RgbaBitmap { width, height, data }
    }

    /// Row stride in bytes (`width * 4`).
    pub fn stride(&self) -> (r: usize)
        requires
            self.width * 4 <= usize::MAX,
        ensures
            r == self.width * 4,
    {
        (self.width as usize) * 4
    }

    /// True if the bitmap holds no pixels.
    pub fn is_empty(&self) -> (r: bool)
        ensures
            r == (self.width == 0 || self.height == 0),
    {
        self.width == 0 || self.height == 0
    }

    /// The RGBA at `(x, y)`; all zero outside the bitmap.
    pub fn get(&self, x: u32, y: u32) -> (r: [u8; 4])
        requires
            self.wf(),
        ensures
            r@ == if x < self.width && y < self.height {
                self.data@.subrange(
                    (y * self.width + x) * 4,
                    (y * self.width + x) * 4 + 4,
                )
            } else {
                seq![0u8, 0u8, 0u8, 0u8]
            },
    {
        if x >= self.width || y >= self.height {
            let z: [u8; 4] = [0, 0, 0, 0];
            assert(z@ =~= seq![0u8, 0u8, 0u8, 0u8]);
            return z;
        }
        let n = self.data.len();
        proof {
            assert(y * self.width + x < self.width * self.height) by (nonlinear_arith)
                requires
                    x < self.width,
                    y < self.height,
            ;
        }
        let off = ((y as usize) * (self.width as usize) + (x as usize)) * 4;
        let r: [u8; 4] = [self.data[off], self.data[off + 1], self.data[off + 2], self.data[off + 3]];
        assert(r@ =~= self.data@.subrange(off as int, off + 4));
        r
    }

    /// The number of pixels with non-zero alpha.
    pub fn nonzero_alpha_count(&self) -> (r: usize)
        ensures
            r == count_visible(self.data@, (self.data@.len() / 4) as int),
    {
        let len = self.data.len();
        let n = len / 4;
        let mut count: usize = 0;
        for k in 0..n
            invariant
                len == self.data@.len(),
                n == self.data@.len() / 4,
                count == count_visible(self.data@, k as int),
                count <= k,
        {
            if self.data[4 * k + 3] != 0 {
                count = count + 1;
            }
        }
        count
    }
}

/// One decoded colour glyph: its RGBA bitmap and placement metrics.
#[derive(Debug, Clone)]
pub struct ColorGlyphBitmap {
    /// The straight-alpha RGBA8 bitmap.
    pub bitmap: RgbaBitmap,
    /// Pen origin to the bitmap's left edge, in pixels.
    pub bearing_x: i32,
    /// Pen origin to the bitmap's top edge, in pixels (positive up).
    pub bearing_y: i32,
    /// Horizontal advance, in pixels at the strike's ppem.
    pub advance: u32,
    /// The strike's pixels per em.
    pub ppem: u8,
}

/// A PNG palette from its PLTE and tRNS chunks: one RGBA entry per
/// PLTE entry.
#[derive(Debug, Clone)]
pub struct PngPalette {
    /// Per-index RGBA.
    pub entries: Vec<[u8; 4]>,
}

impl PngPalette {
    /// The entry at `idx`; transparent black past the end.
    pub fn lookup(&self, idx: u8) -> (r: [u8; 4])
        ensures
            r@ == if (idx as int) < self.entries@.len() {
                self.entries@[idx as int]@
            } else {
                seq![0u8, 0u8, 0u8, 0u8]
            },
    {
        if (idx as usize) < self.entries.len() {
            self.entries[idx as usize]
        } else {
            let z: [u8; 4] = [0, 0, 0, 0];
            assert(z@ =~= seq![0u8, 0u8, 0u8, 0u8]);
            z
        }
    }
}

/// The 8-byte PNG signature.
pub open spec fn png_signature() -> Seq<u8> {
    seq![0x89u8, 0x50u8, 0x4Eu8, 0x47u8, 0x0Du8, 0x0Au8, 0x1Au8, 0x0Au8]
}

/// Chunk type `IHDR`.
pub open spec fn tag_ihdr() -> Seq<u8> {
    seq![0x49u8, 0x48u8, 0x44u8, 0x52u8]
}

/// Chunk type `PLTE`.
pub open spec fn tag_plte() -> Seq<u8> {
    seq![0x50u8, 0x4Cu8, 0x54u8, 0x45u8]
}

/// Chunk type `tRNS`.
pub open spec fn tag_trns() -> Seq<u8> {
    seq![0x74u8, 0x52u8, 0x4Eu8, 0x53u8]
}

/// Chunk type `IDAT`.
pub open spec fn tag_idat() -> Seq<u8> {
    seq![0x49u8, 0x44u8, 0x41u8, 0x54u8]
}

/// Chunk type `IEND`.
pub open spec fn tag_iend() -> Seq<u8> {
    seq![0x49u8, 0x45u8, 0x4Eu8, 0x44u8]
}

fn bytes_equal(b: &[u8], off: usize, pat: &[u8]) -> (r: bool)
    requires
        off + pat@.len() <= b@.len(),
    ensures
        r == (b@.subrange(off as int, off + pat@.len()) == pat@),
{
    let n = pat.len();
    let bl = b.len();
    let mut i: usize = 0;
    while i < n
        invariant
            bl == b@.len(),
            n == pat@.len(),
            off + n <= b@.len(),
            i <= n,
            b@.subrange(off as int, off + i) == pat@.take(i as int),
        decreases n - i,
    {
        if b[off + i] != pat[i] {
            assert(b@.subrange(off as int, off + n)[i as int] != pat@[i as int]);
            return false;
        }
        assert(b@.subrange(off as int, off + i + 1) =~= pat@.take(i + 1));
        i = i + 1;
    }
    assert(pat@.take(n as int) =~= pat@);
    true
}

fn read_be32(b: &[u8], o: usize) -> (r: u32)
    requires
        o + 3 < b@.len(),
    ensures
        r == be32(b@[o as int], b@[o + 1], b@[o + 2], b@[o + 3]),
{
    (b[o] as u32) * 0x1000000 + (b[o + 1] as u32) * 0x10000 + (b[o + 2] as u32) * 0x100 + (b[o
        + 3] as u32)
}

/// `(width, height)` from the IHDR chunk of a PNG stream: `None` unless
/// the stream starts with the PNG signature, holds the IHDR type at its
/// canonical place and both dimensions are non-zero.
pub open spec fn png_dimensions_spec(b: Seq<u8>) -> Option<(u32, u32)> {
    if b.len() < 24 || b.subrange(0, 8) != png_signature() || b.subrange(12, 16) != tag_ihdr() {
        None
    } else {
        let w = be32(b[16], b[17], b[18], b[19]);
        let h = be32(b[20], b[21], b[22], b[23]);
        if w == 0 || h == 0 {
            None
        } else {
            Some((w, h))
        }
    }
}

/// Read `(width, height)` from the IHDR chunk of a PNG byte stream.
pub fn read_png_dimensions(bytes: &[u8]) -> (r: Option<(u32, u32)>)
    ensures
        r == png_dimensions_spec(bytes@),
{
    if bytes.len() < 24 {
        return None;
    }
    let sig: [u8; 8] = [0x89, 0x50, 0x4E, 0x47, 0x0D, 0x0A, 0x1A, 0x0A];
    assert(sig@ =~= png_signature());
    if !bytes_equal(bytes, 0, &sig) {
        return None;
    }
    let ihdr: [u8; 4] = [0x49, 0x48, 0x44, 0x52];
    assert(ihdr@ =~= tag_ihdr());
    if !bytes_equal(bytes, 12, &ihdr) {
        return None;
    }
    let w = read_be32(bytes, 16);
    let h = read_be32(bytes, 20);
    if w == 0 || h == 0 {
        return None;
    }
    Some((w, h))
}

/// The PNG chunk walk from offset `off`, carrying the byte ranges of the
/// PLTE and tRNS data found so far: it stops at the first chunk that
/// does not fit, at IDAT or at IEND, and fails (`None`) when an offset
/// would not fit in a `usize`.
pub open spec fn chunk_walk(
    b: Seq<u8>,
    off: int,
    plte: Option<(int, int)>,
    trns: Option<(int, int)>,
) -> Option<(Option<(int, int)>, Option<(int, int)>)>
    decreases b.len() - off,
{
    if off < 0 || off + 12 > b.len() {
        Some((plte, trns))
    } else {
        let len = be32(b[off], b[off + 1], b[off + 2], b[off + 3]) as int;
        let chunk_end = off + 8 + len;
        if chunk_end > usize::MAX || chunk_end + 4 > usize::MAX {
            None
        } else if chunk_end + 4 > b.len() {
            Some((plte, trns))
        } else {
            let ty = b.subrange(off + 4, off + 8);
            if ty == tag_plte() {
                chunk_walk(b, chunk_end + 4, Some((off + 8, chunk_end)), trns)
            } else if ty == tag_trns() {
                chunk_walk(b, chunk_end + 4, plte, Some((off + 8, chunk_end)))
            } else if ty == tag_idat() || ty == tag_iend() {
                Some((plte, trns))
            } else {
                chunk_walk(b, chunk_end + 4, plte, trns)
            }
        }
    }
}

/// The alpha of palette entry `i`: from tRNS when it covers `i`, else
/// opaque.
pub open spec fn palette_alpha(b: Seq<u8>, trns: Option<(int, int)>, i: int) -> u8 {
    match trns {
        Some((ts, te)) => if i < te - ts {
            b[ts + i]
        } else {
            255
        },
        None => 255,
    }
}

/// The palette of a PNG stream: `None` without the signature, without a
/// PLTE chunk before IDAT / IEND, when the PLTE data is empty, not a
/// multiple of 3 or above 256 entries, or when the walk fails.
pub open spec fn png_palette_spec(b: Seq<u8>) -> Option<Seq<Seq<u8>>> {
    if b.len() < 8 || b.subrange(0, 8) != png_signature() {
        None
    } else {
        match chunk_walk(b, 8, None, None) {
            Some((Some((ps, pe)), trns)) => {
                let plen = pe - ps;
                if plen == 0 || plen % 3 != 0 || plen > 256 * 3 {
                    None
                } else {
                    Some(
                        Seq::new(
                            (plen / 3) as nat,
                            |i: int|
                                seq![
                                b[ps + 3 * i],
                                b[ps + 3 * i + 1],
                                b[ps + 3 * i + 2],
                                palette_alpha(b, trns, i),
                            ],
                        ),
                    )
                }
            },
            _ => None,
        }
    }
}

fn walk_chunks(bytes: &[u8]) -> (r: Option<(Option<(usize, usize)>, Option<(usize, usize)>)>)
    requires
        bytes@.len() >= 8,
    ensures
        match chunk_walk(bytes@, 8, None, None) {
            Some((p, t)) => r matches Some((rp, rt)) && opt_range(rp) == p && opt_range(rt) == t && (
            rp matches Some((s, e)) ==> s <= e <= bytes@.len()) && (rt matches Some((s, e)) ==> s
                <= e <= bytes@.len()),
            None => r is None,
        },
{
    let n = bytes.len();
    let mut off: usize = 8;
    let mut plte: Option<(usize, usize)> = None;
    let mut trns: Option<(usize, usize)> = None;
    let plte_tag: [u8; 4] = [0x50, 0x4C, 0x54, 0x45];
    let trns_tag: [u8; 4] = [0x74, 0x52, 0x4E, 0x53];
    let idat_tag: [u8; 4] = [0x49, 0x44, 0x41, 0x54];
    let iend_tag: [u8; 4] = [0x49, 0x45, 0x4E, 0x44];
    assert(plte_tag@ =~= tag_plte());
    assert(trns_tag@ =~= tag_trns());
    assert(idat_tag@ =~= tag_idat());
    assert(iend_tag@ =~= tag_iend());
    while n - off >= 12
        invariant
            n == bytes@.len(),
            8 <= off <= n,
            plte_tag@ == tag_plte(),
            trns_tag@ == tag_trns(),
            idat_tag@ == tag_idat(),
            iend_tag@ == tag_iend(),
            plte matches Some((s, e)) ==> s <= e <= n,
            trns matches Some((s, e)) ==> s <= e <= n,
            chunk_walk(bytes@, 8, None, None) == chunk_walk(
                bytes@,
                off as int,
                opt_range(plte),
                opt_range(trns),
            ),
        decreases n - off,
    {
        let len = read_be32(bytes, off) as usize;
        let chunk_end = match (off + 8).checked_add(len) {
            Some(x) => x,
            None => {
                return None;
            },
        };
        let total_end = match chunk_end.checked_add(4) {
            Some(x) => x,
            None => {
                return None;
            },
        };
        if total_end > n {
            return Some((plte, trns));
        }
        if bytes_equal(bytes, off + 4, &plte_tag) {
            plte = Some((off + 8, chunk_end));
        } else if bytes_equal(bytes, off + 4, &trns_tag) {
            trns = Some((off + 8, chunk_end));
        } else if bytes_equal(bytes, off + 4, &idat_tag) || bytes_equal(bytes, off + 4, &iend_tag) {
            return Some((plte, trns));
        }
        off = total_end;
    }
    Some((plte, trns))
}

/// A byte range read as integers.
pub open spec fn opt_range(o: Option<(usize, usize)>) -> Option<(int, int)> {
    match o {
        Some((s, e)) => Some((s as int, e as int)),
        None => None,
    }
}

/// Walk the PNG chunks for PLTE and tRNS and build the palette: one
/// entry per PLTE triple, its alpha from tRNS where tRNS covers it,
/// opaque otherwise. `None` for a stream without the PNG signature or
/// without a usable PLTE chunk.
pub fn read_png_palette(bytes: &[u8]) -> (r: Option<PngPalette>)
    ensures
        match png_palette_spec(bytes@) {
            Some(es) => r is Some && r->0.entries@.len() == es.len() && forall|i: int|
                0 <= i < es.len() ==> (#[trigger] r->0.entries@[i])@ == es[i],
            None => r is None,
        },
{
    if bytes.len() < 8 {
        return None;
    }
    let sig: [u8; 8] = [0x89, 0x50, 0x4E, 0x47, 0x0D, 0x0A, 0x1A, 0x0A];
    assert(sig@ =~= png_signature());
    if !bytes_equal(bytes, 0, &sig) {
        return None;
    }
    let (plte, trns) = match walk_chunks(bytes) {
        Some(w) => w,
        None => {
            return None;
        },
    };
    let (ps, pe) = match plte {
        Some(p) => p,
        None => {
            return None;
        },
    };
    let plen = pe - ps;
    if plen == 0 || plen % 3 != 0 || plen > 256 * 3 {
        return None;
    }
    let n = plen / 3;
    let m = match trns {
        Some((ts, te)) => if te - ts < n {
            te - ts
        } else {
            n
        },
        None => 0,
    };
    let ghost es = png_palette_spec(bytes@)->0;
    let mut entries: Vec<[u8; 4]> = Vec::new();
    for i in 0..n
        invariant
            n == plen / 3,
            plen == pe - ps,
            ps <= pe <= bytes@.len(),
            es.len() == n,
            trns matches Some((s, e)) ==> s <= e <= bytes@.len(),
            m == match trns {
                Some((ts, te)) => if te - ts < n {
                    (te - ts) as usize
                } else {
                    n
                },
                None => 0,
            },
            es == png_palette_spec(bytes@)->0,
            png_palette_spec(bytes@) == Some(
                Seq::new(
                    (plen / 3) as nat,
                    |j: int|
                        seq![
                        bytes@[ps + 3 * j],
                        bytes@[ps + 3 * j + 1],
                        bytes@[ps + 3 * j + 2],
                        palette_alpha(bytes@, opt_range(trns), j),
                    ],
                ),
            ),
            entries@.len() == i,
            forall|j: int| 0 <= j < i ==> (#[trigger] entries@[j])@ == es[j],
    {
        let a = if i < m {
            match trns {
                Some((ts, te)) => bytes[ts + i],
                None => 255,
            }
        } else {
            255
        };
        let e: [u8; 4] = [bytes[ps + 3 * i], bytes[ps + 3 * i + 1], bytes[ps + 3 * i + 2], a];
        assert(e@ =~= es[i as int]);
        entries.push(e);
    }
    Some(PngPalette { entries })
}

/// One plane of a decoded image: row stride in bytes and the bytes.
#[derive(Debug, Clone)]
pub struct DecodedPlane {
    /// Bytes per row.
    pub stride: usize,
    /// Row-major pixel bytes.
    pub data: Vec<u8>,
}

/// A decoded image as its planes; conversion reads the first.
#[derive(Debug, Clone)]
pub struct DecodedFrame {
    /// The image planes.
    pub planes: Vec<DecodedPlane>,
}

/// The entries of an optional palette, as byte sequences.
pub open spec fn palette_view(p: Option<&PngPalette>) -> Option<Seq<Seq<u8>>> {
    match p {
        Some(pal) => Some(pal.entries@.map_values(|e: [u8; 4]| e@)),
        None => None,
    }
}

/// The RGBA of the source pixel at byte `o` of `d` with `bpp` bytes
/// per pixel: RGBA copied, RGB made opaque, gray + alpha splatted, and
/// one byte either looked up in the palette (transparent black past its
/// end) or splatted as opaque gray.
pub open spec fn pixel_spec(d: Seq<u8>, o: int, bpp: int, palette: Option<Seq<Seq<u8>>>) -> Seq<u8> {
    if bpp == 4 {
        d.subrange(o, o + 4)
    } else if bpp == 3 {
        seq![d[o], d[o + 1], d[o + 2], 255u8]
    } else if bpp == 2 {
        seq![d[o], d[o], d[o], d[o + 1]]
    } else {
        match palette {
            Some(p) => if (d[o] as int) < p.len() {
                p[d[o] as int]
            } else {
                seq![0u8, 0u8, 0u8, 0u8]
            },
            None => seq![d[o], d[o], d[o], 255u8],
        }
    }
}

/// The 4 bytes of pixel `p` of an RGBA buffer.
pub open spec fn pixel_at(d: Seq<u8>, p: int) -> Seq<u8> {
    d.subrange(4 * p, 4 * p + 4)
}

/// The planes of a decoded image as `(stride, bytes)`.
pub open spec fn frame_planes(f: DecodedFrame) -> Seq<(usize, Seq<u8>)> {
    f.planes@.map_values(|p: DecodedPlane| (p.stride, p.data@))
}

/// The first of `planes` can be read as a `width × height` image: rows
/// of `stride` bytes, 1 to 4 bytes per pixel with no padding, and
/// enough data for every row.
pub open spec fn frame_convertible(planes: Seq<(usize, Seq<u8>)>, width: u32, height: u32) -> bool {
    &&& planes.len() > 0
    &&& width > 0 && height > 0
    &&& planes[0].0 != 0
    &&& planes[0].1.len() > 0
    &&& (planes[0].0 as int) % (width as int) == 0
    &&& 1 <= (planes[0].0 as int) / (width as int) <= 4
    &&& planes[0].1.len() >= planes[0].0 * height
}

/// `r` is the image with `planes` converted to RGBA at `width × height`
/// through `palette`: the pixels of the first plane (bytes per pixel
/// from `stride / width`) when the plane can be read so, else an empty
/// bitmap.
pub open spec fn rgba_conversion(
    planes: Seq<(usize, Seq<u8>)>,
    width: u32,
    height: u32,
    palette: Option<Seq<Seq<u8>>>,
    r: RgbaBitmap,
) -> bool {
    &&& !frame_convertible(planes, width, height) ==> r.width == 0 && r.height == 0
        && r.data@.len() == 0
    &&& frame_convertible(planes, width, height) ==> {
        &&& r.width == width
        &&& r.height == height
        &&& r.wf()
        &&& forall|p: int|
            0 <= p < width * height ==> #[trigger] pixel_at(r.data@, p) == pixel_spec(
                planes[0].1,
                (p / (width as int)) * (planes[0].0 as int) + (p % (width as int)) * ((
                planes[0].0 as int) / (width as int)),
                (planes[0].0 as int) / (width as int),
                palette,
            )
    }
}

/// Pixel `(x, y)` of a `w × h` image is pixel `y * w + x` in row-major
/// order.
proof fn lemma_pixel_index(x: int, y: int, w: int, h: int)
    requires
        0 <= x < w,
        0 <= y < h,
    ensures
        0 <= y * w + x < w * h,
        (y * w + x) / w == y,
        (y * w + x) % w == x,
{
    vstd::arithmetic::div_mod::lemma_fundamental_div_mod_converse_div(y * w + x, w, y, x);
    vstd::arithmetic::div_mod::lemma_fundamental_div_mod_converse_mod(y * w + x, w, y, x);
    assert(0 <= y * w + x < w * h) by (nonlinear_arith)
        requires
            0 <= x < w,
            0 <= y < h,
    ;
}

/// How each source pixel becomes an RGBA pixel: pixel `(x, y)` of the
/// result, bytes `4 * (y * width + x)` onwards, comes from the source
/// bytes at `y * stride + x * bpp`. Four bytes are copied as they are;
/// three bytes keep their colour and become opaque; two bytes are gray
/// and alpha, the gray spread over red, green and blue and the alpha
/// kept; one byte indexes the palette (transparent black past its end)
/// or, without a palette, is an opaque gray.
pub proof fn lemma_rgba_pixels(
    planes: Seq<(usize, Seq<u8>)>,
    width: u32,
    height: u32,
    palette: Option<Seq<Seq<u8>>>,
    r: RgbaBitmap,
    x: int,
    y: int,
)
    requires
        rgba_conversion(planes, width, height, palette, r),
        frame_convertible(planes, width, height),
        0 <= x < width,
        0 <= y < height,
    ensures
        ({
            let d = planes[0].1;
            let bpp = (planes[0].0 as int) / (width as int);
            let src = y * (planes[0].0 as int) + x * bpp;
            let dst = 4 * (y * width + x);
            let out = r.data@;
            &&& 0 <= dst && dst + 4 <= out.len()
            &&& bpp == 4 ==> out[dst] == d[src] && out[dst + 1] == d[src + 1] && out[dst + 2] == d[src + 2]
                && out[dst + 3] == d[src + 3]
            &&& bpp == 3 ==> out[dst] == d[src] && out[dst + 1] == d[src + 1] && out[dst + 2] == d[src + 2]
                && out[dst + 3] == 255
            &&& bpp == 2 ==> out[dst] == d[src] && out[dst + 1] == d[src] && out[dst + 2] == d[src]
                && out[dst + 3] == d[src + 1]
            &&& bpp == 1 && palette is None ==> out[dst] == d[src] && out[dst + 1] == d[src] && out[dst
                + 2] == d[src] && out[dst + 3] == 255
            &&& bpp == 1 && palette is Some ==> if (d[src] as int) < palette.unwrap().len() {
                out.subrange(dst, dst + 4) == palette.unwrap()[d[src] as int]
            } else {
                out[dst] == 0 && out[dst + 1] == 0 && out[dst + 2] == 0 && out[dst + 3] == 0
            }
        }),
{
    let w = width as int;
    let h = height as int;
    lemma_pixel_index(x, y, w, h);
    let p = y * w + x;
    let bpp = (planes[0].0 as int) / w;
    let d = planes[0].1;
    assert(pixel_at(r.data@, p) == pixel_spec(d, (p / w) * (planes[0].0 as int) + (p % w) * bpp, bpp, palette));
    assert((p / w) * (planes[0].0 as int) + (p % w) * bpp == y * (planes[0].0 as int) + x * bpp);
    assert(4 * p + 4 <= 4 * (w * h)) by (nonlinear_arith)
        requires
            0 <= p < w * h,
    ;
    assert(r.data@.len() == w * h * 4);
    assert(4 * p + 4 <= r.data@.len()) by (nonlinear_arith)
        requires
            4 * p + 4 <= 4 * (w * h),
            r.data@.len() == w * h * 4,
    ;
    let px = pixel_at(r.data@, p);
    assert(px[0] == r.data@[4 * p] && px[1] == r.data@[4 * p + 1] && px[2] == r.data@[4 * p + 2] && px[3]
        == r.data@[4 * p + 3]);
    let stride = planes[0].0 as int;
    let src = y * stride + x * bpp;
    vstd::arithmetic::div_mod::lemma_fundamental_div_mod(stride, w);
    assert(stride == w * bpp);
    assert(0 <= src && src + bpp <= d.len()) by (nonlinear_arith)
        requires
            stride == w * bpp,
            src == y * stride + x * bpp,
            0 <= x < w,
            0 <= y < h,
            1 <= bpp,
            d.len() >= stride * h,
    ;
    if bpp == 4 {
        assert(px == d.subrange(src, src + 4));
    }
}

/// Convert the first plane of a decoded PNG frame to a straight-alpha
/// RGBA8 bitmap of the PNG's `width × height` (bytes per pixel from
/// `stride / width`): RGBA copied, RGB made opaque, gray + alpha
/// splatted, one byte per pixel through `palette` when given, else as
/// opaque gray. An empty bitmap when the plane cannot be read so.
pub fn videoframe_to_rgba(
    frame: &DecodedFrame,
    width: u32,
    height: u32,
    palette: Option<&PngPalette>,
) -> (r: RgbaBitmap)
    requires
        width * height * 4 <= usize::MAX,
    ensures
        rgba_conversion(frame_planes(*frame), width, height, palette_view(palette), r),
{
    let empty = RgbaBitmap { width: 0, height: 0, data: Vec::new() };
    if frame.planes.len() == 0 || width == 0 || height == 0 {
        return empty;
    }
    let plane = &frame.planes[0];
    if plane.stride == 0 || plane.data.len() == 0 {
        return empty;
    }
    let w = width as usize;
    let h = height as usize;
    if plane.stride % w != 0 {
        return empty;
    }
    let bpp = plane.stride / w;
    if bpp < 1 || bpp > 4 {
        return empty;
    }
    if plane.data.len() / h < plane.stride {
        proof {
            let dl = plane.data@.len() as int;
            let st = plane.stride;
            assert(dl < st * h) by (nonlinear_arith)
                requires
                    dl / (h as int) < st,
                    h > 0,
            ;
        }
        return empty;
    }
    let ghost d = plane.data@;
    let ghost pal = palette_view(palette);
    let stride = plane.stride;
    let dlen = plane.data.len();
    proof {
        assert(stride == bpp * w) by (nonlinear_arith)
            requires
                stride % w == 0,
                bpp == stride / w,
                w > 0,
        ;
        assert(dlen >= stride * h) by (nonlinear_arith)
            requires
                dlen / h >= stride,
                h > 0,
        ;
    }
    let mut out: Vec<u8> = Vec::new();
    assert(4 * (0 * w) == 0) by (nonlinear_arith);
    for row in 0..h
        invariant
            w == width,
            h == height,
            w > 0,
            stride == bpp * w,
            1 <= bpp <= 4,
            d == plane.data@,
            dlen == d.len(),
            dlen >= stride * h,
            pal == palette_view(palette),
            out@.len() == 4 * (row * w),
            forall|p: int|
                0 <= p < row * w ==> #[trigger] pixel_at(out@, p) == pixel_spec(
                    d,
                    (p / (w as int)) * stride + (p % (w as int)) * bpp,
                    bpp as int,
                    pal,
                ),
    {
        for col in 0..w
            invariant
                w == width,
                h == height,
                w > 0,
                row < h,
                stride == bpp * w,
                1 <= bpp <= 4,
                d == plane.data@,
                dlen == d.len(),
                dlen >= stride * h,
                pal == palette_view(palette),
                out@.len() == 4 * (row * w + col),
                forall|p: int|
                    0 <= p < row * w + col ==> #[trigger] pixel_at(out@, p) == pixel_spec(
                        d,
                        (p / (w as int)) * stride + (p % (w as int)) * bpp,
                        bpp as int,
                        pal,
                    ),
        {
            proof {
                assert(row * stride + col * bpp + bpp <= stride * h) by (nonlinear_arith)
                    requires
                        stride == bpp * w,
                        row < h,
                        col < w,
                ;
                vstd::arithmetic::div_mod::lemma_fundamental_div_mod_converse(
                    (row * w + col) as int,
                    w as int,
                    row as int,
                    col as int,
                );
            }
            let src_off = row * stride + col * bpp;
            let ghost before = out@;
            let ghost p = (row * w + col) as int;
            if bpp == 4 {
                out.push(plane.data[src_off]);
                out.push(plane.data[src_off + 1]);
                out.push(plane.data[src_off + 2]);
                out.push(plane.data[src_off + 3]);
            } else if bpp == 3 {
                out.push(plane.data[src_off]);
                out.push(plane.data[src_off + 1]);
                out.push(plane.data[src_off + 2]);
                out.push(255);
            } else if bpp == 2 {
                let y = plane.data[src_off];
                let a = plane.data[src_off + 1];
                out.push(y);
                out.push(y);
                out.push(y);
                out.push(a);
            } else {
                let idx = plane.data[src_off];
                match palette {
                    Some(pl) => {
                        let rgba = pl.lookup(idx);
                        out.push(rgba[0]);
                        out.push(rgba[1]);
                        out.push(rgba[2]);
                        out.push(rgba[3]);
                    },
                    None => {
                        out.push(idx);
                        out.push(idx);
                        out.push(idx);
                        out.push(255);
                    },
                }
            }
            assert(pixel_at(out@, p) =~= pixel_spec(d, (p / (w as int)) * stride + (p % (w as int)) * bpp, bpp as int, pal));
            assert forall|q: int| 0 <= q < p + 1 implies #[trigger] pixel_at(out@, q) == pixel_spec(
                d,
                (q / (w as int)) * stride + (q % (w as int)) * bpp,
                bpp as int,
                pal,
            ) by {
                if q < p {
                    assert(pixel_at(out@, q) =~= pixel_at(before, q));
                }
            }
        }
        assert(4 * (row * w + w) == 4 * ((row + 1) * w)) by (nonlinear_arith);
    }
    proof {
        assert(4 * (h * w) == width * height * 4) by (nonlinear_arith)
            requires
                w == width,
                h == height,
        ;
    }
    RgbaBitmap { width, height, data: out }
}

/// The planes of the frame `oxideav_png::decode_png_to_frame` decodes
/// from `bytes`, `None` when it rejects them.
pub uninterp spec fn png_decoded(bytes: Seq<u8>) -> Option<Seq<(usize, Seq<u8>)>>;

/// Calls `oxideav_png::decode_png_to_frame` (no timestamp) and moves
/// the planes of the frame into a [`DecodedFrame`]; `None` on its
/// error. Claims only that the result is a function of `bytes`, named
/// [`png_decoded`]; that the decoder returns on every input, as its
/// `Result` signature suggests, is taken from that signature and not
/// stated further.
#[verifier::external_body]
fn decode_png(bytes: &[u8]) -> (r: Option<DecodedFrame>)
    ensures
        match r {
            Some(f) => png_decoded(bytes@) == Some(frame_planes(f)),
            None => png_decoded(bytes@) is None,
        },
{
    match oxideav_png::decode_png_to_frame(bytes, None) {
        Ok(frame) => Some(DecodedFrame {
            planes: frame.planes.into_iter().map(|p| DecodedPlane { stride: p.stride, data: p.data }).collect(),
        }),
        Err(_) => None,
    }
}

/// The colour bitmap of the PNG payload `png` whose decoded planes are
/// `decoded`: none when the PNG did not decode or its IHDR carries no
/// dimensions, else the planes converted to RGBA at the IHDR size
/// through the PNG's palette.
pub open spec fn color_bitmap_spec(
    decoded: Option<Seq<(usize, Seq<u8>)>>,
    png: Seq<u8>,
    r: Option<RgbaBitmap>,
) -> bool {
    match (decoded, png_dimensions_spec(png)) {
        (Some(planes), Some((w, h))) => r matches Some(b) && rgba_conversion(
            planes,
            w,
            h,
            png_palette_spec(png),
            b,
        ),
        _ => r is None,
    }
}

/// The IHDR size of `png`, if any, fits an RGBA buffer in memory.
pub open spec fn png_size_fits(png: Seq<u8>) -> bool {
    png_dimensions_spec(png) matches Some((w, h)) ==> w * h * 4 <= usize::MAX
}

/// The colour bitmap of a CBDT PNG payload from its decoded frame:
/// `None` when the frame did not decode or the IHDR gives no size, else
/// the frame's first plane as straight-alpha RGBA at the IHDR size,
/// through the PLTE / tRNS palette when the PNG has one.
pub fn color_bitmap_from_frame(decoded: Option<DecodedFrame>, png: &[u8]) -> (r: Option<RgbaBitmap>)
    requires
        png_size_fits(png@),
    ensures
        color_bitmap_spec(
            match decoded {
                Some(f) => Some(frame_planes(f)),
                None => None,
            },
            png@,
            r,
        ),
{
    let frame = match decoded {
        Some(f) => f,
        None => return None,
    };
    let (w, h) = match read_png_dimensions(png) {
        Some(d) => d,
        None => return None,
    };
    let palette = read_png_palette(png);
    proof {
        if palette is Some {
            let pal = palette->0;
            assert(pal.entries@.map_values(|e: [u8; 4]| e@) =~= png_palette_spec(png@)->0);
        }
    }
    let bitmap = videoframe_to_rgba(&frame, w, h, palette.as_ref());
    Some(bitmap)
}

/// Decode the CBDT PNG payload `png` to a straight-alpha RGBA bitmap at
/// its IHDR size (see [`color_bitmap_from_frame`]); `None` when the PNG
/// does not decode or has no usable IHDR.
pub fn decode_color_bitmap(png: &[u8]) -> (r: Option<RgbaBitmap>)
    requires
        png_size_fits(png@),
    ensures
        color_bitmap_spec(png_decoded(png@), png@, r),
{
    let decoded = decode_png(png);
    color_bitmap_from_frame(decoded, png)
}

} // verus!
