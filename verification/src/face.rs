//! Font faces loaded from TrueType / OpenType-CFF bytes, their glyph
//! lookup, and TrueType contours as path commands.

use vstd::prelude::*;

use crate::font_data::{
    gsub_feature_tags, open_ttc, open_ttf, otf_name, otf_name_string, ttf_has_color, ttf_name, ttf_strikes, TtfFont,
};

verus! {

/// Which underlying parser a face wraps.
#[derive(Debug, Clone, Copy, PartialEq, Eq, Structural)]
pub enum FaceKind {
    /// TrueType / quadratic-Bezier outlines (`oxideav-ttf`).
    Ttf,
    /// OpenType-CFF / cubic-Bezier outlines (`oxideav-otf`).
    Otf,
}

/// One point of a TrueType contour, in font units.
#[derive(Debug, Clone, Copy, PartialEq, Eq, Structural)]
pub struct TtPoint {
    /// Horizontal coordinate.
    pub x: i16,
    /// Vertical coordinate.
    pub y: i16,
    /// Whether the point lies on the curve (else it is a quadratic
    /// control point).
    pub on_curve: bool,
}

/// One closed TrueType contour.
#[derive(Debug, Clone, PartialEq, Eq)]
pub struct TtContour {
    /// The contour's points in order; it closes from the last to the
    /// first.
    pub points: Vec<TtPoint>,
}

/// A point in half font units (both coordinates doubled), so that the
/// midpoint of two points in font units is exact.
#[derive(Debug, Clone, Copy, PartialEq, Eq, Structural)]
pub struct HalfPoint {
    /// Twice the horizontal coordinate.
    pub x: i32,
    /// Twice the vertical coordinate.
    pub y: i32,
}

/// A drawing command of a glyph outline, in half font units.
#[derive(Debug, Clone, Copy, PartialEq, Eq, Structural)]
pub enum OutlineCommand {
    /// Start a contour at the point.
    MoveTo(HalfPoint),
    /// Straight line to the point.
    LineTo(HalfPoint),
    /// Quadratic Bezier segment through `control` to `end`.
    QuadCurveTo { control: HalfPoint, end: HalfPoint },
    /// Close the contour.
    Close,
}

/// A point of the contour in half units.
pub open spec fn half_of(p: TtPoint) -> HalfPoint {
    HalfPoint { x: (2 * p.x) as i32, y: (2 * p.y) as i32 }
}

/// The midpoint of two points of the contour, in half units.
pub open spec fn mid_of(a: TtPoint, b: TtPoint) -> HalfPoint {
    HalfPoint { x: (a.x + b.x) as i32, y: (a.y + b.y) as i32 }
}

/// The first on-curve point of `pts` at or after `k`.
pub open spec fn first_on_curve(pts: Seq<TtPoint>, k: int) -> Option<int>
    decreases pts.len() - k,
{
    if k < 0 || k >= pts.len() {
        None
    } else if pts[k].on_curve {
        Some(k)
    } else {
        first_on_curve(pts, k + 1)
    }
}

/// Where a non-empty contour starts: its first on-curve point, or, when
/// it has none, the midpoint of its first two points.
pub open spec fn contour_start(pts: Seq<TtPoint>) -> HalfPoint {
    match first_on_curve(pts, 0) {
        Some(s) => half_of(pts[s]),
        None => mid_of(pts[0], pts[1int % pts.len() as int]),
    }
}

/// The points walked after the start: the rest of the contour from the
/// start point round to it, or every point when the start is a
/// synthesised midpoint.
pub open spec fn walk_points(pts: Seq<TtPoint>) -> Seq<TtPoint> {
    match first_on_curve(pts, 0) {
        Some(s) => Seq::new((pts.len() - 1) as nat, |i: int| pts[(s + 1 + i) % pts.len() as int]),
        None => pts,
    }
}

/// The commands for the first `k` walked points, and the pending
/// control point: an on-curve point ends a line, or a quadratic through
/// the pending control; two control points in a row imply an on-curve
/// point at their midpoint.
pub open spec fn walk_commands(rest: Seq<TtPoint>, k: int) -> (Seq<OutlineCommand>, Option<TtPoint>)
    decreases k,
{
    if k <= 0 {
        (Seq::empty(), None)
    } else {
        let (cmds, prev) = walk_commands(rest, k - 1);
        let p = rest[k - 1];
        if p.on_curve {
            match prev {
                Some(c) => (cmds.push(OutlineCommand::QuadCurveTo { control: half_of(c), end: half_of(p) }), None),
                None => (cmds.push(OutlineCommand::LineTo(half_of(p))), None),
            }
        } else {
            match prev {
                Some(c) => (cmds.push(OutlineCommand::QuadCurveTo { control: half_of(c), end: mid_of(c, p) }), Some(p)),
                None => (cmds, Some(p)),
            }
        }
    }
}

/// The commands of one contour: move to its start, walk its points, a
/// trailing control point curves back to the start, then close. An
/// empty contour draws nothing.
pub open spec fn contour_commands(pts: Seq<TtPoint>) -> Seq<OutlineCommand> {
    if pts.len() == 0 {
        Seq::empty()
    } else {
        let start = contour_start(pts);
        let rest = walk_points(pts);
        let (cmds, prev) = walk_commands(rest, rest.len() as int);
        let tail = match prev {
            Some(c) => seq![OutlineCommand::QuadCurveTo { control: half_of(c), end: start }],
            None => Seq::empty(),
        };
        seq![OutlineCommand::MoveTo(start)] + cmds + tail + seq![OutlineCommand::Close]
    }
}

/// The commands of the first `k` contours, in order.
pub open spec fn outline_commands(contours: Seq<TtContour>, k: int) -> Seq<OutlineCommand>
    decreases k,
{
    if k <= 0 {
        Seq::empty()
    } else {
        outline_commands(contours, k - 1) + contour_commands(contours[k - 1].points@)
    }
}

fn half(p: TtPoint) -> (r: HalfPoint)
    ensures
        r == half_of(p),
{
    HalfPoint { x: 2 * (p.x as i32), y: 2 * (p.y as i32) }
}

fn mid(a: TtPoint, b: TtPoint) -> (r: HalfPoint)
    ensures
        r == mid_of(a, b),
{
    HalfPoint { x: a.x as i32 + b.x as i32, y: a.y as i32 + b.y as i32 }
}

proof fn lemma_first_on_curve(pts: Seq<TtPoint>, k: int)
    requires
        0 <= k,
    ensures
        first_on_curve(pts, k) matches Some(s) ==> k <= s < pts.len() && pts[s].on_curve,
        first_on_curve(pts, k) is None ==> forall|j: int| k <= j < pts.len() ==> !(#[trigger] pts[j]).on_curve,
    decreases pts.len() - k,
{
    if k < pts.len() {
        lemma_first_on_curve(pts, k + 1);
    }
}

fn contour_to_commands(pts: &Vec<TtPoint>, out: &mut Vec<OutlineCommand>)
    ensures
        final(out)@ == old(out)@ + contour_commands(pts@),
{
    let n = pts.len();
    if n == 0 {
        assert(old(out)@ + contour_commands(pts@) =~= old(out)@);
        return;
    }
    let mut s: usize = 0;
    while s < n && !pts[s].on_curve
        invariant
            s <= n,
            n == pts@.len(),
            first_on_curve(pts@, 0) == first_on_curve(pts@, s as int),
        decreases n - s,
    {
        s = s + 1;
    }
    proof {
        lemma_first_on_curve(pts@, 0);
    }
    let found = s < n;
    let ghost base = out@;
    let start = if found {
        half(pts[s])
    } else {
        mid(pts[0], pts[1 % n])
    };
    out.push(OutlineCommand::MoveTo(start));
    let ghost rest = walk_points(pts@);
    let walk_len: usize = if found {
        n - 1
    } else {
        n
    };
    let mut prev: Option<TtPoint> = None;
    let mut k: usize = 0;
    while k < walk_len
        invariant
            n == pts@.len(),
            n > 0,
            walk_len == rest.len(),
            rest == walk_points(pts@),
            found ==> s < n && first_on_curve(pts@, 0) == Some(s as int),
            !found ==> first_on_curve(pts@, 0) is None,
            k <= walk_len,
            out@ == base + seq![OutlineCommand::MoveTo(start)] + walk_commands(rest, k as int).0,
            prev == walk_commands(rest, k as int).1,
        decreases walk_len - k,
    {
        let p = if found {
            let idx = if k < n - 1 - s {
                s + 1 + k
            } else {
                k - (n - 1 - s)
            };
            assert((s + 1 + k) % (n as int) == idx) by (nonlinear_arith)
                requires
                    s < n,
                    k < n,
                    idx == (if s + 1 + k < n {
                        s + 1 + k
                    } else {
                        s + 1 + k - n
                    }),
            ;
            assert(rest[k as int] == pts@[(s + 1 + k) % (n as int)]);
            pts[idx]
        } else {
            pts[k]
        };
        assert(p == rest[k as int]);
        if p.on_curve {
            match prev {
                Some(c) => {
                    out.push(OutlineCommand::QuadCurveTo { control: half(c), end: half(p) });
                },
                None => {
                    out.push(OutlineCommand::LineTo(half(p)));
                },
            }
            prev = None;
        } else {
            match prev {
                Some(c) => {
                    out.push(OutlineCommand::QuadCurveTo { control: half(c), end: mid(c, p) });
                },
                None => {},
            }
            prev = Some(p);
        }
        k = k + 1;
    }
    match prev {
        Some(c) => {
            out.push(OutlineCommand::QuadCurveTo { control: half(c), end: start });
        },
        None => {},
    }
    out.push(OutlineCommand::Close);
    assert(out@ =~= base + contour_commands(pts@));
}

/// Convert TrueType contours to path commands in half font units: each
/// non-empty contour moves to its first on-curve point (or, with none,
/// to the midpoint of its first two points), draws a line to each
/// on-curve point that follows an on-curve point and a quadratic to one
/// that follows a control point, puts an implied on-curve point at the
/// midpoint of two consecutive control points, curves a trailing
/// control point back to the start, and closes.
pub fn tt_outline_to_path(contours: &[TtContour]) -> (r: Vec<OutlineCommand>)
    ensures
        r@ == outline_commands(contours@, contours@.len() as int),
{
    let mut out: Vec<OutlineCommand> = Vec::new();
    for k in 0..contours.len()
        invariant
            out@ == outline_commands(contours@, k as int),
    {
        contour_to_commands(&contours[k].points, &mut out);
    }
    out
}

/// The error type of `oxideav-ttf`, carried through unchanged.
#[verifier::external_type_specification]
#[verifier::external_body]
pub struct ExTtfError(oxideav_ttf::Error);

/// The error type of `oxideav-otf`, carried through unchanged.
#[verifier::external_type_specification]
#[verifier::external_body]
pub struct ExOtfError(oxideav_otf::Error);

/// Why a face could not be loaded or read.
#[derive(Debug)]
pub enum FontError {
    /// The TrueType parser rejected the bytes.
    Ttf(oxideav_ttf::Error),
    /// The OpenType-CFF parser rejected the bytes.
    Otf(oxideav_otf::Error),
    /// A TrueType operation was asked of a face of the other flavour.
    WrongFaceKind {
        /// The flavour the operation needs.
        expected: FaceKind,
        /// The face's flavour.
        actual: FaceKind,
    },
}

/// What a face keeps of its font's header tables.
#[derive(Debug, Clone)]
pub struct FaceMetrics {
    /// `head.unitsPerEm`.
    pub units_per_em: u16,
    /// Typographic ascent in font units.
    pub ascent: i16,
    /// Typographic descent in font units.
    pub descent: i16,
    /// Line gap in font units.
    pub line_gap: i16,
    /// Family name from the `name` table, if any.
    pub family: Option<String>,
    /// `OS/2.usWeightClass`.
    pub weight_class: u16,
}

/// A family name as characters.
pub open spec fn opt_string_view(s: Option<String>) -> Option<Seq<char>> {
    match s {
        Some(v) => Some(v@),
        None => None,
    }
}

/// The metrics as plain values: units per em, ascent, descent, line gap,
/// family name and weight class.
pub open spec fn metrics_view(m: FaceMetrics) -> (u16, i16, i16, i16, Option<Seq<char>>, u16) {
    (m.units_per_em, m.ascent, m.descent, m.line_gap, opt_string_view(m.family), m.weight_class)
}

/// The metrics `oxideav_ttf::Font::from_bytes` reads from `bytes`, or
/// `None` when it rejects them.
pub uninterp spec fn ttf_metrics(bytes: Seq<u8>) -> Option<(u16, i16, i16, i16, Option<Seq<char>>, u16)>;

/// The metrics of subfont `index` that
/// `oxideav_ttf::Font::from_collection_bytes` reads from `bytes`, or
/// `None` when it rejects them.
pub uninterp spec fn ttc_metrics(bytes: Seq<u8>, index: u32) -> Option<(u16, i16, i16, i16, Option<Seq<char>>, u16)>;

/// The metrics `oxideav_otf::Font::from_bytes` reads from `bytes`
/// (units per em, ascent, descent, line gap, family name), or `None`
/// when it rejects them.
pub uninterp spec fn otf_metrics(bytes: Seq<u8>) -> Option<(u16, i16, i16, i16, Option<Seq<char>>)>;

/// Calls `oxideav_ttf::Font::from_bytes` and reads the parsed font's
/// `units_per_em`, `ascent`, `descent`, `line_gap`, `family_name` and
/// `weight_class`. Claims only that the result is a function of
/// `bytes`, named [`ttf_metrics`]; that the parser returns on every
/// input is taken from its `Result` signature.
#[verifier::external_body]
fn ttf_font_metrics(bytes: &[u8]) -> (r: Result<FaceMetrics, oxideav_ttf::Error>)
    ensures
        match r {
            Ok(m) => ttf_metrics(bytes@) == Some(metrics_view(m)),
            Err(_) => ttf_metrics(bytes@) is None,
        },
{
    let f = oxideav_ttf::Font::from_bytes(bytes)?;
    Ok(FaceMetrics {
        units_per_em: f.units_per_em(),
        ascent: f.ascent(),
        descent: f.descent(),
        line_gap: f.line_gap(),
        family: f.family_name().map(|s| s.to_string()),
        weight_class: f.weight_class(),
    })
}

/// Calls `oxideav_ttf::Font::from_collection_bytes` for subfont `index`
/// and reads the same fields as [`ttf_font_metrics`]. Claims only that
/// the result is a function of `bytes` and `index`, named
/// [`ttc_metrics`]; that the parser returns on every input is taken
/// from its `Result` signature.
#[verifier::external_body]
fn ttc_font_metrics(bytes: &[u8], index: u32) -> (r: Result<FaceMetrics, oxideav_ttf::Error>)
    ensures
        match r {
            Ok(m) => ttc_metrics(bytes@, index) == Some(metrics_view(m)),
            Err(_) => ttc_metrics(bytes@, index) is None,
        },
{
    let f = oxideav_ttf::Font::from_collection_bytes(bytes, index)?;
    Ok(FaceMetrics {
        units_per_em: f.units_per_em(),
        ascent: f.ascent(),
        descent: f.descent(),
        line_gap: f.line_gap(),
        family: f.family_name().map(|s| s.to_string()),
        weight_class: f.weight_class(),
    })
}

/// Calls `oxideav_otf::Font::from_bytes` and reads the parsed font's
/// `units_per_em`, `ascent`, `descent`, `line_gap` and `family_name`.
/// Claims only that the result is a function of `bytes`, named
/// [`otf_metrics`]; that the parser returns on every input is taken
/// from its `Result` signature.
#[verifier::external_body]
fn otf_font_metrics(bytes: &[u8]) -> (r: Result<(u16, i16, i16, i16, Option<String>), oxideav_otf::Error>)
    ensures
        match r {
            Ok(m) => otf_metrics(bytes@) == Some((m.0, m.1, m.2, m.3, opt_string_view(m.4))),
            Err(_) => otf_metrics(bytes@) is None,
        },
{
    let f = oxideav_otf::Font::from_bytes(bytes)?;
    Ok((f.units_per_em(), f.ascent(), f.descent(), f.line_gap(), f.family_name().map(|s| s.to_string())))
}

/// What the cmap of the TrueType font in `bytes` (subfont `index` of a
/// collection when given) maps `c` to, or `None` when the font does not
/// parse.
pub uninterp spec fn ttf_glyph_of(bytes: Seq<u8>, subfont: Option<u32>, c: char) -> Option<Option<u16>>;

/// Calls `oxideav_ttf::Font::from_bytes` and then `glyph_index(c)` on
/// the parsed font. Claims only that the result is a function of
/// `bytes` and `c`, named [`ttf_glyph_of`]; that both return on every
/// input is taken from their signatures.
#[verifier::external_body]
fn ttf_glyph_index(bytes: &[u8], c: char) -> (r: Result<Option<u16>, oxideav_ttf::Error>)
    ensures
        match r {
            Ok(g) => ttf_glyph_of(bytes@, None, c) == Some(g),
            Err(_) => ttf_glyph_of(bytes@, None, c) is None,
        },
{
    Ok(oxideav_ttf::Font::from_bytes(bytes)?.glyph_index(c))
}

/// Calls `oxideav_ttf::Font::from_collection_bytes` for subfont `index`
/// and then `glyph_index(c)`. Claims only that the result is a function
/// of `bytes`, `index` and `c`, named [`ttf_glyph_of`]; that both return
/// on every input is taken from their signatures.
#[verifier::external_body]
fn ttc_glyph_index(bytes: &[u8], index: u32, c: char) -> (r: Result<Option<u16>, oxideav_ttf::Error>)
    ensures
        match r {
            Ok(g) => ttf_glyph_of(bytes@, Some(index), c) == Some(g),
            Err(_) => ttf_glyph_of(bytes@, Some(index), c) is None,
        },
{
    Ok(oxideav_ttf::Font::from_collection_bytes(bytes, index)?.glyph_index(c))
}

/// A loaded font face: the font's bytes, an identity, its flavour, its
/// header metrics, and the subfont index when it came from a TrueType
/// collection.
#[derive(Debug)]
pub struct Face {
    bytes: Vec<u8>,
    id: u64,
    kind: FaceKind,
    metrics: FaceMetrics,
    subfont_index: Option<u32>,
}

impl Face {
    /// The font bytes.
    pub closed spec fn bytes_view(&self) -> Seq<u8> {
        self.bytes@
    }

    /// The identity given at load time.
    pub closed spec fn id_view(&self) -> u64 {
        self.id
    }

    /// The flavour.
    pub closed spec fn kind_view(&self) -> FaceKind {
        self.kind
    }

    /// The header metrics as plain values.
    pub closed spec fn metrics_plain(&self) -> (u16, i16, i16, i16, Option<Seq<char>>, u16) {
        metrics_view(self.metrics)
    }

    /// The subfont index within a collection.
    pub closed spec fn subfont_view(&self) -> Option<u32> {
        self.subfont_index
    }

    /// A face's bytes parse as the font (or collection subfont) it was
    /// loaded as.
    #[verifier::type_invariant]
    closed spec fn parses(&self) -> bool {
        &&& self.kind == FaceKind::Ttf ==> match self.subfont_index {
            None => ttf_metrics(self.bytes@) is Some,
            Some(i) => ttc_metrics(self.bytes@, i) is Some,
        }
        &&& self.kind == FaceKind::Otf ==> otf_metrics(self.bytes@) is Some
    }

    /// Load a TrueType face from `bytes`, with identity `id`; the
    /// parser's error when it rejects them.
    pub fn from_ttf_bytes(bytes: Vec<u8>, id: u64) -> (r: Result<Face, FontError>)
        ensures
            match ttf_metrics(bytes@) {
                Some(m) => r matches Ok(f) && f.bytes_view() == bytes@ && f.id_view() == id
                    && f.kind_view() == FaceKind::Ttf && f.metrics_plain() == m && f.subfont_view()
                    is None,
                None => r matches Err(FontError::Ttf(_)),
            },
    {
        match ttf_font_metrics(bytes.as_slice()) {
            Ok(metrics) => Ok(Face { bytes, id, kind: FaceKind::Ttf, metrics, subfont_index: None }),
            Err(e) => Err(FontError::Ttf(e)),
        }
    }

    /// Load subfont `index` of a TrueType collection from `bytes`, with
    /// identity `id`; the parser's error when it rejects them.
    pub fn from_ttc_bytes(bytes: Vec<u8>, index: u32, id: u64) -> (r: Result<Face, FontError>)
        ensures
            match ttc_metrics(bytes@, index) {
                Some(m) => r matches Ok(f) && f.bytes_view() == bytes@ && f.id_view() == id
                    && f.kind_view() == FaceKind::Ttf && f.metrics_plain() == m && f.subfont_view()
                    == Some(index),
                None => r matches Err(FontError::Ttf(_)),
            },
    {
        match ttc_font_metrics(bytes.as_slice(), index) {
            Ok(metrics) => Ok(Face { bytes, id, kind: FaceKind::Ttf, metrics, subfont_index: Some(index) }),
            Err(e) => Err(FontError::Ttf(e)),
        }
    }

    /// Load an OpenType-CFF face from `bytes`, with identity `id`; its
    /// weight class is the regular 400. The parser's error when it
    /// rejects the bytes.
    pub fn from_otf_bytes(bytes: Vec<u8>, id: u64) -> (r: Result<Face, FontError>)
        ensures
            match otf_metrics(bytes@) {
                Some(m) => r matches Ok(f) && f.bytes_view() == bytes@ && f.id_view() == id
                    && f.kind_view() == FaceKind::Otf && f.metrics_plain() == (m.0, m.1, m.2, m.3, m.4, 400u16)
                    && f.subfont_view() is None,
                None => r matches Err(FontError::Otf(_)),
            },
    {
        match otf_font_metrics(bytes.as_slice()) {
            Ok(m) => {
                let metrics = FaceMetrics {
                    units_per_em: m.0,
                    ascent: m.1,
                    descent: m.2,
                    line_gap: m.3,
                    family: m.4,
                    weight_class: 400,
                };
                Ok(Face { bytes, id, kind: FaceKind::Otf, metrics, subfont_index: None })
            },
            Err(e) => Err(FontError::Otf(e)),
        }
    }

    /// The face's flavour.
    pub fn kind(&self) -> (r: FaceKind)
        ensures
            r == self.kind_view(),
    {
        self.kind
    }

    /// The identity given at load time.
    pub fn id(&self) -> (r: u64)
        ensures
            r == self.id_view(),
    {
        self.id
    }

    /// `head.unitsPerEm`.
    pub fn units_per_em(&self) -> (r: u16)
        ensures
            r == self.metrics_plain().0,
    {
        self.metrics.units_per_em
    }

    /// The family name, if the font has one.
    pub fn family_name(&self) -> (r: Option<&str>)
        ensures
            match r {
                Some(s) => self.metrics_plain().4 == Some(s@),
                None => self.metrics_plain().4 is None,
            },
    {
        match &self.metrics.family {
            Some(s) => Some(s.as_str()),
            None => None,
        }
    }

    /// `OS/2.usWeightClass` (400 for OpenType-CFF faces).
    pub fn weight_class(&self) -> (r: u16)
        ensures
            r == self.metrics_plain().5,
    {
        self.metrics.weight_class
    }

    /// The ascent, descent and line gap in font units.
    pub fn vertical_metrics(&self) -> (r: (i16, i16, i16))
        ensures
            r == (self.metrics_plain().1, self.metrics_plain().2, self.metrics_plain().3),
    {
        (self.metrics.ascent, self.metrics.descent, self.metrics.line_gap)
    }

    /// The subfont index when the face came from a collection.
    pub fn subfont_index(&self) -> (r: Option<u32>)
        ensures
            r == self.subfont_view(),
    {
        self.subfont_index
    }

    /// The font bytes the face was loaded from.
    pub fn raw_bytes(&self) -> (r: &[u8])
        ensures
            r@ == self.bytes_view(),
    {
        self.bytes.as_slice()
    }

    /// Parse the face's TrueType font, the subfont of a collection when
    /// it is one; an error for an OpenType-CFF face. A TrueType face
    /// always parses, since it parsed when it was loaded.
    pub(crate) fn open_font(&self) -> (r: Result<TtfFont<'_>, FontError>)
        ensures
            self.kind_view() == FaceKind::Ttf ==> (r matches Ok(f) && f.bytes_of() == self.bytes_view()
                && f.subfont_of() == self.subfont_view()),
            self.kind_view() == FaceKind::Otf ==> (r matches Err(
                FontError::WrongFaceKind { expected: FaceKind::Ttf, actual: FaceKind::Otf },
            )),
    {
        proof {
            use_type_invariant(self);
        }
        match self.kind {
            FaceKind::Ttf => {},
            FaceKind::Otf => {
                return Err(FontError::WrongFaceKind { expected: FaceKind::Ttf, actual: FaceKind::Otf });
            },
        }
        let opened = match self.subfont_index {
            Some(i) => open_ttc(self.bytes.as_slice(), i),
            None => open_ttf(self.bytes.as_slice()),
        };
        match opened {
            Ok(f) => Ok(f),
            Err(e) => Err(FontError::Ttf(e)),
        }
    }

    /// The best-ranked string of the font's `name` record `name_id`
    /// (Windows English first), if it has one.
    pub fn name_id(&self, name_id: u16) -> (r: Option<String>)
        ensures
            opt_string_view(r) == (if self.kind_view() == FaceKind::Ttf {
                ttf_name(self.bytes_view(), self.subfont_view(), name_id)
            } else {
                otf_name(self.bytes_view(), name_id)
            }),
    {
        proof {
            use_type_invariant(self);
        }
        match self.kind {
            FaceKind::Ttf => match self.open_font() {
                Ok(f) => f.name_string(name_id),
                Err(_) => None,
            },
            FaceKind::Otf => match otf_name_string(self.bytes.as_slice(), name_id) {
                Ok(v) => v,
                Err(_) => None,
            },
        }
    }

    /// Whether the face ships colour bitmaps (CBDT and CBLC tables);
    /// never for an OpenType-CFF face.
    pub fn has_color_bitmaps(&self) -> (r: bool)
        ensures
            r == (self.kind_view() == FaceKind::Ttf && ttf_has_color(self.bytes_view(), self.subfont_view())),
    {
        match self.open_font() {
            Ok(f) => f.has_color(),
            Err(_) => false,
        }
    }

    /// The `(ppem_x, ppem_y)` strikes of the face's colour bitmaps; empty
    /// for an OpenType-CFF face.
    pub fn color_strike_sizes(&self) -> (r: Vec<(u8, u8)>)
        ensures
            r@ == (if self.kind_view() == FaceKind::Ttf {
                ttf_strikes(self.bytes_view(), self.subfont_view())
            } else {
                Seq::empty()
            }),
    {
        match self.open_font() {
            Ok(f) => f.strikes(),
            Err(_) => Vec::new(),
        }
    }

    /// The tags of the GSUB features the face publishes for
    /// `script_tag` (under `lang_tag`, or the default language system),
    /// in order; empty for an OpenType-CFF face.
    pub fn gsub_features_for_script(&self, script_tag: [u8; 4], lang_tag: Option<[u8; 4]>) -> (r: Vec<[u8; 4]>)
        ensures
            r@ == (if self.kind_view() == FaceKind::Ttf {
                gsub_feature_tags(self.bytes_view(), self.subfont_view(), script_tag, lang_tag)
            } else {
                Seq::empty()
            }),
    {
        match self.open_font() {
            Ok(f) => f.gsub_features(script_tag, lang_tag),
            Err(_) => Vec::new(),
        }
    }

    /// Whether the face publishes GSUB feature `feature_tag` for
    /// `script_tag` under the default language system.
    pub fn has_gsub_feature(&self, script_tag: [u8; 4], feature_tag: [u8; 4]) -> (r: bool)
        ensures
            r == (self.kind_view() == FaceKind::Ttf && gsub_feature_tags(
                self.bytes_view(),
                self.subfont_view(),
                script_tag,
                None,
            ).contains(feature_tag)),
    {
        let tags = self.gsub_features_for_script(script_tag, None);
        let mut k: usize = 0;
        while k < tags.len()
            invariant
                k <= tags.len(),
                forall|q: int| 0 <= q < k ==> tags@[q] != feature_tag,
                tags@ == (if self.kind_view() == FaceKind::Ttf {
                    gsub_feature_tags(self.bytes_view(), self.subfont_view(), script_tag, None)
                } else {
                    Seq::empty()
                }),
            decreases tags.len() - k,
        {
            let t: [u8; 4] = tags[k];
            if t[0] == feature_tag[0] && t[1] == feature_tag[1] && t[2] == feature_tag[2] && t[3] == feature_tag[3] {
                assert(tags@.contains(feature_tag)) by {
                    assert(t@ =~= feature_tag@);
                    broadcast use vstd::array::axiom_array_ext_equal;
                    assert(tags@[k as int] == feature_tag);
                }
                return true;
            }
            assert(t != feature_tag) by {
                if t == feature_tag {
                    assert(t[0] == feature_tag[0] && t[1] == feature_tag[1] && t[2] == feature_tag[2] && t[3] == feature_tag[3]);
                }
            }
            k += 1;
        }
        false
    }

    /// The cmap lookup of `c`: `None` when the face is not TrueType or
    /// its font does not parse (see [`Face::glyph_index`]).
    pub open spec fn lookup_spec(&self, c: char) -> Option<Option<u16>> {
        if self.kind_view() != FaceKind::Ttf {
            None
        } else {
            ttf_glyph_of(self.bytes_view(), self.subfont_view(), c)
        }
    }

    /// The glyph the face's cmap maps `c` to (`None` when unmapped); an
    /// error for an OpenType-CFF face or a font that does not parse.
    pub fn glyph_index(&self, c: char) -> (r: Result<Option<u16>, FontError>)
        ensures
            match self.lookup_spec(c) {
                Some(g) => r == Ok::<Option<u16>, FontError>(g),
                None => r is Err,
            },
    {
        match self.kind {
            FaceKind::Ttf => {},
            FaceKind::Otf => {
                return Err(FontError::WrongFaceKind { expected: FaceKind::Ttf, actual: FaceKind::Otf });
            },
        }
        let res = match self.subfont_index {
            Some(i) => ttc_glyph_index(self.bytes.as_slice(), i, c),
            None => ttf_glyph_index(self.bytes.as_slice(), c),
        };
        match res {
            Ok(g) => Ok(g),
            Err(e) => Err(FontError::Ttf(e)),
        }
    }
}

} // verus!
