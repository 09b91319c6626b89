# oxideav_scribe

Text layout building blocks written in Verus, each public function
carrying a `requires` / `ensures` contract that Verus proves.

- `src/` — the verified library:
  - `bidi/` — UAX #9: character classes (`class`), paired brackets
    (`brackets`), paragraph level and matching PDIs (`paragraph`),
    explicit levels X1–X9 (`explicit`, `isolates`), level runs and
    isolating run sequences (`runs`, `sequences`), weak / neutral /
    implicit resolution (`weak`, `neutral`, `implicit`), L1 / L2
    (`line`, `reorder`), the paragraph pipeline (`pipeline`) and
    multi-paragraph text (`text`).
  - `script` — Unicode scripts, their OpenType tags, and script
    resolution with script-run segmentation (`script/resolve`).
  - `layout` — one display line in visual order; whitespace-keeping
    word splitting.
  - `post` — the `post` table's glyph names.
  - `face` — faces loaded from TrueType / OpenType-CFF bytes, their cmap
    lookup, and TrueType contours as path commands in half font units.
  - `font_data` — what positioning reads from a parsed TrueType font
    (advances, kerning, GDEF marks, GPOS anchors and adjustments), its
    colour-bitmap strikes and GSUB feature tags.
  - `position` — glyph positioning in font units: kerning, single
    adjustments, mark and cursive attachment.
  - `face_chain` — the fallback chain assigning each character the first
    face with a glyph for it.
  - `color_glyph`, `compose`, `rasterizer` — PNG colour glyphs, RGBA
    and alpha bitmaps, compositing, coverage averaging.
  - `cache` — the glyph LRU cache.
- `tests/` — tests run against the compiled library.
- `app/` — plain Rust around the library: the error type, face
  identities and pixel metrics, colour glyphs at pixel sizes,
  positioned glyphs scaled to pixels, the
  floating-point geometry (outline flattening, scanline fill,
  resampling, glyph keys from pixel sizes) and conversions from the
  outline types of the font parsers.
