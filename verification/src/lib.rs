//! Text layout building blocks with machine-checked contracts: the
//! Unicode Bidirectional Algorithm (UAX #9) from character classes to
//! visual order, script resolution and script runs (UAX #24), the
//! OpenType script tags, the `post` glyph-name table, font faces and
//! their fallback chain, TrueType contours as path commands, PNG colour-glyph decoding, alpha and colour
//! bitmaps with straight-alpha compositing, and a move-to-front glyph
//! cache.

pub mod bidi;
pub mod post;
pub mod layout;
pub mod rasterizer;
pub mod color_glyph;
pub mod cache;
pub mod face;
pub mod font_data;
pub mod position;
pub mod face_chain;
pub mod shaper;
pub mod color;
pub mod compose;
pub mod script;
