//! Colour primitives: straight-alpha RGBA8.

use vstd::prelude::*;

verus! {

/// Straight-alpha RGBA8 colour.
pub type Rgba = [u8; 4];

/// Fully opaque white.
pub const WHITE: Rgba = [255, 255, 255, 255];

/// Fully transparent.
pub const TRANSPARENT: Rgba = [0, 0, 0, 0];

} // verus!
