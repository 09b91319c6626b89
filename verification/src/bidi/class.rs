//! Bidirectional character classes (UAX #9 §3.2 Table 4) and their
//! lookup by code point.

use vstd::prelude::*;

verus! {

/// Normative bidirectional character type from UAX #9 §3.2 Table 4:
/// three strong, seven weak, four neutral and nine explicit formatting
/// types.
#[derive(Debug, Clone, Copy, PartialEq, Eq, Hash, Structural)]
pub enum BidiClass {
    /// Left-to-right.
    L,
    /// Right-to-left.
    R,
    /// Right-to-left Arabic.
    AL,
    /// European number.
    EN,
    /// European number separator.
    ES,
    /// European number terminator.
    ET,
    /// Arabic number.
    AN,
    /// Common number separator.
    CS,
    /// Nonspacing mark.
    NSM,
    /// Boundary neutral.
    BN,
    /// Paragraph separator.
    B,
    /// Segment separator.
    S,
    /// Whitespace.
    WS,
    /// Other neutrals.
    ON,
    /// Left-to-right embedding.
    LRE,
    /// Left-to-right override.
    LRO,
    /// Right-to-left embedding.
    RLE,
    /// Right-to-left override.
    RLO,
    /// Pop directional format.
    PDF,
    /// Left-to-right isolate.
    LRI,
    /// Right-to-left isolate.
    RLI,
    /// First strong isolate.
    FSI,
    /// Pop directional isolate.
    PDI,
}

/// Strong classes: `L`, `R`, `AL`.
pub open spec fn is_strong_class(c: BidiClass) -> bool {
    c is L || c is R || c is AL
}

/// The isolate initiators `LRI`, `RLI`, `FSI`.
pub open spec fn is_isolate_initiator_class(c: BidiClass) -> bool {
    c is LRI || c is RLI || c is FSI
}

/// The NI alias of UAX #9: `B`, `S`, `WS`, `ON` and the four isolate
/// formatting characters.
pub open spec fn is_ni_class(c: BidiClass) -> bool {
    c is B || c is S || c is WS || c is ON || c is FSI || c is LRI || c is RLI || c is PDI
}

impl BidiClass {
    /// `true` if this class is strong (`L` / `R` / `AL`).
    pub fn is_strong(self) -> (r: bool)
        ensures
            r == is_strong_class(self),
    {
        matches!(self, BidiClass::L | BidiClass::R | BidiClass::AL)
    }

    /// `true` if this class is an isolate initiator (`LRI` / `RLI` /
    /// `FSI`); the pop `PDI` is not one.
    pub fn is_isolate_initiator(self) -> (r: bool)
        ensures
            r == is_isolate_initiator_class(self),
    {
        matches!(self, BidiClass::LRI | BidiClass::RLI | BidiClass::FSI)
    }

    /// `true` if this class is a Neutral or Isolate (NI) in UAX #9
    /// §3.3.5 terminology.
    pub fn is_neutral_or_isolate(self) -> (r: bool)
        ensures
            r == is_ni_class(self),
    {
        matches!(
            self,
            BidiClass::B | BidiClass::S | BidiClass::WS | BidiClass::ON | BidiClass::FSI
                | BidiClass::LRI | BidiClass::RLI | BidiClass::PDI
        )
    }
}

/// The class at position `i` of the declaration order that `intl`
/// and this type share (`L`, `R`, `AL`, `EN`, ..., `PDI`).
pub open spec fn class_at_index(i: u8) -> BidiClass {
    match i {
        0 => BidiClass::L,
        1 => BidiClass::R,
        2 => BidiClass::AL,
        3 => BidiClass::EN,
        4 => BidiClass::ES,
        5 => BidiClass::ET,
        6 => BidiClass::AN,
        7 => BidiClass::CS,
        8 => BidiClass::NSM,
        9 => BidiClass::BN,
        10 => BidiClass::B,
        11 => BidiClass::S,
        12 => BidiClass::WS,
        13 => BidiClass::ON,
        14 => BidiClass::LRE,
        15 => BidiClass::LRO,
        16 => BidiClass::RLE,
        17 => BidiClass::RLO,
        18 => BidiClass::PDF,
        19 => BidiClass::LRI,
        20 => BidiClass::RLI,
        21 => BidiClass::FSI,
        22 => BidiClass::PDI,
        _ => BidiClass::L,
    }
}

/// The declaration index of the `Bidi_Class` that `intl`'s compiled
/// UCD tables give code point `cp`.
pub uninterp spec fn ucd_class_index(cp: u32) -> u8;

/// Calls `intl::unicode::bidi::bidi_class_u32` and returns the class's
/// declaration index (its discriminant). Claims: the result is a
/// function of `cp`, named [`ucd_class_index`], and below 23 (the enum
/// has 23 fieldless variants).
#[verifier::external_body]
fn ucd_class(cp: u32) -> (r: u8)
    ensures
        r == ucd_class_index(cp),
        r < 23,
{
    intl::unicode::bidi::bidi_class_u32(cp) as u8
}

fn class_from_index(i: u8) -> (r: BidiClass)
    ensures
        r == class_at_index(i),
{
    match i {
        0 => BidiClass::L,
        1 => BidiClass::R,
        2 => BidiClass::AL,
        3 => BidiClass::EN,
        4 => BidiClass::ES,
        5 => BidiClass::ET,
        6 => BidiClass::AN,
        7 => BidiClass::CS,
        8 => BidiClass::NSM,
        9 => BidiClass::BN,
        10 => BidiClass::B,
        11 => BidiClass::S,
        12 => BidiClass::WS,
        13 => BidiClass::ON,
        14 => BidiClass::LRE,
        15 => BidiClass::LRO,
        16 => BidiClass::RLE,
        17 => BidiClass::RLO,
        18 => BidiClass::PDF,
        19 => BidiClass::LRI,
        20 => BidiClass::RLI,
        21 => BidiClass::FSI,
        22 => BidiClass::PDI,
        _ => BidiClass::L,
    }
}

/// UAX #9 §3.2 defaults for unassigned code points: the right-to-left
/// script blocks default to `R` / `AL`, the Currency Symbols block to
/// `ET`.
pub open spec fn missing_block_default(cp: u32) -> Option<BidiClass> {
    if 0x0590 <= cp <= 0x05FF {
        Some(BidiClass::R)
    } else if 0x0600 <= cp <= 0x07BF {
        Some(BidiClass::AL)
    } else if 0x07C0 <= cp <= 0x085F {
        Some(BidiClass::R)
    } else if 0x0860 <= cp <= 0x08FF {
        Some(BidiClass::AL)
    } else if 0x20A0 <= cp <= 0x20CF {
        Some(BidiClass::ET)
    } else if 0xFB1D <= cp <= 0xFB4F {
        Some(BidiClass::R)
    } else if 0xFB50 <= cp <= 0xFDCF {
        Some(BidiClass::AL)
    } else if 0xFDF0 <= cp <= 0xFDFF {
        Some(BidiClass::AL)
    } else if 0xFE70 <= cp <= 0xFEFF {
        Some(BidiClass::AL)
    } else if 0x10800 <= cp <= 0x10CFF {
        Some(BidiClass::R)
    } else if 0x10D00 <= cp <= 0x10D3F {
        Some(BidiClass::AL)
    } else if 0x10D40 <= cp <= 0x10EBF {
        Some(BidiClass::R)
    } else if 0x10EC0 <= cp <= 0x10EFF {
        Some(BidiClass::AL)
    } else if 0x10F00 <= cp <= 0x10F2F {
        Some(BidiClass::R)
    } else if 0x10F30 <= cp <= 0x10F6F {
        Some(BidiClass::AL)
    } else if 0x10F70 <= cp <= 0x10FFF {
        Some(BidiClass::R)
    } else if 0x1E800 <= cp <= 0x1EC6F {
        Some(BidiClass::R)
    } else if 0x1EC70 <= cp <= 0x1ECBF {
        Some(BidiClass::AL)
    } else if 0x1ECC0 <= cp <= 0x1ECFF {
        Some(BidiClass::R)
    } else if 0x1ED00 <= cp <= 0x1ED4F {
        Some(BidiClass::AL)
    } else if 0x1ED50 <= cp <= 0x1EDFF {
        Some(BidiClass::R)
    } else if 0x1EE00 <= cp <= 0x1EEFF {
        Some(BidiClass::AL)
    } else if 0x1EF00 <= cp <= 0x1EFFF {
        Some(BidiClass::R)
    } else {
        None
    }
}

fn missing_block_class(cp: u32) -> (r: Option<BidiClass>)
    ensures
        r == missing_block_default(cp),
{
    if 0x0590 <= cp && cp <= 0x05FF {
        Some(BidiClass::R)
    } else if 0x0600 <= cp && cp <= 0x07BF {
        Some(BidiClass::AL)
    } else if 0x07C0 <= cp && cp <= 0x085F {
        Some(BidiClass::R)
    } else if 0x0860 <= cp && cp <= 0x08FF {
        Some(BidiClass::AL)
    } else if 0x20A0 <= cp && cp <= 0x20CF {
        Some(BidiClass::ET)
    } else if 0xFB1D <= cp && cp <= 0xFB4F {
        Some(BidiClass::R)
    } else if 0xFB50 <= cp && cp <= 0xFDCF {
        Some(BidiClass::AL)
    } else if 0xFDF0 <= cp && cp <= 0xFDFF {
        Some(BidiClass::AL)
    } else if 0xFE70 <= cp && cp <= 0xFEFF {
        Some(BidiClass::AL)
    } else if 0x10800 <= cp && cp <= 0x10CFF {
        Some(BidiClass::R)
    } else if 0x10D00 <= cp && cp <= 0x10D3F {
        Some(BidiClass::AL)
    } else if 0x10D40 <= cp && cp <= 0x10EBF {
        Some(BidiClass::R)
    } else if 0x10EC0 <= cp && cp <= 0x10EFF {
        Some(BidiClass::AL)
    } else if 0x10F00 <= cp && cp <= 0x10F2F {
        Some(BidiClass::R)
    } else if 0x10F30 <= cp && cp <= 0x10F6F {
        Some(BidiClass::AL)
    } else if 0x10F70 <= cp && cp <= 0x10FFF {
        Some(BidiClass::R)
    } else if 0x1E800 <= cp && cp <= 0x1EC6F {
        Some(BidiClass::R)
    } else if 0x1EC70 <= cp && cp <= 0x1ECBF {
        Some(BidiClass::AL)
    } else if 0x1ECC0 <= cp && cp <= 0x1ECFF {
        Some(BidiClass::R)
    } else if 0x1ED00 <= cp && cp <= 0x1ED4F {
        Some(BidiClass::AL)
    } else if 0x1ED50 <= cp && cp <= 0x1EDFF {
        Some(BidiClass::R)
    } else if 0x1EE00 <= cp && cp <= 0x1EEFF {
        Some(BidiClass::AL)
    } else if 0x1EF00 <= cp && cp <= 0x1EFFF {
        Some(BidiClass::R)
    } else {
        None
    }
}

/// The class of code point `cp`: the UCD class from `intl`, except that
/// an `L` inside a block of [`missing_block_default`] takes that block's
/// default (no assigned code point there is `L`, so only unassigned
/// ones change).
pub open spec fn class_of_scalar(cp: u32) -> BidiClass {
    let c = class_at_index(ucd_class_index(cp));
    if c is L {
        match missing_block_default(cp) {
            Some(d) => d,
            None => BidiClass::L,
        }
    } else {
        c
    }
}

/// The class of a character, by its scalar value.
pub open spec fn class_of(c: char) -> BidiClass {
    class_of_scalar(c as u32)
}

/// The classes of a character sequence, position by position.
pub open spec fn classes_of(s: Seq<char>) -> Seq<BidiClass> {
    Seq::new(s.len(), |i: int| class_of(s[i]))
}

/// The `Bidi_Class` of a code point: the UCD class from `intl`, with
/// the UAX #9 §3.2 defaults for unassigned code points in right-to-left
/// and currency blocks.
pub fn class_lookup(cp: u32) -> (r: BidiClass)
    ensures
        r == class_of_scalar(cp),
{
    let class = class_from_index(ucd_class(cp));
    if class == BidiClass::L {
        match missing_block_class(cp) {
            Some(d) => d,
            None => BidiClass::L,
        }
    } else {
        class
    }
}

/// Return the [`BidiClass`] of `c` per UAX #9 §3.2.
pub fn bidi_class(c: char) -> (r: BidiClass)
    ensures
        r == class_of(c),
{
    class_lookup(c as u32)
}

/// The classes of `chars`, position by position.
pub fn classes_of_chars(chars: &[char]) -> (r: Vec<BidiClass>)
    ensures
        r@ == classes_of(chars@),
{
    let mut out: Vec<BidiClass> = Vec::new();
    let n = chars.len();
    for i in 0..n
        invariant
            n == chars@.len(),
            out@.len() == i,
            forall|k: int| 0 <= k < i ==> out@[k] == class_of(chars@[k]),
    {
        out.push(bidi_class(chars[i]));
    }
    out
}

/// The characters of `text`, in order.
pub fn chars_of(text: &str) -> (r: Vec<char>)
    ensures
        r@ == text@,
{
    let mut v: Vec<char> = Vec::new();
    for c in it: text.chars()
        invariant
            v@ == it.seq().take(it.index() as int),
    {
        v.push(c);
    }
    v
}

} // verus!
