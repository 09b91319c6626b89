//! Paired brackets (UAX #9 BD14 / BD15): the `Bidi_Paired_Bracket` and
//! `Bidi_Paired_Bracket_Type` properties, derived as the UCD file
//! `BidiBrackets.txt` defines them, and mirror glyphs (L4).

use vstd::prelude::*;
use super::class::{BidiClass, bidi_class, class_of};

verus! {

/// Whether a paired bracket opens (BD14) or closes (BD15) its pair.
#[derive(Debug, Clone, Copy, PartialEq, Eq, Hash, Structural)]
pub enum BracketKind {
    /// `Bidi_Paired_Bracket_Type = Open`.
    Open,
    /// `Bidi_Paired_Bracket_Type = Close`.
    Close,
}

/// The `Bidi_Mirroring_Glyph` of `c`, as `intl` reports it.
pub uninterp spec fn bidi_mirror_of(c: char) -> Option<char>;

/// Calls `intl::unicode::bidi_mirror`, the mirror glyph of `c` (e.g.
/// `)` for `(`) or `None`. Claims only that the result is a function of
/// `c`, named [`bidi_mirror_of`].
#[verifier::external_body]
pub(crate) fn mirror_glyph(c: char) -> (r: Option<char>)
    ensures
        r == bidi_mirror_of(c),
{
    intl::unicode::bidi_mirror(c)
}

/// The `General_Category` of `c` as `intl` numbers it (the `repr(u8)`
/// discriminant of `intl::unicode::GeneralCategory`).
pub uninterp spec fn ucd_general_category(c: char) -> u8;

/// Calls `intl::unicode::general_category` and reads the category's
/// discriminant. Claims only that the result is a function of `c`,
/// named [`ucd_general_category`].
#[verifier::external_body]
fn general_category_code(c: char) -> (r: u8)
    ensures
        r == ucd_general_category(c),
{
    intl::unicode::general_category(c) as u8
}

/// The `Bidi_Mirrored` property of `c`, as `intl` reports it.
pub uninterp spec fn ucd_bidi_mirrored(c: char) -> bool;

/// Calls `intl::unicode::is_bidi_mirrored`. Claims only that the result
/// is a function of `c`, named [`ucd_bidi_mirrored`].
#[verifier::external_body]
fn bidi_mirrored(c: char) -> (r: bool)
    ensures
        r == ucd_bidi_mirrored(c),
{
    intl::unicode::is_bidi_mirrored(c)
}

/// `General_Category = Ps` (open punctuation) in `intl`'s numbering.
pub const OPEN_PUNCTUATION: u8 = 13;

/// `General_Category = Pe` (close punctuation) in `intl`'s numbering.
pub const CLOSE_PUNCTUATION: u8 = 14;

/// `a` and `b` form a bracket pair, `a` opening it: `a` is `Ps` and `b`
/// is `Pe`, both are `ON` and `Bidi_Mirrored`, and each is the other's
/// mirror glyph.
pub open spec fn brackets_pair(a: char, b: char) -> bool {
    &&& ucd_general_category(a) == OPEN_PUNCTUATION
    &&& ucd_general_category(b) == CLOSE_PUNCTUATION
    &&& class_of(a) == BidiClass::ON
    &&& class_of(b) == BidiClass::ON
    &&& ucd_bidi_mirrored(a)
    &&& ucd_bidi_mirrored(b)
    &&& bidi_mirror_of(a) == Some(b)
    &&& bidi_mirror_of(b) == Some(a)
}

/// The `Bidi_Paired_Bracket` of `c` and its `Bidi_Paired_Bracket_Type`:
/// the partner is the mirror glyph, and `c` opens or closes a pair with
/// it; `None` for a character that is no paired bracket.
pub open spec fn paired_bracket_spec(c: char) -> Option<(char, BracketKind)> {
    match bidi_mirror_of(c) {
        Some(m) => if brackets_pair(c, m) {
            Some((m, BracketKind::Open))
        } else if brackets_pair(m, c) {
            Some((m, BracketKind::Close))
        } else {
            None
        },
        None => None,
    }
}

/// Bracket pairing is symmetric: the partner of an opening bracket
/// closes with it, and the partner of a closing bracket opens it.
pub proof fn lemma_paired_bracket_symmetric(c: char)
    ensures
        paired_bracket_spec(c) matches Some((m, k)) ==> paired_bracket_spec(m) == Some(
            (
                c,
                match k {
                    BracketKind::Open => BracketKind::Close,
                    BracketKind::Close => BracketKind::Open,
                },
            ),
        ),
{
}

fn is_pair(a: char, b: char) -> (r: bool)
    ensures
        r == brackets_pair(a, b),
{
    general_category_code(a) == OPEN_PUNCTUATION && general_category_code(b) == CLOSE_PUNCTUATION
        && bidi_class(a) == BidiClass::ON && bidi_class(b) == BidiClass::ON && bidi_mirrored(a)
        && bidi_mirrored(b) && mirror_glyph(a) == Some(b) && mirror_glyph(b) == Some(a)
}

/// The paired bracket of `c` (BD14 / BD15): its partner and whether `c`
/// opens or closes the pair, `None` for any other character.
pub fn paired_bracket(c: char) -> (r: Option<(char, BracketKind)>)
    ensures
        r == paired_bracket_spec(c),
{
    match mirror_glyph(c) {
        Some(m) => {
            if is_pair(c, m) {
                Some((m, BracketKind::Open))
            } else if is_pair(m, c) {
                Some((m, BracketKind::Close))
            } else {
                None
            }
        },
        None => None,
    }
}

} // verus!
