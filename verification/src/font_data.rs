//! What the layout logic reads from a parsed TrueType font: advances,
//! kerning, GDEF mark classes, GPOS anchors and single adjustments,
//! colour-bitmap strikes and GSUB feature tags. Each value is named as
//! a function of the font bytes and the subfont they were parsed as.
//! That the parser and these queries return, rather than panic, on
//! every input is taken from their signatures, not proved.

use vstd::prelude::*;
use crate::face::{opt_string_view, otf_metrics, ttc_metrics, ttf_metrics};

verus! {

/// A TrueType font parsed by `oxideav-ttf`, borrowed from its bytes.
#[verifier::external_type_specification]
#[verifier::external_body]
pub struct ExTtfFont<'a>(oxideav_ttf::Font<'a>);

/// A parsed TrueType font, remembering the bytes and the subfont index
/// it was parsed from. Only [`open_ttf`] and [`open_ttc`] make one.
pub struct TtfFont<'a> {
    font: oxideav_ttf::Font<'a>,
    source: Ghost<(Seq<u8>, Option<u32>)>,
}

impl<'a> TtfFont<'a> {
    /// The bytes the font was parsed from.
    pub closed spec fn bytes_of(&self) -> Seq<u8> {
        self.source@.0
    }

    /// The subfont index of the collection it was parsed as, if any.
    pub closed spec fn subfont_of(&self) -> Option<u32> {
        self.source@.1
    }
}

/// Parses `bytes` as a single TrueType font with
/// `oxideav_ttf::Font::from_bytes`. It succeeds exactly when the same
/// parse in [`crate::face`] does (named there by `ttf_metrics`), the
/// parse being a function of the bytes.
#[verifier::external_body]
pub(crate) fn open_ttf<'a>(bytes: &'a [u8]) -> (r: Result<TtfFont<'a>, oxideav_ttf::Error>)
    ensures
        r is Ok <==> ttf_metrics(bytes@) is Some,
        r matches Ok(f) ==> f.bytes_of() == bytes@ && f.subfont_of() is None,
{
    let font = oxideav_ttf::Font::from_bytes(bytes)?;
    Ok(TtfFont { font, source: Ghost((bytes@, None)) })
}

/// Parses subfont `index` of the TrueType collection in `bytes` with
/// `oxideav_ttf::Font::from_collection_bytes`. It succeeds exactly when
/// the same parse in [`crate::face`] does (named there by
/// `ttc_metrics`).
#[verifier::external_body]
pub(crate) fn open_ttc<'a>(bytes: &'a [u8], index: u32) -> (r: Result<TtfFont<'a>, oxideav_ttf::Error>)
    ensures
        r is Ok <==> ttc_metrics(bytes@, index) is Some,
        r matches Ok(f) ==> f.bytes_of() == bytes@ && f.subfont_of() == Some(index),
{
    let font = oxideav_ttf::Font::from_collection_bytes(bytes, index)?;
    Ok(TtfFont { font, source: Ghost((bytes@, Some(index))) })
}

/// The horizontal advance of `gid` in font units (`Font::glyph_advance`).
pub uninterp spec fn ttf_advance(bytes: Seq<u8>, subfont: Option<u32>, gid: u16) -> i16;

/// The kerning of the ordered pair `(left, right)` in font units
/// (`Font::lookup_kerning`: GPOS pair adjustment, else the `kern`
/// table, else 0).
pub uninterp spec fn ttf_kerning(bytes: Seq<u8>, subfont: Option<u32>, left: u16, right: u16) -> i16;

/// Whether GDEF classes `gid` as a mark (`Font::is_mark_glyph`).
pub uninterp spec fn ttf_is_mark(bytes: Seq<u8>, subfont: Option<u32>, gid: u16) -> bool;

/// The mark-to-base anchor offset of `(base, mark)`
/// (`Font::lookup_mark_to_base`).
pub uninterp spec fn ttf_mark_to_base(bytes: Seq<u8>, subfont: Option<u32>, base: u16, mark: u16) -> Option<(i16, i16)>;

/// The mark-to-mark anchor offset of `(mark1, mark2)`
/// (`Font::lookup_mark_to_mark`).
pub uninterp spec fn ttf_mark_to_mark(bytes: Seq<u8>, subfont: Option<u32>, mark1: u16, mark2: u16) -> Option<(i16, i16)>;

/// The mark-to-ligature anchor offset of `mark` on component
/// `component` of `ligature` (`Font::lookup_mark_to_ligature`).
pub uninterp spec fn ttf_mark_to_ligature(
    bytes: Seq<u8>,
    subfont: Option<u32>,
    ligature: u16,
    component: u16,
    mark: u16,
) -> Option<(i16, i16)>;

/// The GPOS lookups as `(index, type, subtable count)`, in lookup-list
/// order (`Font::gpos_lookup_list`).
pub uninterp spec fn ttf_gpos_lookups(bytes: Seq<u8>, subfont: Option<u32>) -> Seq<(u16, u16, u16)>;

/// The single adjustment `(x placement, y placement, x advance, y
/// advance)` that GPOS lookup `lookup` gives `gid`
/// (`Font::gpos_apply_lookup_type_1`).
pub uninterp spec fn ttf_single_pos(bytes: Seq<u8>, subfont: Option<u32>, lookup: u16, gid: u16) -> Option<(i16, i16, i16, i16)>;

/// The cursive `(entry, exit)` anchors of `gid`
/// (`Font::lookup_cursive_attachment`).
pub uninterp spec fn ttf_cursive(bytes: Seq<u8>, subfont: Option<u32>, gid: u16) -> Option<(Option<(i16, i16)>, Option<(i16, i16)>)>;

/// Whether the font ships CBDT and CBLC tables (`Font::has_color_bitmaps`).
pub uninterp spec fn ttf_has_color(bytes: Seq<u8>, subfont: Option<u32>) -> bool;

/// The `(ppem_x, ppem_y)` strikes of the colour-bitmap tables
/// (`Font::color_strike_sizes`).
pub uninterp spec fn ttf_strikes(bytes: Seq<u8>, subfont: Option<u32>) -> Seq<(u8, u8)>;

/// The tags of the GSUB features published for `script` (and `lang`
/// when given), in LangSys order (`Font::gsub_features_for_script`).
pub uninterp spec fn gsub_feature_tags(bytes: Seq<u8>, subfont: Option<u32>, script: [u8; 4], lang: Option<[u8; 4]>) -> Seq<[u8; 4]>;

/// The best-ranked string of `name` record `name_id` (Windows English
/// first), `Font::name_string`.
pub uninterp spec fn ttf_name(bytes: Seq<u8>, subfont: Option<u32>, name_id: u16) -> Option<Seq<char>>;

/// The best-ranked string of `name` record `name_id` of the
/// OpenType-CFF font in `bytes` (Windows / Unicode English first, then
/// Mac Roman English), `NameTable::find`.
pub uninterp spec fn otf_name(bytes: Seq<u8>, name_id: u16) -> Option<Seq<char>>;

/// Parses `bytes` with `oxideav_otf::Font::from_bytes` and looks up
/// `name_id` in its `name` table. It parses exactly when the same parse
/// in [`crate::face`] does (named there by `otf_metrics`); the string is
/// named [`otf_name`].
#[verifier::external_body]
pub(crate) fn otf_name_string(bytes: &[u8], name_id: u16) -> (r: Result<Option<String>, oxideav_otf::Error>)
    ensures
        r is Ok <==> otf_metrics(bytes@) is Some,
        r matches Ok(v) ==> opt_string_view(v) == otf_name(bytes@, name_id),
{
    Ok(oxideav_otf::Font::from_bytes(bytes)?.name().find(name_id).map(|s| s.to_string()))
}

impl<'a> TtfFont<'a> {
    /// Calls `Font::name_string`; its result as an owned string, named
    /// [`ttf_name`].
    #[verifier::external_body]
    pub(crate) fn name_string(&self, name_id: u16) -> (r: Option<String>)
        ensures
            opt_string_view(r) == ttf_name(self.bytes_of(), self.subfont_of(), name_id),
    {
        self.font.name_string(name_id).map(|s| s.to_string())
    }

    /// Calls `Font::glyph_advance`; its result, named [`ttf_advance`].
    #[verifier::external_body]
    pub(crate) fn advance(&self, gid: u16) -> (r: i16)
        ensures
            r == ttf_advance(self.bytes_of(), self.subfont_of(), gid),
    {
        self.font.glyph_advance(gid)
    }

    /// Calls `Font::lookup_kerning`; its result, named [`ttf_kerning`].
    #[verifier::external_body]
    pub(crate) fn kerning(&self, left: u16, right: u16) -> (r: i16)
        ensures
            r == ttf_kerning(self.bytes_of(), self.subfont_of(), left, right),
    {
        self.font.lookup_kerning(left, right)
    }

    /// Calls `Font::is_mark_glyph`; its result, named [`ttf_is_mark`].
    #[verifier::external_body]
    pub(crate) fn is_mark(&self, gid: u16) -> (r: bool)
        ensures
            r == ttf_is_mark(self.bytes_of(), self.subfont_of(), gid),
    {
        self.font.is_mark_glyph(gid)
    }

    /// Calls `Font::lookup_mark_to_base`; its result, named
    /// [`ttf_mark_to_base`].
    #[verifier::external_body]
    pub(crate) fn mark_to_base(&self, base: u16, mark: u16) -> (r: Option<(i16, i16)>)
        ensures
            r == ttf_mark_to_base(self.bytes_of(), self.subfont_of(), base, mark),
    {
        self.font.lookup_mark_to_base(base, mark)
    }

    /// Calls `Font::lookup_mark_to_mark`; its result, named
    /// [`ttf_mark_to_mark`].
    #[verifier::external_body]
    pub(crate) fn mark_to_mark(&self, mark1: u16, mark2: u16) -> (r: Option<(i16, i16)>)
        ensures
            r == ttf_mark_to_mark(self.bytes_of(), self.subfont_of(), mark1, mark2),
    {
        self.font.lookup_mark_to_mark(mark1, mark2)
    }

    /// Calls `Font::lookup_mark_to_ligature`; its result, named
    /// [`ttf_mark_to_ligature`].
    #[verifier::external_body]
    pub(crate) fn mark_to_ligature(&self, ligature: u16, component: u16, mark: u16) -> (r: Option<(i16, i16)>)
        ensures
            r == ttf_mark_to_ligature(self.bytes_of(), self.subfont_of(), ligature, component, mark),
    {
        self.font.lookup_mark_to_ligature(ligature, component, mark)
    }

    /// Calls `Font::gpos_lookup_list`; its result, named
    /// [`ttf_gpos_lookups`].
    #[verifier::external_body]
    pub(crate) fn gpos_lookups(&self) -> (r: Vec<(u16, u16, u16)>)
        ensures
            r@ == ttf_gpos_lookups(self.bytes_of(), self.subfont_of()),
    {
        self.font.gpos_lookup_list()
    }

    /// Calls `Font::gpos_apply_lookup_type_1` and hands the four fields
    /// of the `PosValue` back as a tuple; named [`ttf_single_pos`].
    #[verifier::external_body]
    pub(crate) fn single_pos(&self, lookup: u16, gid: u16) -> (r: Option<(i16, i16, i16, i16)>)
        ensures
            r == ttf_single_pos(self.bytes_of(), self.subfont_of(), lookup, gid),
    {
        self.font.gpos_apply_lookup_type_1(lookup, gid).map(|v| (v.x_placement, v.y_placement, v.x_advance, v.y_advance))
    }

    /// Calls `Font::lookup_cursive_attachment` and hands the entry and
    /// exit anchors back as a pair; named [`ttf_cursive`].
    #[verifier::external_body]
    pub(crate) fn cursive(&self, gid: u16) -> (r: Option<(Option<(i16, i16)>, Option<(i16, i16)>)>)
        ensures
            r == ttf_cursive(self.bytes_of(), self.subfont_of(), gid),
    {
        self.font.lookup_cursive_attachment(gid).map(|a| (a.entry, a.exit))
    }

    /// Calls `Font::has_color_bitmaps`; its result, named
    /// [`ttf_has_color`].
    #[verifier::external_body]
    pub(crate) fn has_color(&self) -> (r: bool)
        ensures
            r == ttf_has_color(self.bytes_of(), self.subfont_of()),
    {
        self.font.has_color_bitmaps()
    }

    /// Calls `Font::color_strike_sizes`; its result, named
    /// [`ttf_strikes`].
    #[verifier::external_body]
    pub(crate) fn strikes(&self) -> (r: Vec<(u8, u8)>)
        ensures
            r@ == ttf_strikes(self.bytes_of(), self.subfont_of()),
    {
        self.font.color_strike_sizes()
    }

    /// Calls `Font::gsub_features_for_script` and keeps each feature's
    /// tag, in order; named [`gsub_feature_tags`].
    #[verifier::external_body]
    pub(crate) fn gsub_features(&self, script: [u8; 4], lang: Option<[u8; 4]>) -> (r: Vec<[u8; 4]>)
        ensures
            r@ == gsub_feature_tags(self.bytes_of(), self.subfont_of(), script, lang),
    {
        self.font.gsub_features_for_script(script, lang).into_iter().map(|f| f.tag).collect()
    }
}

} // verus!
