//! Glyph positioning in font units: advances with pair kerning on the
//! left glyph of each pair, GPOS single adjustments, mark attachment
//! (mark-to-mark, mark-to-ligature, mark-to-base) and cursive
//! attachment. Offsets are raster-oriented: a positive `y_offset` moves
//! a glyph down, so the font's Y-up anchors are subtracted. Sums wrap at
//! 64 bits, far beyond any run a font can describe.

use vstd::prelude::*;
use crate::face::{Face, FaceKind, FontError};
use crate::font_data::{
    TtfFont, ttf_advance, ttf_cursive, ttf_gpos_lookups, ttf_is_mark, ttf_kerning, ttf_mark_to_base,
    ttf_mark_to_ligature, ttf_mark_to_mark, ttf_single_pos,
};

verus! {

/// One positioned glyph, in font units.
#[derive(Clone, Copy, Debug, PartialEq, Eq, Structural)]
pub struct UnitGlyph {
    /// The glyph.
    pub glyph_id: u16,
    /// Horizontal shift of the drawn glyph from its pen position.
    pub x_offset: i64,
    /// Vertical shift of the drawn glyph, downwards positive.
    pub y_offset: i64,
    /// How far the pen moves after the glyph.
    pub x_advance: i64,
    /// The face of the fallback chain the glyph comes from.
    pub face_idx: u16,
}

/// The advance of glyph `k`, kerned against the glyph after it.
pub open spec fn kerned_advance(b: Seq<u8>, s: Option<u32>, gids: Seq<u16>, k: int) -> i64 {
    if k + 1 < gids.len() {
        (ttf_advance(b, s, gids[k]) + ttf_kerning(b, s, gids[k], gids[k + 1])) as i64
    } else {
        ttf_advance(b, s, gids[k]) as i64
    }
}

/// Glyph `k` before any GPOS adjustment: no offset, the kerned advance.
pub open spec fn initial_glyph(b: Seq<u8>, s: Option<u32>, gids: Seq<u16>, face_idx: u16, k: int) -> UnitGlyph {
    UnitGlyph {
        glyph_id: gids[k],
        x_offset: 0,
        y_offset: 0,
        x_advance: kerned_advance(b, s, gids, k),
        face_idx,
    }
}

/// `g` after the single adjustments of every lookup of type 1 in
/// `lookups`, in order: the x placement moves it right, the y placement
/// up, and the x advance widens it.
pub open spec fn single_adjusted(b: Seq<u8>, s: Option<u32>, lookups: Seq<(u16, u16, u16)>, g: UnitGlyph) -> UnitGlyph
    decreases lookups.len(),
{
    if lookups.len() == 0 {
        g
    } else {
        let h = single_adjusted(b, s, lookups.drop_last(), g);
        let e = lookups.last();
        if e.1 == 1 {
            match ttf_single_pos(b, s, e.0, g.glyph_id) {
                Some(v) => UnitGlyph {
                    glyph_id: h.glyph_id,
                    x_offset: h.x_offset.wrapping_add(v.0 as i64),
                    y_offset: h.y_offset.wrapping_sub(v.1 as i64),
                    x_advance: h.x_advance.wrapping_add(v.2 as i64),
                    face_idx: h.face_idx,
                },
                None => h,
            }
        } else {
            h
        }
    }
}

/// The nearest glyph before `i` that is not a mark.
pub open spec fn base_before(b: Seq<u8>, s: Option<u32>, gids: Seq<u16>, i: int) -> Option<int>
    decreases i,
{
    if i <= 0 {
        None
    } else if !ttf_is_mark(b, s, gids[i - 1]) {
        Some(i - 1)
    } else {
        base_before(b, s, gids, i - 1)
    }
}

/// The first mark-to-ligature anchor of `mark` on `ligature`, probing
/// component `c` and then each earlier one.
pub open spec fn ligature_anchor(b: Seq<u8>, s: Option<u32>, ligature: u16, mark: u16, c: u16) -> Option<(i16, i16)>
    decreases c,
{
    match ttf_mark_to_ligature(b, s, ligature, c, mark) {
        Some(d) => Some(d),
        None => if c == 0 {
            None
        } else {
            ligature_anchor(b, s, ligature, mark, (c - 1) as u16)
        },
    }
}

/// The anchor that attaches `mark` to the base glyph at `j`: on a
/// ligature (more than one component) the mark-to-ligature anchor from
/// the last component down, else the mark-to-base anchor. A missing
/// component count counts as one.
pub open spec fn base_anchor(
    b: Seq<u8>,
    s: Option<u32>,
    counts: Seq<u16>,
    j: int,
    base: u16,
    mark: u16,
) -> Option<(i16, i16)> {
    let comp: u16 = if j < counts.len() { counts[j] } else { 1 };
    if comp > 1 {
        match ligature_anchor(b, s, base, mark, (comp - 1) as u16) {
            Some(d) => Some(d),
            None => ttf_mark_to_base(b, s, base, mark),
        }
    } else {
        ttf_mark_to_base(b, s, base, mark)
    }
}

/// The sum of the advances of `st[from..to]`.
pub open spec fn advance_sum(st: Seq<UnitGlyph>, from: int, to: int) -> i64
    decreases to - from,
{
    if to <= from {
        0
    } else {
        advance_sum(st, from, to - 1).wrapping_add(st[to - 1].x_advance)
    }
}

/// Attach the glyph at `i` when it is a mark: on the mark before it by
/// their mark-to-mark anchor when there is one, else on the nearest base
/// before it, less the advances from the base to the mark; an attached
/// mark loses its advance.
pub open spec fn mark_step(b: Seq<u8>, s: Option<u32>, gids: Seq<u16>, counts: Seq<u16>, st: Seq<UnitGlyph>, i: int) -> Seq<UnitGlyph> {
    let g = st[i];
    if !ttf_is_mark(b, s, gids[i]) {
        st
    } else {
        let m2m = if ttf_is_mark(b, s, gids[i - 1]) {
            ttf_mark_to_mark(b, s, gids[i - 1], gids[i])
        } else {
            None
        };
        match m2m {
            Some(d) => st.update(
                i,
                UnitGlyph {
                    glyph_id: g.glyph_id,
                    x_offset: st[i - 1].x_offset.wrapping_add(d.0 as i64).wrapping_sub(g.x_advance),
                    y_offset: st[i - 1].y_offset.wrapping_sub(d.1 as i64),
                    x_advance: 0,
                    face_idx: g.face_idx,
                },
            ),
            None => match base_before(b, s, gids, i) {
                None => st,
                Some(j) => match base_anchor(b, s, counts, j, gids[j], gids[i]) {
                    None => st,
                    Some(d) => st.update(
                        i,
                        UnitGlyph {
                            glyph_id: g.glyph_id,
                            x_offset: g.x_offset.wrapping_add((d.0 as i64).wrapping_sub(advance_sum(st, j + 1, i + 1))),
                            y_offset: g.y_offset.wrapping_sub(d.1 as i64),
                            x_advance: 0,
                            face_idx: g.face_idx,
                        },
                    ),
                },
            },
        }
    }
}

/// `st` after the mark steps for the glyphs `1..k`, in order.
pub open spec fn marks_attached(b: Seq<u8>, s: Option<u32>, gids: Seq<u16>, counts: Seq<u16>, st: Seq<UnitGlyph>, k: int) -> Seq<UnitGlyph>
    decreases k,
{
    if k <= 1 {
        st
    } else {
        mark_step(b, s, gids, counts, marks_attached(b, s, gids, counts, st, k - 1), k - 1)
    }
}

/// Move the marks from `j` on that follow a cursively joined glyph down
/// by `dy`.
pub open spec fn marks_shifted(b: Seq<u8>, s: Option<u32>, gids: Seq<u16>, st: Seq<UnitGlyph>, j: int, dy: i64) -> Seq<UnitGlyph>
    decreases st.len() - j,
{
    if 0 <= j < st.len() && j < gids.len() && ttf_is_mark(b, s, gids[j]) {
        let g = st[j];
        marks_shifted(
            b,
            s,
            gids,
            st.update(
                j,
                UnitGlyph {
                    glyph_id: g.glyph_id,
                    x_offset: g.x_offset,
                    y_offset: g.y_offset.wrapping_add(dy),
                    x_advance: g.x_advance,
                    face_idx: g.face_idx,
                },
            ),
            j + 1,
            dy,
        )
    } else {
        st
    }
}

/// Join the glyph at `i`, when it is not a mark, to the base before it
/// when that base has an exit anchor and this glyph an entry anchor: the
/// base's advance is set so the anchors meet horizontally, the glyph
/// moves to the base's exit height, and the marks after it move with it.
pub open spec fn cursive_step(b: Seq<u8>, s: Option<u32>, gids: Seq<u16>, st: Seq<UnitGlyph>, i: int) -> Seq<UnitGlyph> {
    if ttf_is_mark(b, s, gids[i]) {
        st
    } else {
        match base_before(b, s, gids, i) {
            None => st,
            Some(p) => {
                let exit = match ttf_cursive(b, s, gids[p]) {
                    Some(a) => a.1,
                    None => None,
                };
                let entry = match ttf_cursive(b, s, gids[i]) {
                    Some(a) => a.0,
                    None => None,
                };
                match (exit, entry) {
                    (Some(ex), Some(en)) => {
                        let gp = st[p];
                        let gi = st[i];
                        let between = advance_sum(st, p + 1, i);
                        let st1 = st.update(
                            p,
                            UnitGlyph {
                                glyph_id: gp.glyph_id,
                                x_offset: gp.x_offset,
                                y_offset: gp.y_offset,
                                x_advance: gp.x_offset.wrapping_sub(gi.x_offset).wrapping_sub(between).wrapping_add(
                                    (ex.0 as i64).wrapping_sub(en.0 as i64),
                                ),
                                face_idx: gp.face_idx,
                            },
                        );
                        let new_y = gp.y_offset.wrapping_sub((ex.1 as i64).wrapping_sub(en.1 as i64));
                        let dy = new_y.wrapping_sub(gi.y_offset);
                        let st2 = st1.update(
                            i,
                            UnitGlyph {
                                glyph_id: gi.glyph_id,
                                x_offset: gi.x_offset,
                                y_offset: new_y,
                                x_advance: gi.x_advance,
                                face_idx: gi.face_idx,
                            },
                        );
                        marks_shifted(b, s, gids, st2, i + 1, dy)
                    },
                    _ => st,
                }
            },
        }
    }
}

/// `st` after the cursive steps for the glyphs `0..k`, in order.
pub open spec fn cursive_joined(b: Seq<u8>, s: Option<u32>, gids: Seq<u16>, st: Seq<UnitGlyph>, k: int) -> Seq<UnitGlyph>
    decreases k,
{
    if k <= 0 {
        st
    } else {
        cursive_step(b, s, gids, cursive_joined(b, s, gids, st, k - 1), k - 1)
    }
}

/// Whether the lookup list holds a lookup of type `ty`.
pub open spec fn has_lookup_type(lookups: Seq<(u16, u16, u16)>, ty: u16) -> bool {
    exists|m: int| 0 <= m < lookups.len() && #[trigger] lookups[m].1 == ty
}

/// The run `gids` (with ligature component counts `counts`) positioned
/// with the font parsed from `b` as subfont `s`: kerned advances, single
/// adjustments, marks attached, and cursive joins when the font has a
/// cursive lookup.
pub open spec fn positioned(b: Seq<u8>, s: Option<u32>, gids: Seq<u16>, counts: Seq<u16>, face_idx: u16) -> Seq<UnitGlyph> {
    let lookups = ttf_gpos_lookups(b, s);
    let adjusted = Seq::new(gids.len(), |k: int| single_adjusted(b, s, lookups, initial_glyph(b, s, gids, face_idx, k)));
    let marked = marks_attached(b, s, gids, counts, adjusted, gids.len() as int);
    if has_lookup_type(lookups, 3) {
        cursive_joined(b, s, gids, marked, gids.len() as int)
    } else {
        marked
    }
}

/// `st` holds the glyphs `gids`, in order, each tagged `face_idx`.
pub open spec fn keeps_glyphs(st: Seq<UnitGlyph>, gids: Seq<u16>, face_idx: u16) -> bool {
    &&& st.len() == gids.len()
    &&& forall|k: int| 0 <= k < st.len() ==> #[trigger] st[k].glyph_id == gids[k] && st[k].face_idx == face_idx
}

proof fn lemma_single_keeps_glyph(b: Seq<u8>, s: Option<u32>, lookups: Seq<(u16, u16, u16)>, g: UnitGlyph)
    ensures
        single_adjusted(b, s, lookups, g).glyph_id == g.glyph_id,
        single_adjusted(b, s, lookups, g).face_idx == g.face_idx,
    decreases lookups.len(),
{
    if lookups.len() > 0 {
        lemma_single_keeps_glyph(b, s, lookups.drop_last(), g);
    }
}

proof fn lemma_marks_keep_glyphs(
    b: Seq<u8>,
    s: Option<u32>,
    gids: Seq<u16>,
    counts: Seq<u16>,
    st: Seq<UnitGlyph>,
    face_idx: u16,
    k: int,
)
    requires
        keeps_glyphs(st, gids, face_idx),
        k <= st.len(),
    ensures
        keeps_glyphs(marks_attached(b, s, gids, counts, st, k), gids, face_idx),
    decreases k,
{
    if k > 1 {
        lemma_marks_keep_glyphs(b, s, gids, counts, st, face_idx, k - 1);
        let prev = marks_attached(b, s, gids, counts, st, k - 1);
        let next = mark_step(b, s, gids, counts, prev, k - 1);
        assert(keeps_glyphs(next, gids, face_idx)) by {
            assert forall|q: int| 0 <= q < next.len() implies #[trigger] next[q].glyph_id == gids[q]
                && next[q].face_idx == face_idx by {
                assert(prev[q].glyph_id == gids[q]);
            }
        }
    }
}

proof fn lemma_shift_keeps_glyphs(b: Seq<u8>, s: Option<u32>, gids: Seq<u16>, st: Seq<UnitGlyph>, face_idx: u16, j: int, dy: i64)
    requires
        keeps_glyphs(st, gids, face_idx),
    ensures
        keeps_glyphs(marks_shifted(b, s, gids, st, j, dy), gids, face_idx),
    decreases st.len() - j,
{
    if 0 <= j < st.len() && j < gids.len() && ttf_is_mark(b, s, gids[j]) {
        let g = st[j];
        let next = st.update(
            j,
            UnitGlyph {
                glyph_id: g.glyph_id,
                x_offset: g.x_offset,
                y_offset: g.y_offset.wrapping_add(dy),
                x_advance: g.x_advance,
                face_idx: g.face_idx,
            },
        );
        assert(keeps_glyphs(next, gids, face_idx)) by {
            assert forall|q: int| 0 <= q < next.len() implies #[trigger] next[q].glyph_id == gids[q]
                && next[q].face_idx == face_idx by {
                assert(st[q].glyph_id == gids[q]);
            }
        }
        lemma_shift_keeps_glyphs(b, s, gids, next, face_idx, j + 1, dy);
    }
}

proof fn lemma_cursive_keeps_glyphs(b: Seq<u8>, s: Option<u32>, gids: Seq<u16>, st: Seq<UnitGlyph>, face_idx: u16, k: int)
    requires
        keeps_glyphs(st, gids, face_idx),
        k <= st.len(),
    ensures
        keeps_glyphs(cursive_joined(b, s, gids, st, k), gids, face_idx),
    decreases k,
{
    if k > 0 {
        lemma_cursive_keeps_glyphs(b, s, gids, st, face_idx, k - 1);
        let prev = cursive_joined(b, s, gids, st, k - 1);
        let i = k - 1;
        if !ttf_is_mark(b, s, gids[i]) {
            lemma_base_before_range(b, s, gids, i);
            match base_before(b, s, gids, i) {
                None => {},
                Some(p) => {
                    let exit = match ttf_cursive(b, s, gids[p]) {
                        Some(a) => a.1,
                        None => None,
                    };
                    let entry = match ttf_cursive(b, s, gids[i]) {
                        Some(a) => a.0,
                        None => None,
                    };
                    match (exit, entry) {
                        (Some(ex), Some(en)) => {
                            let gp = prev[p];
                            let gi = prev[i];
                            let between = advance_sum(prev, p + 1, i);
                            let st1 = prev.update(
                                p,
                                UnitGlyph {
                                    glyph_id: gp.glyph_id,
                                    x_offset: gp.x_offset,
                                    y_offset: gp.y_offset,
                                    x_advance: gp.x_offset.wrapping_sub(gi.x_offset).wrapping_sub(between).wrapping_add(
                                        (ex.0 as i64).wrapping_sub(en.0 as i64),
                                    ),
                                    face_idx: gp.face_idx,
                                },
                            );
                            let new_y = gp.y_offset.wrapping_sub((ex.1 as i64).wrapping_sub(en.1 as i64));
                            let st2 = st1.update(
                                i,
                                UnitGlyph {
                                    glyph_id: gi.glyph_id,
                                    x_offset: gi.x_offset,
                                    y_offset: new_y,
                                    x_advance: gi.x_advance,
                                    face_idx: gi.face_idx,
                                },
                            );
                            assert(keeps_glyphs(st2, gids, face_idx)) by {
                                assert forall|q: int| 0 <= q < st2.len() implies #[trigger] st2[q].glyph_id == gids[q]
                                    && st2[q].face_idx == face_idx by {
                                    assert(prev[q].glyph_id == gids[q]);
                                }
                            }
                            lemma_shift_keeps_glyphs(b, s, gids, st2, face_idx, i + 1, new_y.wrapping_sub(gi.y_offset));
                        },
                        _ => {},
                    }
                },
            }
        }
    }
}

/// The base found before `i` lies before `i`.
proof fn lemma_base_before_range(b: Seq<u8>, s: Option<u32>, gids: Seq<u16>, i: int)
    ensures
        base_before(b, s, gids, i) matches Some(j) ==> 0 <= j < i,
    decreases i,
{
    if i > 0 {
        lemma_base_before_range(b, s, gids, i - 1);
    }
}

/// Positioning keeps the run: one glyph out for each glyph in, in the
/// same order and with the same glyph id, each tagged with the face
/// index it was positioned for.
pub proof fn lemma_positioned_keeps_glyphs(b: Seq<u8>, s: Option<u32>, gids: Seq<u16>, counts: Seq<u16>, face_idx: u16)
    ensures
        keeps_glyphs(positioned(b, s, gids, counts, face_idx), gids, face_idx),
{
    let lookups = ttf_gpos_lookups(b, s);
    let adjusted = Seq::new(gids.len(), |k: int| single_adjusted(b, s, lookups, initial_glyph(b, s, gids, face_idx, k)));
    assert(keeps_glyphs(adjusted, gids, face_idx)) by {
        assert forall|q: int| 0 <= q < adjusted.len() implies #[trigger] adjusted[q].glyph_id == gids[q]
            && adjusted[q].face_idx == face_idx by {
            lemma_single_keeps_glyph(b, s, lookups, initial_glyph(b, s, gids, face_idx, q));
        }
    }
    lemma_marks_keep_glyphs(b, s, gids, counts, adjusted, face_idx, gids.len() as int);
    let marked = marks_attached(b, s, gids, counts, adjusted, gids.len() as int);
    lemma_cursive_keeps_glyphs(b, s, gids, marked, face_idx, gids.len() as int);
}

proof fn lemma_single_without_type_1(b: Seq<u8>, s: Option<u32>, lookups: Seq<(u16, u16, u16)>, g: UnitGlyph)
    requires
        !has_lookup_type(lookups, 1),
    ensures
        single_adjusted(b, s, lookups, g) == g,
    decreases lookups.len(),
{
    if lookups.len() > 0 {
        assert(!has_lookup_type(lookups.drop_last(), 1)) by {
            if has_lookup_type(lookups.drop_last(), 1) {
                let m = choose|m: int| 0 <= m < lookups.drop_last().len() && #[trigger] lookups.drop_last()[m].1 == 1;
                assert(lookups[m].1 == 1);
            }
        }
        lemma_single_without_type_1(b, s, lookups.drop_last(), g);
        assert(lookups.last().1 != 1) by {
            if lookups.last().1 == 1 {
                assert(lookups[lookups.len() - 1].1 == 1);
            }
        }
    }
}

proof fn lemma_no_marks_attach_nothing(
    b: Seq<u8>,
    s: Option<u32>,
    gids: Seq<u16>,
    counts: Seq<u16>,
    st: Seq<UnitGlyph>,
    k: int,
)
    requires
        forall|q: int| 0 <= q < gids.len() ==> !ttf_is_mark(b, s, #[trigger] gids[q]),
        k <= gids.len(),
    ensures
        marks_attached(b, s, gids, counts, st, k) == st,
    decreases k,
{
    if k > 1 {
        lemma_no_marks_attach_nothing(b, s, gids, counts, st, k - 1);
        assert(!ttf_is_mark(b, s, gids[k - 1]));
    }
}

/// A run without marks, in a font without single-adjustment or cursive
/// lookups, is positioned by its kerned advances alone: every glyph
/// keeps a zero offset and advances by its own advance plus its kerning
/// against the glyph after it.
pub proof fn lemma_plain_run_is_kerned_advances(b: Seq<u8>, s: Option<u32>, gids: Seq<u16>, counts: Seq<u16>, face_idx: u16)
    requires
        forall|q: int| 0 <= q < gids.len() ==> !ttf_is_mark(b, s, #[trigger] gids[q]),
        !has_lookup_type(ttf_gpos_lookups(b, s), 1),
        !has_lookup_type(ttf_gpos_lookups(b, s), 3),
    ensures
        positioned(b, s, gids, counts, face_idx) == Seq::new(
            gids.len(),
            |k: int| initial_glyph(b, s, gids, face_idx, k),
        ),
        positioned(b, s, gids, counts, face_idx).len() == gids.len(),
        forall|k: int|
            0 <= k < gids.len() ==> {
                let g = #[trigger] positioned(b, s, gids, counts, face_idx)[k];
                &&& g.x_offset == 0 && g.y_offset == 0
                &&& k + 1 < gids.len() ==> g.x_advance == ttf_advance(b, s, gids[k]) + ttf_kerning(
                    b,
                    s,
                    gids[k],
                    gids[k + 1],
                )
                &&& k + 1 == gids.len() ==> g.x_advance == ttf_advance(b, s, gids[k])
            },
{
    let lookups = ttf_gpos_lookups(b, s);
    let adjusted = Seq::new(gids.len(), |k: int| single_adjusted(b, s, lookups, initial_glyph(b, s, gids, face_idx, k)));
    assert forall|k: int| 0 <= k < gids.len() implies #[trigger] adjusted[k] == initial_glyph(b, s, gids, face_idx, k) by {
        lemma_single_without_type_1(b, s, lookups, initial_glyph(b, s, gids, face_idx, k));
    }
    assert(adjusted =~= Seq::new(gids.len(), |k: int| initial_glyph(b, s, gids, face_idx, k)));
    lemma_no_marks_attach_nothing(b, s, gids, counts, adjusted, gids.len() as int);
}

/// Each single adjustment moves the glyph by its value record, in the
/// raster's Y-down convention: applying one more lookup of type 1 that
/// covers the glyph with `(x placement, y placement, x advance, _)`
/// adds the x placement to `x_offset`, subtracts the y placement from
/// `y_offset` (a positive y placement raises the glyph), adds the x
/// advance to `x_advance`, and keeps the glyph and its face; any other
/// lookup leaves the glyph as it was.
pub proof fn lemma_single_adjustment_step(
    b: Seq<u8>,
    s: Option<u32>,
    lookups: Seq<(u16, u16, u16)>,
    e: (u16, u16, u16),
    g: UnitGlyph,
)
    ensures
        ({
            let before = single_adjusted(b, s, lookups, g);
            let after = single_adjusted(b, s, lookups.push(e), g);
            match (if e.1 == 1 { ttf_single_pos(b, s, e.0, g.glyph_id) } else { None }) {
                Some(v) => after.x_offset == before.x_offset.wrapping_add(v.0 as i64)
                    && after.y_offset == before.y_offset.wrapping_sub(v.1 as i64)
                    && after.x_advance == before.x_advance.wrapping_add(v.2 as i64)
                    && after.glyph_id == before.glyph_id && after.face_idx == before.face_idx,
                None => after == before,
            }
        }),
{
    assert(lookups.push(e).drop_last() =~= lookups);
    assert(lookups.push(e).last() == e);
}

/// A lone glyph has no neighbour to kern against, attach to or join:
/// positioning it gives its own advance, moved only by the single
/// adjustments of the font's lookups.
pub proof fn lemma_lone_glyph_takes_single_adjustments(b: Seq<u8>, s: Option<u32>, gid: u16, counts: Seq<u16>, face_idx: u16)
    ensures
        positioned(b, s, seq![gid], counts, face_idx) == seq![
            single_adjusted(
                b,
                s,
                ttf_gpos_lookups(b, s),
                UnitGlyph {
                    glyph_id: gid,
                    x_offset: 0,
                    y_offset: 0,
                    x_advance: ttf_advance(b, s, gid) as i64,
                    face_idx,
                },
            ),
        ],
{
    let gids = seq![gid];
    let lookups = ttf_gpos_lookups(b, s);
    let adjusted = Seq::new(gids.len(), |k: int| single_adjusted(b, s, lookups, initial_glyph(b, s, gids, face_idx, k)));
    let marked = marks_attached(b, s, gids, counts, adjusted, 1);
    assert(marked == adjusted);
    assert(base_before(b, s, gids, 0) is None);
    assert(cursive_joined(b, s, gids, marked, 1) == cursive_step(b, s, gids, cursive_joined(b, s, gids, marked, 0), 0));
    assert(adjusted =~= seq![
        single_adjusted(
            b,
            s,
            lookups,
            UnitGlyph { glyph_id: gid, x_offset: 0, y_offset: 0, x_advance: ttf_advance(b, s, gid) as i64, face_idx },
        ),
    ]);
}

/// A mark after its base, in a font without single-adjustment or
/// cursive lookups, lands on the base's anchor: the base keeps a zero
/// offset and its advance kerned against the mark; the mark moves right
/// by the anchor's x less its own advance (its pen position is one
/// advance past where it is drawn), up by the anchor's y (a smaller
/// `y_offset`), and stops advancing the pen.
pub proof fn lemma_mark_lands_on_base_anchor(
    b: Seq<u8>,
    s: Option<u32>,
    base: u16,
    mark: u16,
    counts: Seq<u16>,
    face_idx: u16,
    d: (i16, i16),
)
    requires
        !ttf_is_mark(b, s, base),
        ttf_is_mark(b, s, mark),
        counts.len() == 0 || counts[0] <= 1,
        ttf_mark_to_base(b, s, base, mark) == Some(d),
        !has_lookup_type(ttf_gpos_lookups(b, s), 1),
        !has_lookup_type(ttf_gpos_lookups(b, s), 3),
    ensures
        positioned(b, s, seq![base, mark], counts, face_idx) == seq![
            UnitGlyph {
                glyph_id: base,
                x_offset: 0,
                y_offset: 0,
                x_advance: (ttf_advance(b, s, base) + ttf_kerning(b, s, base, mark)) as i64,
                face_idx,
            },
            UnitGlyph {
                glyph_id: mark,
                x_offset: (d.0 - ttf_advance(b, s, mark)) as i64,
                y_offset: (-d.1) as i64,
                x_advance: 0,
                face_idx,
            },
        ],
{
    let gids = seq![base, mark];
    let lookups = ttf_gpos_lookups(b, s);
    let adjusted = Seq::new(gids.len(), |k: int| single_adjusted(b, s, lookups, initial_glyph(b, s, gids, face_idx, k)));
    lemma_single_without_type_1(b, s, lookups, initial_glyph(b, s, gids, face_idx, 0));
    lemma_single_without_type_1(b, s, lookups, initial_glyph(b, s, gids, face_idx, 1));
    assert(adjusted[0] == initial_glyph(b, s, gids, face_idx, 0));
    assert(adjusted[1] == initial_glyph(b, s, gids, face_idx, 1));
    assert(marks_attached(b, s, gids, counts, adjusted, 1) == adjusted);
    assert(marks_attached(b, s, gids, counts, adjusted, 2) == mark_step(b, s, gids, counts, adjusted, 1));
    assert(base_before(b, s, gids, 1) == Some(0int));
    assert(base_anchor(b, s, counts, 0, base, mark) == Some(d));
    assert(advance_sum(adjusted, 1, 1) == 0);
    assert(advance_sum(adjusted, 1, 2) == adjusted[1].x_advance);
}

/// Two glyphs joined cursively, in a font without single adjustments:
/// the first glyph's advance becomes the distance from the second's
/// entry anchor to its own exit anchor, so the anchors meet, and the
/// second glyph moves up by the exit anchor's height above the entry
/// anchor (a smaller `y_offset`).
pub proof fn lemma_cursive_pair_meets(
    b: Seq<u8>,
    s: Option<u32>,
    first: u16,
    second: u16,
    counts: Seq<u16>,
    face_idx: u16,
    exit: (i16, i16),
    entry: (i16, i16),
)
    requires
        !ttf_is_mark(b, s, first),
        !ttf_is_mark(b, s, second),
        ttf_cursive(b, s, first) matches Some(a) && a.1 == Some(exit),
        ttf_cursive(b, s, second) matches Some(a) && a.0 == Some(entry),
        !has_lookup_type(ttf_gpos_lookups(b, s), 1),
        has_lookup_type(ttf_gpos_lookups(b, s), 3),
    ensures
        positioned(b, s, seq![first, second], counts, face_idx) == seq![
            UnitGlyph { glyph_id: first, x_offset: 0, y_offset: 0, x_advance: (exit.0 - entry.0) as i64, face_idx },
            UnitGlyph {
                glyph_id: second,
                x_offset: 0,
                y_offset: (entry.1 - exit.1) as i64,
                x_advance: ttf_advance(b, s, second) as i64,
                face_idx,
            },
        ],
{
    let gids = seq![first, second];
    let lookups = ttf_gpos_lookups(b, s);
    let adjusted = Seq::new(gids.len(), |k: int| single_adjusted(b, s, lookups, initial_glyph(b, s, gids, face_idx, k)));
    lemma_single_without_type_1(b, s, lookups, initial_glyph(b, s, gids, face_idx, 0));
    lemma_single_without_type_1(b, s, lookups, initial_glyph(b, s, gids, face_idx, 1));
    assert forall|q: int| 0 <= q < gids.len() implies !ttf_is_mark(b, s, #[trigger] gids[q]) by {}
    lemma_no_marks_attach_nothing(b, s, gids, counts, adjusted, 2);
    let marked = marks_attached(b, s, gids, counts, adjusted, 2);
    assert(marked[0] == initial_glyph(b, s, gids, face_idx, 0));
    assert(marked[1] == initial_glyph(b, s, gids, face_idx, 1));
    assert(cursive_joined(b, s, gids, marked, 0) == marked);
    assert(base_before(b, s, gids, 0) is None);
    assert(cursive_joined(b, s, gids, marked, 1) == marked);
    assert(base_before(b, s, gids, 1) == Some(0int));
    assert(advance_sum(marked, 1, 1) == 0);
}

/// The nearest glyph before `i` that is not a mark.
fn find_base(font: &TtfFont, gids: &[u16], i: usize) -> (r: Option<usize>)
    requires
        i <= gids.len(),
    ensures
        match r {
            Some(j) => j < i && base_before(font.bytes_of(), font.subfont_of(), gids@, i as int) == Some(j as int),
            None => base_before(font.bytes_of(), font.subfont_of(), gids@, i as int) is None,
        },
{
    let mut j = i;
    while j > 0
        invariant
            j <= i,
            i <= gids.len(),
            base_before(font.bytes_of(), font.subfont_of(), gids@, i as int) == base_before(
                font.bytes_of(),
                font.subfont_of(),
                gids@,
                j as int,
            ),
        decreases j,
    {
        if !font.is_mark(gids[j - 1]) {
            return Some(j - 1);
        }
        j -= 1;
    }
    None
}

/// The first mark-to-ligature anchor of `mark` on `ligature` from
/// component `last` down.
fn find_ligature_anchor(font: &TtfFont, ligature: u16, mark: u16, last: u16) -> (r: Option<(i16, i16)>)
    ensures
        r == ligature_anchor(font.bytes_of(), font.subfont_of(), ligature, mark, last),
{
    let mut c = last;
    loop
        invariant
            ligature_anchor(font.bytes_of(), font.subfont_of(), ligature, mark, last) == ligature_anchor(
                font.bytes_of(),
                font.subfont_of(),
                ligature,
                mark,
                c,
            ),
        decreases c,
    {
        match font.mark_to_ligature(ligature, c, mark) {
            Some(d) => {
                return Some(d);
            },
            None => {},
        }
        if c == 0 {
            return None;
        }
        c -= 1;
    }
}

/// The anchor attaching `mark` to the base `base` at position `j`.
fn find_base_anchor(font: &TtfFont, counts: &[u16], j: usize, base: u16, mark: u16) -> (r: Option<(i16, i16)>)
    ensures
        r == base_anchor(font.bytes_of(), font.subfont_of(), counts@, j as int, base, mark),
{
    let comp: u16 = if j < counts.len() {
        counts[j]
    } else {
        1
    };
    if comp > 1 {
        match find_ligature_anchor(font, base, mark, comp - 1) {
            Some(d) => Some(d),
            None => font.mark_to_base(base, mark),
        }
    } else {
        font.mark_to_base(base, mark)
    }
}

/// The sum of the advances of `st[from..to]`.
fn sum_advances(st: &Vec<UnitGlyph>, from: usize, to: usize) -> (r: i64)
    requires
        from <= to <= st.len(),
    ensures
        r == advance_sum(st@, from as int, to as int),
{
    let mut acc: i64 = 0;
    let mut k = from;
    while k < to
        invariant
            from <= k <= to,
            to <= st.len(),
            acc == advance_sum(st@, from as int, k as int),
        decreases to - k,
    {
        acc = acc.wrapping_add(st[k].x_advance);
        k += 1;
    }
    acc
}

/// Move the marks from `from` on down by `dy`.
fn shift_marks(font: &TtfFont, gids: &[u16], out: &mut Vec<UnitGlyph>, from: usize, dy: i64)
    requires
        old(out).len() == gids.len(),
        from <= gids.len(),
    ensures
        final(out).len() == old(out).len(),
        final(out)@ == marks_shifted(font.bytes_of(), font.subfont_of(), gids@, old(out)@, from as int, dy),
{
    let ghost b = font.bytes_of();
    let ghost s = font.subfont_of();
    let mut j = from;
    while j < out.len()
        invariant
            b == font.bytes_of(),
            s == font.subfont_of(),
            out.len() == gids.len(),
            from <= j <= out.len(),
            marks_shifted(b, s, gids@, old(out)@, from as int, dy) == marks_shifted(b, s, gids@, out@, j as int, dy),
        ensures
            out@ == marks_shifted(b, s, gids@, old(out)@, from as int, dy),
        decreases out.len() - j,
    {
        if !font.is_mark(gids[j]) {
            break;
        }
        let g = out[j];
        out.set(
            j,
            UnitGlyph {
                glyph_id: g.glyph_id,
                x_offset: g.x_offset,
                y_offset: g.y_offset.wrapping_add(dy),
                x_advance: g.x_advance,
                face_idx: g.face_idx,
            },
        );
        j += 1;
    }
}

/// Position the run `gids` with `font`; `counts` gives each glyph's
/// number of ligature components (missing entries count as one).
fn position_units(font: &TtfFont, gids: &[u16], counts: &[u16], face_idx: u16) -> (r: Vec<UnitGlyph>)
    ensures
        r@ == positioned(font.bytes_of(), font.subfont_of(), gids@, counts@, face_idx),
{
    let ghost b = font.bytes_of();
    let ghost s = font.subfont_of();
    let n = gids.len();
    let mut out: Vec<UnitGlyph> = Vec::new();
    for k in 0..n
        invariant
            b == font.bytes_of(),
            s == font.subfont_of(),
            n == gids.len(),
            out@.len() == k,
            forall|q: int| 0 <= q < k ==> out@[q] == initial_glyph(b, s, gids@, face_idx, q),
    {
        let adv = font.advance(gids[k]) as i64;
        let x_advance = if k + 1 < n {
            adv + font.kerning(gids[k], gids[k + 1]) as i64
        } else {
            adv
        };
        out.push(UnitGlyph { glyph_id: gids[k], x_offset: 0, y_offset: 0, x_advance, face_idx });
        assert(out@[k as int] == initial_glyph(b, s, gids@, face_idx, k as int));
    }
    let lookups = font.gpos_lookups();
    let ghost initial = out@;
    for k in 0..n
        invariant
            b == font.bytes_of(),
            s == font.subfont_of(),
            n == gids.len(),
            out@.len() == n,
            initial.len() == n,
            lookups@ == ttf_gpos_lookups(b, s),
            forall|q: int| 0 <= q < n ==> initial[q] == initial_glyph(b, s, gids@, face_idx, q),
            forall|q: int| 0 <= q < k ==> out@[q] == single_adjusted(b, s, lookups@, initial[q]),
            forall|q: int| k <= q < n ==> out@[q] == initial[q],
    {
        let g0 = out[k];
        let mut g = g0;
        for m in 0..lookups.len()
            invariant
                b == font.bytes_of(),
                s == font.subfont_of(),
            b == font.bytes_of(),
            s == font.subfont_of(),
                g == single_adjusted(b, s, lookups@.take(m as int), g0),
        {
            let e = lookups[m];
            assert(lookups@.take(m + 1).drop_last() =~= lookups@.take(m as int));
            assert(lookups@.take(m + 1).last() == e);
            if e.1 == 1 {
                match font.single_pos(e.0, g0.glyph_id) {
                    Some(v) => {
                        g = UnitGlyph {
                            glyph_id: g.glyph_id,
                            x_offset: g.x_offset.wrapping_add(v.0 as i64),
                            y_offset: g.y_offset.wrapping_sub(v.1 as i64),
                            x_advance: g.x_advance.wrapping_add(v.2 as i64),
                            face_idx: g.face_idx,
                        };
                    },
                    None => {},
                }
            }
        }
        assert(lookups@.take(lookups.len() as int) =~= lookups@);
        out.set(k, g);
    }
    let ghost adjusted = out@;
    assert(adjusted =~= Seq::new(
        gids@.len(),
        |k: int| single_adjusted(b, s, ttf_gpos_lookups(b, s), initial_glyph(b, s, gids@, face_idx, k)),
    ));
    let mut i: usize = 1;
    while i < n
        invariant
            b == font.bytes_of(),
            s == font.subfont_of(),
            1 <= i,
            i <= n || n == 0,
            n == gids.len(),
            out@.len() == n,
            out@ == marks_attached(b, s, gids@, counts@, adjusted, i as int),
        decreases n - i,
    {
        let mark = gids[i];
        if font.is_mark(mark) {
            let prev = gids[i - 1];
            let m2m = if font.is_mark(prev) {
                font.mark_to_mark(prev, mark)
            } else {
                None
            };
            match m2m {
                Some(d) => {
                    let g = out[i];
                    let gp = out[i - 1];
                    out.set(
                        i,
                        UnitGlyph {
                            glyph_id: g.glyph_id,
                            x_offset: gp.x_offset.wrapping_add(d.0 as i64).wrapping_sub(g.x_advance),
                            y_offset: gp.y_offset.wrapping_sub(d.1 as i64),
                            x_advance: 0,
                            face_idx: g.face_idx,
                        },
                    );
                },
                None => match find_base(font, gids, i) {
                    None => {},
                    Some(j) => match find_base_anchor(font, counts, j, gids[j], mark) {
                        None => {},
                        Some(d) => {
                            let between = sum_advances(&out, j + 1, i + 1);
                            let g = out[i];
                            out.set(
                                i,
                                UnitGlyph {
                                    glyph_id: g.glyph_id,
                                    x_offset: g.x_offset.wrapping_add((d.0 as i64).wrapping_sub(between)),
                                    y_offset: g.y_offset.wrapping_sub(d.1 as i64),
                                    x_advance: 0,
                                    face_idx: g.face_idx,
                                },
                            );
                        },
                    },
                },
            }
        }
        i += 1;
    }
    let mut has_cursive = false;
    let mut m: usize = 0;
    while m < lookups.len()
        invariant
            b == font.bytes_of(),
            s == font.subfont_of(),
            m <= lookups.len(),
            has_cursive <==> exists|q: int| 0 <= q < m && #[trigger] lookups@[q].1 == 3,
        decreases lookups.len() - m,
    {
        if lookups[m].1 == 3 {
            has_cursive = true;
        }
        m += 1;
    }
    if has_cursive {
        let ghost marked = out@;
        let mut i: usize = 0;
        while i < n
            invariant
                b == font.bytes_of(),
                s == font.subfont_of(),
            b == font.bytes_of(),
            s == font.subfont_of(),
                i <= n,
                n == gids.len(),
                out@.len() == n,
                out@ == cursive_joined(b, s, gids@, marked, i as int),
            decreases n - i,
        {
            if !font.is_mark(gids[i]) {
                match find_base(font, gids, i) {
                    None => {},
                    Some(p) => {
                        let exit = match font.cursive(gids[p]) {
                            Some(a) => a.1,
                            None => None,
                        };
                        let entry = match font.cursive(gids[i]) {
                            Some(a) => a.0,
                            None => None,
                        };
                        match (exit, entry) {
                            (Some(ex), Some(en)) => {
                                let gp = out[p];
                                let gi = out[i];
                                let between = sum_advances(&out, p + 1, i);
                                out.set(
                                    p,
                                    UnitGlyph {
                                        glyph_id: gp.glyph_id,
                                        x_offset: gp.x_offset,
                                        y_offset: gp.y_offset,
                                        x_advance: gp.x_offset.wrapping_sub(gi.x_offset).wrapping_sub(between).wrapping_add(
                                            (ex.0 as i64).wrapping_sub(en.0 as i64),
                                        ),
                                        face_idx: gp.face_idx,
                                    },
                                );
                                let new_y = gp.y_offset.wrapping_sub((ex.1 as i64).wrapping_sub(en.1 as i64));
                                let dy = new_y.wrapping_sub(gi.y_offset);
                                out.set(
                                    i,
                                    UnitGlyph {
                                        glyph_id: gi.glyph_id,
                                        x_offset: gi.x_offset,
                                        y_offset: new_y,
                                        x_advance: gi.x_advance,
                                        face_idx: gi.face_idx,
                                    },
                                );
                                shift_marks(font, gids, &mut out, i + 1, dy);
                            },
                            _ => {},
                        }
                    },
                }
            }
            i += 1;
        }
    }
    out
}

/// Position the run `gids` with the face's font, in font units: each
/// glyph's advance, kerned against the next glyph on the left glyph of
/// the pair; the font's GPOS single adjustments; marks attached to the
/// mark before them or to their base (per ligature component when
/// `component_counts` says the base is a ligature); and cursive joins.
/// Every glyph is tagged with `face_idx`. An error for an
/// OpenType-CFF face.
pub fn position_run_units(face: &Face, gids: &[u16], component_counts: &[u16], face_idx: u16) -> (r: Result<Vec<UnitGlyph>, FontError>)
    ensures
        face.kind_view() == FaceKind::Ttf ==> (r matches Ok(v) && v@ == positioned(
            face.bytes_view(),
            face.subfont_view(),
            gids@,
            component_counts@,
            face_idx,
        )),
        face.kind_view() == FaceKind::Otf ==> (r matches Err(
            FontError::WrongFaceKind { expected: FaceKind::Ttf, actual: FaceKind::Otf },
        )),
{
    match face.open_font() {
        Ok(font) => Ok(position_units(&font, gids, component_counts, face_idx)),
        Err(e) => Err(e),
    }
}

} // verus!
