//! Tests of glyph positioning in font units and of the per-face GPOS,
//! GSUB and colour-bitmap queries.

use oxideav_scribe::face::{Face, FaceKind};
use oxideav_scribe::position::{position_run_units, UnitGlyph};

fn be16(v: u16) -> [u8; 2] {
    v.to_be_bytes()
}

/// An sfnt holding `tables`, each padded to four bytes.
fn sfnt(tables: &[(&[u8; 4], Vec<u8>)]) -> Vec<u8> {
    let n = tables.len() as u16;
    let mut out = Vec::new();
    out.extend_from_slice(&0x0001_0000u32.to_be_bytes());
    out.extend_from_slice(&be16(n));
    out.extend_from_slice(&[0; 6]);
    let mut offset = 12 + 16 * tables.len();
    let mut records = Vec::new();
    for (tag, body) in tables {
        records.push((*tag, offset as u32, body.len() as u32));
        offset += (body.len() + 3) / 4 * 4;
    }
    for (tag, off, len) in &records {
        out.extend_from_slice(&tag[..]);
        out.extend_from_slice(&0u32.to_be_bytes());
        out.extend_from_slice(&off.to_be_bytes());
        out.extend_from_slice(&len.to_be_bytes());
    }
    for (_, body) in tables {
        out.extend_from_slice(body);
        while out.len() % 4 != 0 {
            out.push(0);
        }
    }
    out
}

/// A format-4 cmap mapping `first..=last` to glyphs `1..`.
fn cmap(first: char, last: char) -> Vec<u8> {
    let (s, e) = (first as u16, last as u16);
    let delta = 1u16.wrapping_sub(s);
    let mut sub = Vec::new();
    for v in [4u16, 0, 0, 4, 4, 1, 0, e, 0xFFFF, 0, s, 0xFFFF, delta, 1, 0, 0] {
        sub.extend_from_slice(&be16(v));
    }
    let len = sub.len() as u16;
    sub[2..4].copy_from_slice(&be16(len));
    let mut out = Vec::new();
    for v in [0u16, 1, 3, 1] {
        out.extend_from_slice(&be16(v));
    }
    out.extend_from_slice(&12u32.to_be_bytes());
    out.extend_from_slice(&sub);
    out
}

/// Big-endian 16-bit words.
fn words(ws: &[i32]) -> Vec<u8> {
    let mut out = Vec::new();
    for w in ws {
        out.extend_from_slice(&(*w as u16).to_be_bytes());
    }
    out
}

/// GDEF classing glyphs 1 and 2 as bases and glyph 3 as a mark.
fn gdef() -> Vec<u8> {
    words(&[1, 0, 12, 0, 0, 0, 1, 1, 3, 1, 1, 3])
}

/// A `kern` table kerning the pair (1, 2) by -50.
fn kern() -> Vec<u8> {
    words(&[0, 1, 0, 20, 0x0001, 1, 6, 0, 0, 1, 2, -50])
}

/// GPOS with a single adjustment (x placement +10, x advance +20) on
/// glyph 2, a mark-to-base lookup pulling mark 3 (anchor at the origin)
/// onto base 1's anchor (250, 600), and a mark-to-mark lookup stacking
/// mark 3 on an earlier mark 3's anchor (0, 300), and a cursive lookup
/// giving glyph 2 an entry anchor (50, 20) and an exit anchor (600, 100),
/// and a mark-to-ligature lookup with an anchor (100, 500) for mark 3 on
/// the first of two components of glyph 2 and none on the second.
fn gpos() -> Vec<u8> {
    let mut single = words(&[1, 10, 0x0005, 10, 20]);
    single.extend(words(&[1, 1, 2]));
    let mut lookup0 = words(&[1, 0, 1, 8]);
    lookup0.extend(single);
    let mut mark_base = words(&[1, 12, 18, 1, 24, 36]);
    mark_base.extend(words(&[1, 1, 3]));
    mark_base.extend(words(&[1, 1, 1]));
    mark_base.extend(words(&[1, 0, 6, 1, 0, 0]));
    mark_base.extend(words(&[1, 4, 1, 250, 600]));
    let mut lookup1 = words(&[4, 0, 1, 8]);
    lookup1.extend(mark_base);
    let mut mark_mark = words(&[1, 12, 18, 1, 24, 36]);
    mark_mark.extend(words(&[1, 1, 3]));
    mark_mark.extend(words(&[1, 1, 3]));
    mark_mark.extend(words(&[1, 0, 6, 1, 0, 0]));
    mark_mark.extend(words(&[1, 4, 1, 0, 300]));
    let mut lookup2 = words(&[6, 0, 1, 8]);
    lookup2.extend(mark_mark);
    let mut lookup3 = words(&[3, 0, 1, 8]);
    lookup3.extend(words(&[1, 22, 1, 10, 16, 1, 50, 20, 1, 600, 100, 1, 1, 2]));
    let mut lookup4 = words(&[5, 0, 1, 8]);
    lookup4.extend(words(&[1, 12, 18, 1, 24, 36]));
    lookup4.extend(words(&[1, 1, 3]));
    lookup4.extend(words(&[1, 1, 2]));
    lookup4.extend(words(&[1, 0, 6, 1, 0, 0]));
    lookup4.extend(words(&[1, 4, 2, 6, 0, 1, 100, 500]));
    let first = 12;
    let second = first + lookup0.len() as i32;
    let third = second + lookup1.len() as i32;
    let fourth = third + lookup2.len() as i32;
    let fifth = fourth + lookup3.len() as i32;
    let mut list = words(&[5, first, second, third, fourth, fifth]);
    list.extend(lookup0);
    list.extend(lookup1);
    list.extend(lookup2);
    list.extend(lookup3);
    list.extend(lookup4);
    let mut out = words(&[1, 0, 0, 0, 10]);
    out.extend(list);
    out
}

/// A TrueType font of four glyphs with advances 0, 500, 600 and 700,
/// a kerning pair, GDEF mark classes and the GPOS lookups above.
fn positioning_font() -> Vec<u8> {
    let mut name = vec![0u8; 6];
    name[4..6].copy_from_slice(&be16(6));
    font_with_name(name, true)
}

/// A `name` table with one Windows English record: family "Demo".
fn demo_name() -> Vec<u8> {
    let mut out = words(&[0, 1, 18, 3, 1, 0x409, 1, 8, 0]);
    for c in "Demo".encode_utf16() {
        out.extend_from_slice(&c.to_be_bytes());
    }
    out
}

/// The positioning font with `name` as its `name` table, and without
/// its GDEF and GPOS tables unless `with_gpos`.
fn font_with_name(name: Vec<u8>, with_gpos: bool) -> Vec<u8> {
    let glyphs = 4u16;
    let mut head = vec![0u8; 54];
    head[0..4].copy_from_slice(&0x0001_0000u32.to_be_bytes());
    head[12..16].copy_from_slice(&0x5F0F_3CF5u32.to_be_bytes());
    head[18..20].copy_from_slice(&be16(1000));
    let mut hhea = vec![0u8; 36];
    hhea[0..4].copy_from_slice(&0x0001_0000u32.to_be_bytes());
    hhea[34..36].copy_from_slice(&be16(glyphs));
    let mut maxp = vec![0u8; 6];
    maxp[0..4].copy_from_slice(&0x0000_5000u32.to_be_bytes());
    maxp[4..6].copy_from_slice(&be16(glyphs));
    let hmtx = words(&[0, 0, 500, 0, 600, 0, 700, 0]);
    let loca = vec![0u8; 2 * (glyphs as usize + 1)];
    let mut tables = vec![
        (b"GDEF", gdef()),
        (b"GPOS", gpos()),
        (b"cmap", cmap('A', 'C')),
        (b"glyf", vec![0u8; 2]),
        (b"head", head),
        (b"hhea", hhea),
        (b"hmtx", hmtx),
        (b"kern", kern()),
        (b"loca", loca),
        (b"maxp", maxp),
        (b"name", name),
    ];
    if !with_gpos {
        tables.drain(0..2);
    }
    sfnt(&tables)
}

fn glyph(glyph_id: u16, x_offset: i64, y_offset: i64, x_advance: i64) -> UnitGlyph {
    UnitGlyph { glyph_id, x_offset, y_offset, x_advance, face_idx: 2 }
}

#[test]
fn kerning_goes_on_the_left_glyph_and_single_adjustment_applies() {
    let face = Face::from_ttf_bytes(positioning_font(), 1).expect("parses");
    let run = position_run_units(&face, &[1, 2], &[], 2).expect("ttf face");
    assert_eq!(run, vec![glyph(1, 0, 0, 450), glyph(2, 10, 0, 620)]);
}

#[test]
fn a_mark_attaches_to_its_base_and_loses_its_advance() {
    let face = Face::from_ttf_bytes(positioning_font(), 1).expect("parses");
    let run = position_run_units(&face, &[1, 3, 2], &[1, 1, 1], 2).expect("ttf face");
    assert_eq!(run, vec![glyph(1, 0, 0, 500), glyph(3, -450, -600, 0), glyph(2, 10, 0, 620)]);
}

#[test]
fn a_second_mark_stacks_on_the_first() {
    let face = Face::from_ttf_bytes(positioning_font(), 1).expect("parses");
    let run = position_run_units(&face, &[1, 3, 3], &[], 2).expect("ttf face");
    assert_eq!(run, vec![glyph(1, 0, 0, 500), glyph(3, -450, -600, 0), glyph(3, -1150, -900, 0)]);
}

#[test]
fn cursive_glyphs_join_exit_to_entry() {
    let face = Face::from_ttf_bytes(positioning_font(), 1).expect("parses");
    let run = position_run_units(&face, &[2, 2], &[], 2).expect("ttf face");
    assert_eq!(run, vec![glyph(2, 10, 0, 550), glyph(2, 10, -80, 620)]);
}

#[test]
fn a_mark_on_a_ligature_takes_the_last_component_with_an_anchor() {
    let face = Face::from_ttf_bytes(positioning_font(), 1).expect("parses");
    let run = position_run_units(&face, &[2, 3], &[2, 1], 2).expect("ttf face");
    assert_eq!(run, vec![glyph(2, 10, 0, 620), glyph(3, -600, -500, 0)]);
}

#[test]
fn a_mark_on_a_base_without_an_anchor_stays_put() {
    let face = Face::from_ttf_bytes(positioning_font(), 1).expect("parses");
    let run = position_run_units(&face, &[2, 3], &[], 2).expect("ttf face");
    assert_eq!(run, vec![glyph(2, 10, 0, 620), glyph(3, 0, 0, 700)]);
}

#[test]
fn a_mark_with_no_base_before_it_stays_put() {
    let face = Face::from_ttf_bytes(positioning_font(), 1).expect("parses");
    let run = position_run_units(&face, &[3, 1], &[], 2).expect("ttf face");
    assert_eq!(run, vec![glyph(3, 0, 0, 700), glyph(1, 0, 0, 500)]);
}

#[test]
fn an_empty_run_positions_to_nothing() {
    let face = Face::from_ttf_bytes(positioning_font(), 1).expect("parses");
    assert_eq!(position_run_units(&face, &[], &[], 0).expect("ttf face"), Vec::new());
}

#[test]
fn a_font_without_colour_bitmaps_or_gsub_reports_none() {
    let face = Face::from_ttf_bytes(positioning_font(), 1).expect("parses");
    assert_eq!(face.kind(), FaceKind::Ttf);
    assert!(!face.has_color_bitmaps());
    assert_eq!(face.color_strike_sizes(), Vec::new());
    assert_eq!(face.gsub_features_for_script(*b"latn", None), Vec::<[u8; 4]>::new());
    assert!(!face.has_gsub_feature(*b"latn", *b"liga"));
}

#[test]
fn positioning_keeps_every_glyph_in_order() {
    let face = Face::from_ttf_bytes(positioning_font(), 1).expect("parses");
    let gids = [3u16, 1, 3, 3, 2, 0];
    let run = position_run_units(&face, &gids, &[], 9).expect("ttf face");
    assert_eq!(run.len(), gids.len());
    for (g, id) in run.iter().zip(gids.iter()) {
        assert_eq!(g.glyph_id, *id);
        assert_eq!(g.face_idx, 9);
    }
}

#[test]
fn name_records_are_read_by_id() {
    let face = Face::from_ttf_bytes(font_with_name(demo_name(), true), 1).expect("parses");
    assert_eq!(face.name_id(1), Some("Demo".to_string()));
    assert_eq!(face.name_id(2), None);
    let plain = Face::from_ttf_bytes(positioning_font(), 1).expect("parses");
    assert_eq!(plain.name_id(1), None);
}

#[test]
fn a_plain_run_gets_its_kerned_advances() {
    let face = Face::from_ttf_bytes(font_with_name(demo_name(), false), 1).expect("parses");
    let run = position_run_units(&face, &[1, 2, 3], &[], 4).expect("ttf face");
    let kerned = vec![
        UnitGlyph { glyph_id: 1, x_offset: 0, y_offset: 0, x_advance: 450, face_idx: 4 },
        UnitGlyph { glyph_id: 2, x_offset: 0, y_offset: 0, x_advance: 600, face_idx: 4 },
        UnitGlyph { glyph_id: 3, x_offset: 0, y_offset: 0, x_advance: 700, face_idx: 4 },
    ];
    assert_eq!(run, kerned);
}
