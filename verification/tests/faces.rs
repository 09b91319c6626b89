//! Tests of loading faces and of the face chain's glyph fallback.

use oxideav_scribe::face::{Face, FaceKind, FontError};
use oxideav_scribe::face_chain::{pick_glyph, FaceChain};

fn be16(v: u16) -> [u8; 2] {
    v.to_be_bytes()
}

/// An sfnt holding `tables`, each padded to four bytes.
fn sfnt(tables: &[(&[u8; 4], Vec<u8>)]) -> Vec<u8> {
    let n = tables.len() as u16;
    let mut out = Vec::new();
    out.extend_from_slice(&0x0001_0000u32.to_be_bytes());
    out.extend_from_slice(&be16(n));
    out.extend_from_slice(&[0; 6]);
    let mut offset = 12 + 16 * tables.len();
    let mut records = Vec::new();
    for (tag, body) in tables {
        records.push((*tag, offset as u32, body.len() as u32));
        offset += (body.len() + 3) / 4 * 4;
    }
    for (tag, off, len) in &records {
        out.extend_from_slice(&tag[..]);
        out.extend_from_slice(&0u32.to_be_bytes());
        out.extend_from_slice(&off.to_be_bytes());
        out.extend_from_slice(&len.to_be_bytes());
    }
    for (_, body) in tables {
        out.extend_from_slice(body);
        while out.len() % 4 != 0 {
            out.push(0);
        }
    }
    out
}

/// A format-4 cmap mapping `first..=last` to glyphs `1..`.
fn cmap(first: char, last: char) -> Vec<u8> {
    let (s, e) = (first as u16, last as u16);
    let delta = 1u16.wrapping_sub(s);
    let mut sub = Vec::new();
    for v in [4u16, 0, 0, 4, 4, 1, 0, e, 0xFFFF, 0, s, 0xFFFF, delta, 1, 0, 0] {
        sub.extend_from_slice(&be16(v));
    }
    let len = sub.len() as u16;
    sub[2..4].copy_from_slice(&be16(len));
    let mut out = Vec::new();
    for v in [0u16, 1, 3, 1] {
        out.extend_from_slice(&be16(v));
    }
    out.extend_from_slice(&12u32.to_be_bytes());
    out.extend_from_slice(&sub);
    out
}

/// A minimal TrueType font with `units_per_em`, hhea ascent / descent,
/// and a cmap for `first..=last`.
fn font(units_per_em: u16, ascent: i16, descent: i16, first: char, last: char) -> Vec<u8> {
    let glyphs = 4u16;
    let mut head = vec![0u8; 54];
    head[0..4].copy_from_slice(&0x0001_0000u32.to_be_bytes());
    head[12..16].copy_from_slice(&0x5F0F_3CF5u32.to_be_bytes());
    head[18..20].copy_from_slice(&be16(units_per_em));
    let mut hhea = vec![0u8; 36];
    hhea[0..4].copy_from_slice(&0x0001_0000u32.to_be_bytes());
    hhea[4..6].copy_from_slice(&ascent.to_be_bytes());
    hhea[6..8].copy_from_slice(&descent.to_be_bytes());
    hhea[34..36].copy_from_slice(&be16(1));
    let mut maxp = vec![0u8; 6];
    maxp[0..4].copy_from_slice(&0x0000_5000u32.to_be_bytes());
    maxp[4..6].copy_from_slice(&be16(glyphs));
    let mut name = vec![0u8; 6];
    name[4..6].copy_from_slice(&be16(6));
    let mut hmtx = vec![0u8; 4];
    hmtx.extend_from_slice(&vec![0u8; 2 * (glyphs as usize - 1)]);
    let loca = vec![0u8; 2 * (glyphs as usize + 1)];
    sfnt(&[
        (b"head", head),
        (b"hhea", hhea),
        (b"maxp", maxp),
        (b"cmap", cmap(first, last)),
        (b"name", name),
        (b"hmtx", hmtx),
        (b"loca", loca),
        (b"glyf", vec![0u8; 2]),
    ])
}

#[test]
fn ttf_face_keeps_its_metrics_and_id() {
    let face = Face::from_ttf_bytes(font(2048, 1800, -400, 'A', 'C'), 7).expect("parses");
    assert_eq!(face.kind(), FaceKind::Ttf);
    assert_eq!(face.id(), 7);
    assert_eq!(face.units_per_em(), 2048);
    assert_eq!(face.vertical_metrics(), (1800, -400, 0));
    assert_eq!(face.weight_class(), 400);
    assert_eq!(face.family_name(), None);
    assert_eq!(face.subfont_index(), None);
    assert_eq!(face.glyph_index('B').expect("ttf face"), Some(2));
    assert_eq!(face.glyph_index('z').expect("ttf face").unwrap_or(0), 0);
}

#[test]
fn rejected_bytes_give_the_parsers_error() {
    assert!(matches!(Face::from_ttf_bytes(b"not a font".to_vec(), 1), Err(FontError::Ttf(_))));
    assert!(matches!(Face::from_ttc_bytes(b"not a font".to_vec(), 0, 1), Err(FontError::Ttf(_))));
    assert!(matches!(Face::from_otf_bytes(b"not a font".to_vec(), 1), Err(FontError::Otf(_))));
}

#[test]
fn chain_falls_back_to_the_first_face_with_a_glyph() {
    let latin = Face::from_ttf_bytes(font(1000, 800, -200, 'A', 'C'), 1).expect("parses");
    let other = Face::from_ttf_bytes(font(1000, 800, -200, 'x', 'z'), 2).expect("parses");
    let chain = FaceChain::new(latin).push_fallback(other);
    assert_eq!(chain.len(), 2);
    assert!(!chain.is_empty());
    assert_eq!(chain.primary().id(), 1);
    assert_eq!(chain.face(1).id(), 2);
    let shaped: Vec<char> = "Ay?".chars().collect();
    let got = chain.assign_codepoints(&shaped, &shaped).expect("faces read");
    assert_eq!(got, vec![(0, 1), (1, 2), (0, 0)]);
}

#[test]
fn substituted_char_retries_with_the_original() {
    let latin = Face::from_ttf_bytes(font(1000, 800, -200, 'A', 'C'), 1).expect("parses");
    let chain = FaceChain::new(latin);
    let got = chain.assign_codepoints(&['q', 'q'], &['C', 'q']).expect("faces read");
    assert_eq!(got, vec![(0, 3), (0, 0)]);
}

#[test]
fn pick_glyph_takes_the_first_real_glyph() {
    assert_eq!(pick_glyph(&[None, Some(0), Some(5), Some(9)]), Some((2, 5)));
    assert_eq!(pick_glyph(&[None, Some(0)]), None);
    assert_eq!(pick_glyph(&[]), None);
}
