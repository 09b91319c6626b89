//! Concrete instances of the library's laws.

use oxideav_scribe::bidi::{isolating_run_sequences, paired_bracket, resolve_explicit_levels, BidiClass, BracketKind};
use oxideav_scribe::cache::{GlyphCache, GlyphKey, DEFAULT_CAPACITY, SUBPIXEL_STEPS};
use oxideav_scribe::rasterizer::AlphaBitmap;

#[test]
fn runs_of_an_isolating_sequence_share_its_level() {
    // "a RLI b PDI c": the isolate's content is one level up; the runs
    // before and after it form one sequence at the paragraph level.
    let cls = [BidiClass::L, BidiClass::RLI, BidiClass::R, BidiClass::PDI, BidiClass::L];
    let explicit = resolve_explicit_levels(&cls, 0);
    assert_eq!(explicit.levels, vec![0, 0, 1, 0, 0]);
    let seqs = isolating_run_sequences(&cls, &explicit, 0);
    assert_eq!(seqs.len(), 2);
    for s in &seqs {
        for r in &s.runs {
            assert_eq!(r.level, s.level);
        }
    }
    assert_eq!(seqs[0].runs.len(), 2);
    assert_eq!(seqs[0].level, 0);
    assert_eq!(seqs[1].level, 1);
}

#[test]
fn matched_pdi_takes_its_initiators_level_even_when_nested() {
    // LRE raises the level inside the isolate; the PDI still returns
    // to the initiator's level.
    let cls = [
        BidiClass::R,
        BidiClass::LRI,
        BidiClass::LRE,
        BidiClass::L,
        BidiClass::PDF,
        BidiClass::L,
        BidiClass::PDI,
        BidiClass::R,
    ];
    let explicit = resolve_explicit_levels(&cls, 1);
    assert_eq!(explicit.levels[1], explicit.levels[6]);
    let seqs = isolating_run_sequences(&cls, &explicit, 1);
    for s in &seqs {
        for r in &s.runs {
            assert_eq!(r.level, s.level);
        }
    }
}

#[test]
fn default_cache_is_empty_with_default_capacity() {
    let cache: GlyphCache<AlphaBitmap> = GlyphCache::default();
    assert_eq!(cache.capacity(), DEFAULT_CAPACITY);
    assert!(cache.is_empty());
    assert_eq!((cache.hits(), cache.misses()), (0, 0));
}

#[test]
fn quantised_key_clamps_its_subpixel_slot() {
    let k = GlyphKey::from_quantised(7, 3, 4096, -12, 200);
    assert_eq!(k.x_subpixel_q4, SUBPIXEL_STEPS - 1);
    assert_eq!((k.face_id, k.glyph_id, k.size_q8, k.shear_q14), (7, 3, 4096, -12));
    let k = GlyphKey::from_quantised(7, 3, 4096, 0, 5);
    assert_eq!(k.x_subpixel_q4, 5);
}

#[test]
fn coverage_is_box_averaged_with_rounding() {
    // 2 × 1 glyph: pixel 0 has 4 of 4 cells set, pixel 1 has 1 of 4.
    let coverage = [1u8, 0, 1, 0, 1, 1, 1, 0];
    let bm = AlphaBitmap::from_coverage(2, 1, &coverage);
    assert_eq!((bm.width, bm.height), (2, 1));
    assert_eq!(bm.get(0, 0), 255);
    assert_eq!(bm.get(1, 0), 64); // (1 * 255 + 2) / 4
    let empty = AlphaBitmap::from_coverage(0, 3, &[]);
    assert!(empty.is_empty());
}

#[test]
fn unicode_white_space_splits_words() {
    let pieces = oxideav_scribe::layout::split_keeping_whitespace("a\u{3000}b\u{00A0}c\u{200B}d");
    // U+200B ZERO WIDTH SPACE is not White_Space; U+3000 and U+00A0 are.
    assert_eq!(pieces, vec!["a".to_string(), "\u{3000}b".to_string(), "\u{00A0}c\u{200B}d".to_string()]);
}

#[test]
fn paired_brackets_pair_back() {
    for c in ['(', ']', '\u{2329}', '\u{FF5B}', '\u{300B}'] {
        let (p, k) = paired_bracket(c).expect("a bracket");
        let back = match k {
            BracketKind::Open => BracketKind::Close,
            BracketKind::Close => BracketKind::Open,
        };
        assert_eq!(paired_bracket(p), Some((c, back)));
    }
}
