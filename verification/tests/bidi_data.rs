//! Tests of the bidi class lookup and the paired-bracket property.

use oxideav_scribe::bidi::class::class_lookup;
use oxideav_scribe::bidi::{paired_bracket, BidiClass, BracketKind};

/// Every paired bracket as (code point, partner, kind), in code point
/// order.
fn bracket_table() -> Vec<(u32, u32, BracketKind)> {
    let mut table = Vec::new();
    for cp in 0u32..0x11_0000 {
        if let Some(c) = char::from_u32(cp) {
            if let Some((p, k)) = paired_bracket(c) {
                table.push((cp, p as u32, k));
            }
        }
    }
    table
}

#[test]
fn class_lookup_matches_known_assignments() {
    assert_eq!(class_lookup('A' as u32), BidiClass::L);
    assert_eq!(class_lookup('\u{05D0}' as u32), BidiClass::R);
    assert_eq!(class_lookup('\u{0627}' as u32), BidiClass::AL);
    assert_eq!(class_lookup('5' as u32), BidiClass::EN);
    assert_eq!(class_lookup('\u{0660}' as u32), BidiClass::AN);
    assert_eq!(class_lookup('\u{0300}' as u32), BidiClass::NSM);
    assert_eq!(class_lookup(' ' as u32), BidiClass::WS);
    assert_eq!(class_lookup('(' as u32), BidiClass::ON);
    assert_eq!(class_lookup('\u{202A}' as u32), BidiClass::LRE);
    assert_eq!(class_lookup('\u{2067}' as u32), BidiClass::RLI);
    assert_eq!(class_lookup('\u{2069}' as u32), BidiClass::PDI);
    assert_eq!(class_lookup(0x05EB), BidiClass::R);
}

#[test]
fn mirror_lookup_is_an_involution_for_brackets() {
    for (cp, paired, _) in bracket_table() {
        let c = char::from_u32(cp).expect("valid scalar");
        let p = char::from_u32(paired).expect("valid scalar");
        assert_eq!(intl::unicode::bidi_mirror(c), Some(p), "U+{cp:04X} bmg");
        assert_eq!(intl::unicode::bidi_mirror(p), Some(c), "U+{cp:04X} not an involution");
    }
}

#[test]
fn bracket_table_pairs_open_with_close() {
    let table = bracket_table();
    assert_eq!(table.len(), 128);
    let opens = table.iter().filter(|&&(_, _, k)| k == BracketKind::Open).count();
    assert_eq!(opens, 64);
    for (cp, paired, kind) in table {
        let c = char::from_u32(cp).expect("valid scalar");
        let p = char::from_u32(paired).expect("valid scalar");
        let (back, back_kind) = paired_bracket(p).expect("paired entry present");
        assert_eq!(back, c, "U+{cp:04X} paired-bracket not symmetric");
        let expected_back_kind = match kind {
            BracketKind::Open => BracketKind::Close,
            BracketKind::Close => BracketKind::Open,
        };
        assert_eq!(back_kind, expected_back_kind);
    }
}

#[test]
fn every_paired_bracket_is_on_and_mirrored() {
    for (cp, paired, _) in bracket_table() {
        let c = char::from_u32(cp).expect("valid scalar");
        let p = char::from_u32(paired).expect("valid scalar");
        assert_eq!(class_lookup(cp), BidiClass::ON, "U+{cp:04X} class");
        assert_eq!(intl::unicode::bidi_mirror(c), Some(p), "U+{cp:04X} bmg");
    }
}

#[test]
fn ascii_brackets_pair_with_their_partners() {
    assert_eq!(paired_bracket('('), Some((')', BracketKind::Open)));
    assert_eq!(paired_bracket(')'), Some(('(', BracketKind::Close)));
    assert_eq!(paired_bracket('['), Some((']', BracketKind::Open)));
    assert_eq!(paired_bracket('}'), Some(('{', BracketKind::Close)));
    assert_eq!(paired_bracket('\u{2329}'), Some(('\u{232A}', BracketKind::Open)));
    // Mirrored but not a bracket, and not mirrored at all.
    assert_eq!(paired_bracket('<'), None);
    assert_eq!(paired_bracket('a'), None);
}
