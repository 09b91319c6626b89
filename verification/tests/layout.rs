//! Tests of the visual line order (L1, L2, L4) and the word splitter.

use oxideav_scribe::layout::{reorder_line_visual, split_keeping_whitespace};

#[test]
fn split_keeping_whitespace_basic() {
    let v = split_keeping_whitespace("hello world foo");
    assert_eq!(v, vec!["hello", " world", " foo"]);
}

#[test]
fn split_keeping_whitespace_leading_trailing() {
    let v = split_keeping_whitespace("  hi");
    assert_eq!(v, vec!["  hi"]);
}

#[test]
fn empty_text_is_empty_lines() {
    // No face required for empty text.
    // Build a dummy by reusing the Face::from_ttf_bytes path on a
    // real fixture.
    // (No fixture in unit tests — run with the integration test
    // harness for the real measure-and-wrap path.)
}

#[test]
fn visual_ltr_is_identity() {
    let line = reorder_line_visual("abc", None);
    assert_eq!(line.base_level, 0);
    assert_eq!(line.to_visual_string(), "abc");
    assert_eq!(line.logical_to_visual, vec![0, 1, 2]);
    assert_eq!(line.visual_to_logical, vec![0, 1, 2]);
    assert_eq!(line.len(), 3);
    assert!(!line.is_empty());
}

#[test]
fn visual_empty_line() {
    let line = reorder_line_visual("", None);
    assert!(line.is_empty());
    assert_eq!(line.len(), 0);
    assert_eq!(line.to_visual_string(), "");
    assert!(line.logical_to_visual.is_empty());
    assert!(line.visual_to_logical.is_empty());
}

#[test]
fn visual_pure_rtl_reverses() {
    // Three Hebrew letters: a pure-RTL line resolves to base level
    // 1 and the visual order is the logical order reversed.
    let line = reorder_line_visual("\u{05D0}\u{05D1}\u{05D2}", None);
    assert_eq!(line.base_level, 1);
    // Visual = logical reversed.
    assert_eq!(line.logical_to_visual, vec![2, 1, 0]);
    assert_eq!(line.to_visual_string(), "\u{05D2}\u{05D1}\u{05D0}");
    // Inverse permutation is consistent with the forward one.
    for (vis_pos, &log_idx) in line.logical_to_visual.iter().enumerate() {
        assert_eq!(line.visual_to_logical[log_idx], vis_pos);
    }
}

#[test]
fn visual_permutation_is_a_bijection() {
    // Mixed Latin + Hebrew + digits + space: whatever the
    // reordering, the permutation must remain a bijection and the
    // two permutation vectors must invert each other.
    let line = reorder_line_visual("ab \u{05D0}\u{05D1}12", None);
    let n = line.len();
    let mut seen = vec![false; n];
    for &log_idx in &line.logical_to_visual {
        assert!(log_idx < n);
        assert!(!seen[log_idx], "permutation repeats index {log_idx}");
        seen[log_idx] = true;
    }
    assert!(seen.iter().all(|&b| b));
    for (vis_pos, &log_idx) in line.logical_to_visual.iter().enumerate() {
        assert_eq!(line.visual_to_logical[log_idx], vis_pos);
    }
}

#[test]
fn visual_base_level_override() {
    // Forcing base level 1 (RTL) on an all-Latin line flips it to
    // RTL: the line as a whole is laid out right-to-left even though
    // its strong characters are L.
    let ltr = reorder_line_visual("abc", Some(0));
    assert_eq!(ltr.base_level, 0);
    assert_eq!(ltr.to_visual_string(), "abc");

    let rtl = reorder_line_visual("abc", Some(1));
    assert_eq!(rtl.base_level, 1);
    // The Latin run is one level-2 LTR island inside the level-1
    // line, so within the run the characters keep their order.
    assert_eq!(rtl.to_visual_string(), "abc");
    // But the low-bit clamp accepts any odd value as RTL.
    let rtl2 = reorder_line_visual("abc", Some(3));
    assert_eq!(rtl2.base_level, 1);
}

#[test]
fn visual_l4_mirrors_rtl_bracket() {
    // A parenthesis inside a pure-RTL line resolves to an odd level
    // and L4 swaps it for its mirror glyph in the visual output.
    // Logical: he-alef '(' he-bet  ->  the '(' is at an odd level,
    // so the rendered glyph is the mirrored ')'.
    let line = reorder_line_visual("\u{05D0}(\u{05D1}", None);
    assert_eq!(line.base_level, 1);
    let s = line.to_visual_string();
    // The line is reversed and the bracket is mirrored: visual order
    // is bet, mirrored-'(' = ')', alef.
    assert!(
        s.contains(')'),
        "expected mirrored ')' in RTL line, got {s:?}"
    );
    assert!(!s.contains('('), "original '(' should have been mirrored");
}

#[test]
fn visual_ltr_bracket_not_mirrored() {
    // The same bracket in an LTR line stays unmirrored (even level).
    let line = reorder_line_visual("a(b)", None);
    assert_eq!(line.base_level, 0);
    assert_eq!(line.to_visual_string(), "a(b)");
}

#[test]
fn whitespace_splitting_agrees_with_char_is_whitespace() {
    for cp in 0u32..=0x3000 {
        if let Some(c) = char::from_u32(cp) {
            let text: String = ['a', c, 'b'].iter().collect();
            let pieces = split_keeping_whitespace(&text);
            if c.is_whitespace() {
                assert_eq!(pieces.len(), 2, "U+{cp:04X}");
            } else {
                assert_eq!(pieces.len(), 1, "U+{cp:04X}");
            }
        }
    }
}
