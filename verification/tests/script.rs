//! Tests of the Unicode script → OpenType tag mapping.

use oxideav_scribe::script::{ot_script_tag, ot_script_tags, Script};

#[test]
fn latin_maps_to_latn() {
    assert_eq!(ot_script_tag(Script::Latin), *b"latn");
    assert_eq!(ot_script_tags(Script::Latin), &[*b"latn"]);
}

#[test]
fn indic_scripts_return_modern_then_legacy() {
    assert_eq!(ot_script_tags(Script::Devanagari), &[*b"dev2", *b"deva"]);
    assert_eq!(ot_script_tags(Script::Bengali), &[*b"bng2", *b"beng"]);
    assert_eq!(ot_script_tags(Script::Tamil), &[*b"tml2", *b"taml"]);
    assert_eq!(ot_script_tags(Script::Myanmar), &[*b"mym2", *b"mymr"]);
    // Primary tag is the modern one.
    assert_eq!(ot_script_tag(Script::Devanagari), *b"dev2");
}

#[test]
fn space_padded_tags_keep_the_pad() {
    assert_eq!(ot_script_tag(Script::Lao), *b"lao ");
    assert_eq!(ot_script_tag(Script::Nko), *b"nko ");
    assert_eq!(ot_script_tag(Script::Yi), *b"yi  ");
    assert_eq!(ot_script_tag(Script::Vai), *b"vai ");
}

#[test]
fn cjk_kana_share_one_tag() {
    assert_eq!(ot_script_tag(Script::Han), *b"hani");
    assert_eq!(ot_script_tag(Script::Hiragana), *b"kana");
    assert_eq!(ot_script_tag(Script::Katakana), *b"kana");
}

#[test]
fn common_inherited_unknown_are_default() {
    assert_eq!(ot_script_tag(Script::Common), *b"DFLT");
    assert_eq!(ot_script_tag(Script::Inherited), *b"DFLT");
    assert_eq!(ot_script_tag(Script::Unknown), *b"DFLT");
}

#[test]
fn script_indices_follow_the_intl_order() {
    for c in ['a', '\u{05D0}', '\u{0915}', '\u{4E16}', '1', '\u{0301}'] {
        let s = intl::unicode::script::script(c);
        let mine = Script::from_index(s as u8).expect("every intl script has an index");
        assert_eq!(format!("{mine:?}"), format!("{s:?}"));
    }
    assert_eq!(Script::from_index(255), None);
}
