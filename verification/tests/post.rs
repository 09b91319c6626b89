//! Tests of the `post` table parser and glyph-name resolution.

use oxideav_scribe::post::{standard_mac_glyph_name, PostTable};

#[test]
fn standard_table_is_258_distinct_names() {
    let names: Vec<&str> = (0u16..258).map(|i| standard_mac_glyph_name(i).unwrap()).collect();
    assert_eq!(names.len(), 258);
    // Anchors from the spec table.
    assert_eq!(names[0], ".notdef");
    assert_eq!(names[1], ".null");
    assert_eq!(names[2], "nonmarkingreturn");
    assert_eq!(names[3], "space");
    assert_eq!(names[36], "A");
    assert_eq!(names[68], "a");
    assert_eq!(names[192], "fi");
    assert_eq!(names[193], "fl");
    assert_eq!(names[210], "apple");
    assert_eq!(names[257], "dcroat");

    // All names distinct.
    let mut seen = std::collections::HashSet::new();
    for n in names.iter() {
        assert!(seen.insert(*n), "duplicate name {n}");
    }
    assert_eq!(seen.len(), 258);
}

#[test]
fn standard_index_accessor_bounds() {
    assert_eq!(standard_mac_glyph_name(0), Some(".notdef"));
    assert_eq!(standard_mac_glyph_name(257), Some("dcroat"));
    assert_eq!(standard_mac_glyph_name(258), None);
    assert_eq!(standard_mac_glyph_name(u16::MAX), None);
}

/// Build a minimal 32-byte post header with the given version.
fn header(version: u32) -> Vec<u8> {
    let mut v = version.to_be_bytes().to_vec();
    v.extend(std::iter::repeat(0u8).take(28)); // pad to 32 bytes
    v
}

#[test]
fn format_1_0_uses_standard_ordering() {
    let t = PostTable::parse(&header(0x0001_0000)).unwrap();
    assert!(t.has_names());
    assert_eq!(t.glyph_name(0), Some(".notdef"));
    assert_eq!(t.glyph_name(36), Some("A"));
    assert_eq!(t.glyph_name(257), Some("dcroat"));
    // Beyond the standard 258 -> no name.
    assert_eq!(t.glyph_name(258), None);
    assert_eq!(t.glyph_name(1000), None);
}

#[test]
fn format_3_0_has_no_names() {
    let t = PostTable::parse(&header(0x0003_0000)).unwrap();
    assert!(!t.has_names());
    assert_eq!(t.glyph_name(0), None);
    assert_eq!(t.glyph_name(36), None);
}

#[test]
fn format_2_0_standard_and_custom() {
    // 3 glyphs:
    //   gid0 -> index 0   (.notdef, standard)
    //   gid1 -> index 258 (custom string #0)
    //   gid2 -> index 259 (custom string #1)
    let mut b = header(0x0002_0000);
    b.extend_from_slice(&3u16.to_be_bytes()); // numGlyphs
    b.extend_from_slice(&0u16.to_be_bytes());
    b.extend_from_slice(&258u16.to_be_bytes());
    b.extend_from_slice(&259u16.to_be_bytes());
    // stringData: two Pascal strings.
    b.push(5);
    b.extend_from_slice(b"hello");
    b.push(3);
    b.extend_from_slice(b"foo");

    let t = PostTable::parse(&b).unwrap();
    assert!(t.has_names());
    assert_eq!(t.glyph_name(0), Some(".notdef"));
    assert_eq!(t.glyph_name(1), Some("hello"));
    assert_eq!(t.glyph_name(2), Some("foo"));
    // No glyph 3.
    assert_eq!(t.glyph_name(3), None);
}

#[test]
fn format_2_0_dangling_custom_index_is_none() {
    // gid0 references custom string #0 but none are stored.
    let mut b = header(0x0002_0000);
    b.extend_from_slice(&1u16.to_be_bytes());
    b.extend_from_slice(&258u16.to_be_bytes());
    // No stringData.
    let t = PostTable::parse(&b).unwrap();
    assert_eq!(t.glyph_name(0), None);
}

#[test]
fn format_2_5_signed_delta() {
    // gid1,2,3 placed at standard indices 37,38,39 via delta +36
    // (Apple's worked example). gid0 -> +0 -> .notdef.
    let mut b = header(0x0002_8000);
    b.extend_from_slice(&4u16.to_be_bytes()); // numGlyphs
    b.push(0i8 as u8); // gid0 -> 0
    b.push(36i8 as u8); // gid1 -> 37
    b.push(36i8 as u8); // gid2 -> 38
    b.push(36i8 as u8); // gid3 -> 39
    let t = PostTable::parse(&b).unwrap();
    assert_eq!(t.glyph_name(0), Some(".notdef"));
    assert_eq!(t.glyph_name(1), Some("B")); // index 37
    assert_eq!(t.glyph_name(2), Some("C")); // index 38
    assert_eq!(t.glyph_name(3), Some("D")); // index 39
}

#[test]
fn format_2_5_negative_delta_and_out_of_range() {
    let mut b = header(0x0002_8000);
    b.extend_from_slice(&2u16.to_be_bytes());
    b.push((-1i8) as u8); // gid0 -> -1 -> out of range
    b.push(1i8 as u8); // gid1 -> 2 -> nonmarkingreturn
    let t = PostTable::parse(&b).unwrap();
    assert_eq!(t.glyph_name(0), None);
    assert_eq!(t.glyph_name(1), Some("nonmarkingreturn"));
}

#[test]
fn short_buffer_returns_none() {
    assert!(PostTable::parse(&[0, 1, 0]).is_none());
    // Exactly-32-byte format 2.0 with no numGlyphs body -> None.
    assert!(PostTable::parse(&header(0x0002_0000)).is_none());
}

#[test]
fn unknown_version_parses_as_no_names() {
    let t = PostTable::parse(&header(0x0004_0000)).unwrap();
    assert!(!t.has_names());
    assert_eq!(t.glyph_name(0), None);
}
