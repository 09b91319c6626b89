//! Tests of decoding CBDT PNG payloads to RGBA bitmaps.

use oxideav_scribe::color_glyph::{color_bitmap_from_frame, decode_color_bitmap};

fn crc32(bytes: &[u8]) -> u32 {
    let mut crc: u32 = 0xFFFF_FFFF;
    for &b in bytes {
        crc ^= b as u32;
        for _ in 0..8 {
            let mask = (crc & 1).wrapping_neg();
            crc = (crc >> 1) ^ (0xEDB8_8320 & mask);
        }
    }
    !crc
}

fn adler32(bytes: &[u8]) -> u32 {
    let (mut a, mut b) = (1u32, 0u32);
    for &x in bytes {
        a = (a + x as u32) % 65521;
        b = (b + a) % 65521;
    }
    (b << 16) | a
}

fn chunk(out: &mut Vec<u8>, tag: &[u8; 4], body: &[u8]) {
    out.extend_from_slice(&(body.len() as u32).to_be_bytes());
    let mut crc_input = tag.to_vec();
    crc_input.extend_from_slice(body);
    out.extend_from_slice(tag);
    out.extend_from_slice(body);
    out.extend_from_slice(&crc32(&crc_input).to_be_bytes());
}

/// A PNG of `w × h` pixels of colour type `color_type` (8-bit) whose
/// rows are `rows` (without filter bytes), with optional PLTE / tRNS.
fn png(w: u32, h: u32, color_type: u8, rows: &[Vec<u8>], plte: Option<&[u8]>, trns: Option<&[u8]>) -> Vec<u8> {
    let mut out = vec![0x89, b'P', b'N', b'G', 0x0D, 0x0A, 0x1A, 0x0A];
    let mut ihdr = Vec::new();
    ihdr.extend_from_slice(&w.to_be_bytes());
    ihdr.extend_from_slice(&h.to_be_bytes());
    ihdr.extend_from_slice(&[8, color_type, 0, 0, 0]);
    chunk(&mut out, b"IHDR", &ihdr);
    if let Some(p) = plte {
        chunk(&mut out, b"PLTE", p);
    }
    if let Some(t) = trns {
        chunk(&mut out, b"tRNS", t);
    }
    let mut raw = Vec::new();
    for r in rows {
        raw.push(0);
        raw.extend_from_slice(r);
    }
    let mut z = vec![0x78, 0x01, 0x01];
    z.extend_from_slice(&(raw.len() as u16).to_le_bytes());
    z.extend_from_slice(&(!(raw.len() as u16)).to_le_bytes());
    z.extend_from_slice(&raw);
    z.extend_from_slice(&adler32(&raw).to_be_bytes());
    chunk(&mut out, b"IDAT", &z);
    chunk(&mut out, b"IEND", &[]);
    out
}

#[test]
fn rgba_png_decodes_to_its_pixels() {
    let bytes = png(2, 1, 6, &[vec![255, 0, 0, 255, 0, 0, 255, 128]], None, None);
    let bm = decode_color_bitmap(&bytes).expect("decodes");
    assert_eq!((bm.width, bm.height), (2, 1));
    assert_eq!(bm.get(0, 0), [255, 0, 0, 255]);
    assert_eq!(bm.get(1, 0), [0, 0, 255, 128]);
}

#[test]
fn palette_png_decodes_through_its_palette() {
    let plte = [10u8, 20, 30, 200, 100, 50];
    let trns = [0u8];
    let bytes = png(2, 1, 3, &[vec![1, 0]], Some(&plte), Some(&trns));
    let bm = decode_color_bitmap(&bytes).expect("decodes");
    assert_eq!((bm.width, bm.height), (2, 1));
    assert_eq!(bm.get(0, 0), [200, 100, 50, 255]);
    assert_eq!(bm.get(1, 0), [10, 20, 30, 0]);
}

#[test]
fn garbage_payload_decodes_to_none() {
    assert!(decode_color_bitmap(b"not a png").is_none());
    assert!(decode_color_bitmap(&[]).is_none());
}

#[test]
fn missing_frame_gives_no_bitmap() {
    let bytes = png(1, 1, 6, &[vec![1, 2, 3, 4]], None, None);
    assert!(color_bitmap_from_frame(None, &bytes).is_none());
}
