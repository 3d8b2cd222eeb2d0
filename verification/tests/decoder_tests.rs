use glyphgrid::Pixel;
use glyphgrid::bmp::decode;
use glyphgrid::bmp::px_to_bit;
use glyphgrid::bmp::BitmapHeader;
use glyphgrid::bmp::BitmapInfoHeader;
use glyphgrid::bmp::BitmapPaletteColor;
use glyphgrid::bmp::DecodeError;
use glyphgrid::bmp::FormatError;

fn push_u16(out: &mut Vec<u8>, v: u16) {
    out.push((v & 0xFF) as u8);
    out.push((v >> 8) as u8);
}

fn push_u32(out: &mut Vec<u8>, v: u32) {
    out.push((v & 0xFF) as u8);
    out.push(((v >> 8) & 0xFF) as u8);
    out.push(((v >> 16) & 0xFF) as u8);
    out.push(((v >> 24) & 0xFF) as u8);
}

/// A complete 146-byte bitmap: headers, 16-entry palette, seven padded rows.
/// `rows[k]` is the byte repeated over the three data bytes of stored row
/// `k` (stored bottom-up: row 0 is the visual bottom).
fn bmp_bytes(sig: u16, size: u32, width: u32, height: u32, bits: u16, rows: [u8; 7]) -> Vec<u8> {
    let mut out = Vec::new();
    push_u16(&mut out, sig);
    push_u32(&mut out, size);
    push_u32(&mut out, 0);
    push_u32(&mut out, 118);
    push_u32(&mut out, 40);
    push_u32(&mut out, width);
    push_u32(&mut out, height);
    push_u16(&mut out, 1);
    push_u16(&mut out, bits);
    push_u32(&mut out, 0);
    push_u32(&mut out, 28);
    push_u32(&mut out, 0);
    push_u32(&mut out, 0);
    push_u32(&mut out, 16);
    push_u32(&mut out, 0);
    for i in 0..16u8 {
        out.push(i);
        out.push(i);
        out.push(i);
        out.push(0);
    }
    for r in rows {
        out.push(r);
        out.push(r);
        out.push(r);
        out.push(0);
    }
    out
}

const BM: u16 = 0x4d42;

fn expect_err(r: Result<glyphgrid::PixelGrid, DecodeError>) -> DecodeError {
    match r {
        Err(e) => e,
        Ok(_) => panic!("expected an error"),
    }
}

fn expect_ok(r: Result<glyphgrid::PixelGrid, DecodeError>) -> glyphgrid::PixelGrid {
    match r {
        Ok(g) => g,
        Err(e) => panic!("expected a grid, got {:?}", e),
    }
}


#[test]
fn decode_rejects_wrong_signature() {
    let bytes = bmp_bytes(0x4241, 146, 5, 7, 4, [0; 7]);
    assert_eq!(expect_err(decode(&bytes)), DecodeError::Format(FormatError::NotBitmap(0x4241)));
}

#[test]
fn decode_checks_signature_before_geometry() {
    let bytes = bmp_bytes(0x0000, 146, 9, 9, 8, [0; 7]);
    assert_eq!(expect_err(decode(&bytes)), DecodeError::Format(FormatError::NotBitmap(0)));
}

#[test]
fn decode_rejects_wrong_width() {
    let bytes = bmp_bytes(BM, 146, 6, 7, 4, [0; 7]);
    assert_eq!(expect_err(decode(&bytes)), DecodeError::Format(FormatError::UnsupportedGeometry(6, 7)));
}

#[test]
fn decode_rejects_wrong_height() {
    let bytes = bmp_bytes(BM, 146, 5, 8, 4, [0; 7]);
    assert_eq!(expect_err(decode(&bytes)), DecodeError::Format(FormatError::UnsupportedGeometry(5, 8)));
}

#[test]
fn decode_rejects_wrong_depth() {
    let bytes = bmp_bytes(BM, 146, 5, 7, 8, [0; 7]);
    assert_eq!(expect_err(decode(&bytes)), DecodeError::Format(FormatError::UnsupportedDepth(8)));
}

#[test]
fn decode_geometry_checked_before_depth() {
    let bytes = bmp_bytes(BM, 146, 4, 7, 8, [0; 7]);
    assert_eq!(expect_err(decode(&bytes)), DecodeError::Format(FormatError::UnsupportedGeometry(4, 7)));
}

#[test]
fn decode_short_buffer_is_io_error() {
    let bytes = vec![0x42, 0x4d, 0x00];
    assert_eq!(expect_err(decode(&bytes)), DecodeError::IoError);
}

#[test]
fn decode_truncated_info_header_is_io_error() {
    let mut bytes = bmp_bytes(BM, 146, 5, 7, 4, [0; 7]);
    bytes.truncate(40);
    assert_eq!(expect_err(decode(&bytes)), DecodeError::IoError);
}

#[test]
fn decode_declared_size_too_small_is_io_error() {
    let bytes = bmp_bytes(BM, 100, 5, 7, 4, [0; 7]);
    assert_eq!(expect_err(decode(&bytes)), DecodeError::IoError);
}

#[test]
fn decode_buffer_shorter_than_declared_is_io_error() {
    let mut bytes = bmp_bytes(BM, 146, 5, 7, 4, [0; 7]);
    bytes.truncate(140);
    assert_eq!(expect_err(decode(&bytes)), DecodeError::IoError);
}

#[test]
fn decode_all_zero_nibbles_is_all_lit() {
    let bytes = bmp_bytes(BM, 146, 5, 7, 4, [0; 7]);
    let g = expect_ok(decode(&bytes));
    for y in 0..7 {
        for x in 0..5 {
            assert_eq!(g.get(x, y), Pixel::Lit);
        }
    }
}

#[test]
fn decode_checkerboard_scenario() {
    // Stored rows bottom-up: even stored rows all-zero nibbles (fully lit),
    // odd stored rows 0xF0 bytes (high nibble set, low nibble zero).
    let bytes = bmp_bytes(BM, 146, 5, 7, 4, [0x00, 0xF0, 0x00, 0xF0, 0x00, 0xF0, 0x00]);
    let g = expect_ok(decode(&bytes));
    // Visual row y reads stored row 6 - y. Even visual rows come from even
    // stored rows: all lit. Odd visual rows come from 0xF0 rows: even
    // columns sit in a 0xF. high nibble (unlit), odd columns in a zero low
    // nibble (lit).
    for y in 0..7 {
        for x in 0..5 {
            let expected = if y % 2 == 0 {
                Pixel::Lit
            } else if x % 2 == 0 {
                Pixel::Unlit
            } else {
                Pixel::Lit
            };
            assert_eq!(g.get(x, y), expected, "at ({}, {})", x, y);
        }
    }
}

#[test]
fn decode_inverts_row_order() {
    // Only stored row 0 (the visual bottom) has nonzero nibbles.
    let bytes = bmp_bytes(BM, 146, 5, 7, 4, [0xFF, 0x00, 0x00, 0x00, 0x00, 0x00, 0x00]);
    let g = expect_ok(decode(&bytes));
    for x in 0..5 {
        assert_eq!(g.get(x, 6), Pixel::Unlit);
        assert_eq!(g.get(x, 0), Pixel::Lit);
    }
}

#[test]
fn decode_splits_nibbles_left_to_right() {
    // 0x0F everywhere: high nibble zero (even columns lit), low nibble set
    // (odd columns unlit).
    let bytes = bmp_bytes(BM, 146, 5, 7, 4, [0x0F; 7]);
    let g = expect_ok(decode(&bytes));
    for y in 0..7 {
        for x in 0..5 {
            let expected = if x % 2 == 0 { Pixel::Lit } else { Pixel::Unlit };
            assert_eq!(g.get(x, y), expected, "at ({}, {})", x, y);
        }
    }
}

#[test]
fn px_to_bit_maps_zero_to_one() {
    assert_eq!(px_to_bit(0), 1);
}

#[test]
fn px_to_bit_maps_nonzero_to_zero() {
    assert_eq!(px_to_bit(0xF0), 0);
    assert_eq!(px_to_bit(0x01), 0);
    assert_eq!(px_to_bit(0xFF), 0);
}

#[test]
fn header_parse_reads_little_endian_fields() {
    let bytes = bmp_bytes(BM, 146, 5, 7, 4, [0; 7]);
    let h = BitmapHeader::parse(&bytes);
    assert_eq!(h.format, 0x4d42);
    assert_eq!(h.size, 146);
    assert_eq!(h.unused, 0);
    assert_eq!(h.offset, 118);
}

#[test]
fn info_header_parse_reads_fields() {
    let bytes = bmp_bytes(BM, 146, 5, 7, 4, [0; 7]);
    let h = BitmapInfoHeader::parse(&bytes);
    assert_eq!(h.size, 40);
    assert_eq!(h.width, 5);
    assert_eq!(h.height, 7);
    assert_eq!(h.planes, 1);
    assert_eq!(h.bits, 4);
    assert_eq!(h.compression, 0);
    assert_eq!(h.image_size, 28);
    assert_eq!(h.colors_used, 16);
    assert_eq!(h.colors_important, 0);
}

#[test]
fn palette_parse_reads_entry() {
    let bytes = bmp_bytes(BM, 146, 5, 7, 4, [0; 7]);
    let c = BitmapPaletteColor::parse(&bytes, 3);
    assert_eq!(c.blue, 3);
    assert_eq!(c.green, 3);
    assert_eq!(c.red, 3);
    assert_eq!(c.reserved, 0);
}
