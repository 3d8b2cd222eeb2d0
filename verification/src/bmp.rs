//! Decoder for 4-bit indexed Windows bitmaps holding a single 5x7 glyph.
//!
//! The fixed-layout binary structures (file header, info header, palette
//! entries) are parsed by explicit byte offsets with little-endian field
//! widths, never through host struct layout. The palette is parsed but never
//! consulted for pixel decisions: a pixel is lit exactly when its 4-bit
//! palette index is zero.

use vstd::prelude::*;

use crate::grid::GRID_HEIGHT;
use crate::grid::GRID_WIDTH;
use crate::grid::Pixel;
use crate::grid::PixelGrid;

verus! {

/// Byte length of the bitmap file header.
pub const FILE_HEADER_BYTES: usize = 14;

/// Byte length of the bitmap info header.
pub const INFO_HEADER_BYTES: usize = 40;

/// Byte length of one palette entry (blue, green, red, reserved).
pub const PALETTE_ENTRY_BYTES: usize = 4;

/// A 4-bit indexed bitmap always carries exactly 16 palette entries.
pub const PALETTE_ENTRY_COUNT: usize = 16;

/// Offset of the first palette entry: right after the two headers.
pub const PALETTE_OFFSET: usize = FILE_HEADER_BYTES + INFO_HEADER_BYTES;

/// Offset of the pixel array: headers, then the full 16-entry palette.
pub const IMAGE_DATA_OFFSET: usize = FILE_HEADER_BYTES + INFO_HEADER_BYTES + PALETTE_ENTRY_COUNT
    * PALETTE_ENTRY_BYTES;

/// Rows are padded to a 4-byte boundary; for a 5-pixel, 4-bit row the stride
/// is one word: three data bytes and one padding byte.
pub const ROW_STRIDE_BYTES: usize = 4;

/// The two-byte `BM` signature as a little-endian word: 'B', then 'M'.
pub const BM_SIGNATURE: u16 = 0x4d42;

/// A little-endian 16-bit field at byte offset `i`.
pub open spec fn le16_at(s: Seq<u8>, i: int) -> u16
    recommends
        0 <= i,
        i + 2 <= s.len(),
{
    (s[i] + s[i + 1] * 0x100) as u16
}

/// A little-endian 32-bit field at byte offset `i`.
pub open spec fn le32_at(s: Seq<u8>, i: int) -> u32
    recommends
        0 <= i,
        i + 4 <= s.len(),
{
    (s[i] + s[i + 1] * 0x100 + s[i + 2] * 0x10000 + s[i + 3] * 0x1000000) as u32
}

/// Read a little-endian 16-bit field from the buffer.
fn read_le16(bytes: &Vec<u8>, off: usize) -> (r: u16)
    requires
        off + 2 <= bytes.len(),
    ensures
        r == le16_at(bytes@, off as int),
{
    let lo = bytes[off] as u16;
    let hi = bytes[off + 1] as u16;
    lo + hi * 0x100
}

/// Read a little-endian 32-bit field from the buffer.
fn read_le32(bytes: &Vec<u8>, off: usize) -> (r: u32)
    requires
        off + 4 <= bytes.len(),
    ensures
        r == le32_at(bytes@, off as int),
{
    let b0 = bytes[off] as u32;
    let b1 = bytes[off + 1] as u32;
    let b2 = bytes[off + 2] as u32;
    let b3 = bytes[off + 3] as u32;
    b0 + b1 * 0x100 + b2 * 0x10000 + b3 * 0x1000000
}

/// The bitmap file header: signature, total file size, pixel-data offset.
#[derive(Clone, Copy, PartialEq, Eq, Structural, Debug)]
pub struct BitmapHeader {
    pub format: u16,
    pub size: u32,
    pub unused: u32,
    pub offset: u32,
}

impl BitmapHeader {
    /// The header fields as laid out in the first 14 bytes of the file.
    pub open spec fn spec_parse(s: Seq<u8>) -> BitmapHeader {
        BitmapHeader {
            format: le16_at(s, 0),
            size: le32_at(s, 2),
            unused: le32_at(s, 6),
            offset: le32_at(s, 10),
        }
    }

    /// Parse the file header from the start of the buffer.
    pub fn parse(bytes: &Vec<u8>) -> (h: BitmapHeader)
        requires
            bytes@.len() >= FILE_HEADER_BYTES,
        ensures
            h == BitmapHeader::spec_parse(bytes@),
    {
        BitmapHeader {
            format: read_le16(bytes, 0),
            size: read_le32(bytes, 2),
            unused: read_le32(bytes, 6),
            offset: read_le32(bytes, 10),
        }
    }
}

/// The bitmap info header: geometry, color depth and image statistics.
#[derive(Clone, Copy, PartialEq, Eq, Structural, Debug)]
pub struct BitmapInfoHeader {
    pub size: u32,
    pub width: u32,
    pub height: u32,
    pub planes: u16,
    pub bits: u16,
    pub compression: u32,
    pub image_size: u32,
    pub xppm: u32,
    pub yppm: u32,
    pub colors_used: u32,
    pub colors_important: u32,
}

impl BitmapInfoHeader {
    /// The info header fields as laid out right after the file header.
    pub open spec fn spec_parse(s: Seq<u8>) -> BitmapInfoHeader {
        BitmapInfoHeader {
            size: le32_at(s, 14),
            width: le32_at(s, 18),
            height: le32_at(s, 22),
            planes: le16_at(s, 26),
            bits: le16_at(s, 28),
            compression: le32_at(s, 30),
            image_size: le32_at(s, 34),
            xppm: le32_at(s, 38),
            yppm: le32_at(s, 42),
            colors_used: le32_at(s, 46),
            colors_important: le32_at(s, 50),
        }
    }

    /// Parse the info header from its fixed position in the buffer.
    pub fn parse(bytes: &Vec<u8>) -> (h: BitmapInfoHeader)
        requires
            bytes@.len() >= FILE_HEADER_BYTES + INFO_HEADER_BYTES,
        ensures
            h == BitmapInfoHeader::spec_parse(bytes@),
    {
        BitmapInfoHeader {
            size: read_le32(bytes, 14),
            width: read_le32(bytes, 18),
            height: read_le32(bytes, 22),
            planes: read_le16(bytes, 26),
            bits: read_le16(bytes, 28),
            compression: read_le32(bytes, 30),
            image_size: read_le32(bytes, 34),
            xppm: read_le32(bytes, 38),
            yppm: read_le32(bytes, 42),
            colors_used: read_le32(bytes, 46),
            colors_important: read_le32(bytes, 50),
        }
    }
}

/// One palette entry: blue, green, red and a reserved byte, in file order.
#[derive(Clone, Copy, PartialEq, Eq, Structural, Debug)]
pub struct BitmapPaletteColor {
    pub blue: u8,
    pub green: u8,
    pub red: u8,
    pub reserved: u8,
}

impl BitmapPaletteColor {
    /// Palette entry `index` as laid out after the two headers.
    pub open spec fn spec_parse(s: Seq<u8>, index: int) -> BitmapPaletteColor {
        let base = PALETTE_OFFSET + index * PALETTE_ENTRY_BYTES;
        BitmapPaletteColor {
            blue: s[base],
            green: s[base + 1],
            red: s[base + 2],
            reserved: s[base + 3],
        }
    }

    /// Parse one of the 16 palette entries. The palette is never consulted
    /// for pixel values; it is exposed only for inspection.
    pub fn parse(bytes: &Vec<u8>, index: usize) -> (c: BitmapPaletteColor)
        requires
            index < PALETTE_ENTRY_COUNT,
            bytes@.len() >= IMAGE_DATA_OFFSET,
        ensures
            c == BitmapPaletteColor::spec_parse(bytes@, index as int),
    {
        let base = PALETTE_OFFSET + index * PALETTE_ENTRY_BYTES;
        BitmapPaletteColor {
            blue: bytes[base],
            green: bytes[base + 1],
            red: bytes[base + 2],
            reserved: bytes[base + 3],
        }
    }
}

/// How a 4-bit palette index maps to an exported bit: index zero is a lit
/// pixel (bit 1), every other index is unlit (bit 0).
pub fn px_to_bit(px: u8) -> (bit: u32)
    ensures
        bit == (if px == 0 {
            1u32
        } else {
            0u32
        }),
{
    if px == 0 {
        1
    } else {
        0
    }
}

/// Why a buffer was rejected as a glyph source.
#[derive(Clone, Copy, PartialEq, Eq, Structural, Debug)]
pub enum FormatError {
    /// The signature word is not `BM`; holds the word found.
    NotBitmap(u16),
    /// The image is not 5x7; holds the width and height found.
    UnsupportedGeometry(u32, u32),
    /// The color depth is not 4 bits per pixel; holds the depth found.
    UnsupportedDepth(u16),
}

/// The two failure kinds of a decode: a truncated source, or a well-read
/// source in an unsupported format.
#[derive(Clone, Copy, PartialEq, Eq, Structural, Debug)]
pub enum DecodeError {
    /// The buffer ends before the structure it should hold.
    IoError,
    /// The buffer is complete but not a supported bitmap.
    Format(FormatError),
}

/// The buffer holds a complete file header.
pub open spec fn has_file_header(s: Seq<u8>) -> bool {
    s.len() >= FILE_HEADER_BYTES
}

/// The signature word equals `BM`.
pub open spec fn signature_ok(s: Seq<u8>) -> bool {
    le16_at(s, 0) == BM_SIGNATURE
}

/// The buffer holds a complete info header as well.
pub open spec fn has_info_header(s: Seq<u8>) -> bool {
    s.len() >= FILE_HEADER_BYTES + INFO_HEADER_BYTES
}

/// The declared geometry is exactly 5x7.
pub open spec fn geometry_ok(s: Seq<u8>) -> bool {
    le32_at(s, 18) == GRID_WIDTH && le32_at(s, 22) == GRID_HEIGHT
}

/// The declared depth is exactly 4 bits per pixel.
pub open spec fn depth_ok(s: Seq<u8>) -> bool {
    le16_at(s, 28) == 4
}

/// The declared file size covers the palette and all seven padded rows, and
/// the buffer really holds that many bytes; anything less is a short read.
pub open spec fn pixel_data_ok(s: Seq<u8>) -> bool {
    &&& le32_at(s, 2) >= IMAGE_DATA_OFFSET + GRID_HEIGHT * ROW_STRIDE_BYTES
    &&& s.len() >= le32_at(s, 2)
}

/// A buffer decodes successfully exactly when every check passes.
pub open spec fn decode_ok(s: Seq<u8>) -> bool {
    &&& has_file_header(s)
    &&& signature_ok(s)
    &&& has_info_header(s)
    &&& geometry_ok(s)
    &&& depth_ok(s)
    &&& pixel_data_ok(s)
}

/// The error a failing decode reports, following the checks in order:
/// signature, then geometry, then depth; a truncated buffer at any stage is a
/// short read.
pub open spec fn decode_err(s: Seq<u8>) -> DecodeError {
    if !has_file_header(s) {
        DecodeError::IoError
    } else if !signature_ok(s) {
        DecodeError::Format(FormatError::NotBitmap(le16_at(s, 0)))
    } else if !has_info_header(s) {
        DecodeError::IoError
    } else if !geometry_ok(s) {
        DecodeError::Format(FormatError::UnsupportedGeometry(le32_at(s, 18), le32_at(s, 22)))
    } else if !depth_ok(s) {
        DecodeError::Format(FormatError::UnsupportedDepth(le16_at(s, 28)))
    } else {
        DecodeError::IoError
    }
}

/// The pixel-array byte holding columns `2k` and `2k+1` of visual row `y`.
/// Rows are stored bottom-up, so visual row `y` lives in stored row
/// `GRID_HEIGHT - 1 - y`.
pub open spec fn stored_byte(s: Seq<u8>, y: int, k: int) -> u8 {
    s[IMAGE_DATA_OFFSET + (GRID_HEIGHT - 1 - y) * ROW_STRIDE_BYTES + k]
}

/// The masked nibble for column `x` of visual row `y`: even columns sit in
/// the high nibble, odd columns in the low nibble.
pub open spec fn nibble_at(s: Seq<u8>, x: int, y: int) -> u8 {
    if x % 2 == 0 {
        stored_byte(s, y, x / 2) & 0xF0
    } else {
        stored_byte(s, y, x / 2) & 0x0F
    }
}

/// The decoded pixel: a zero palette index is lit, anything else unlit.
pub open spec fn decoded_pixel(s: Seq<u8>, x: int, y: int) -> Pixel {
    if nibble_at(s, x, y) == 0 {
        Pixel::Lit
    } else {
        Pixel::Unlit
    }
}

/// The full grid a valid buffer decodes to.
pub open spec fn decoded_grid(s: Seq<u8>) -> Seq<Seq<Pixel>> {
    Seq::new(GRID_HEIGHT as nat, |y: int| Seq::new(GRID_WIDTH as nat, |x: int| decoded_pixel(s, x, y)))
}

/// Decode a complete bitmap file image into a glyph grid.
///
/// Succeeds exactly on buffers that pass every check; on failure it reports
/// the first failing check, with format checks in signature, geometry, depth
/// order and truncation as a short read.
pub fn decode(bytes: &Vec<u8>) -> (r: Result<PixelGrid, DecodeError>)
    ensures
        r is Ok <==> decode_ok(bytes@),
        r matches Ok(g) ==> g.wf() && g@ == decoded_grid(bytes@),
        r matches Err(e) ==> e == decode_err(bytes@),
{
    if bytes.len() < FILE_HEADER_BYTES {
        return Err(DecodeError::IoError);
    }
    let header = BitmapHeader::parse(bytes);
    if header.format != BM_SIGNATURE {
        return Err(DecodeError::Format(FormatError::NotBitmap(header.format)));
    }
    if bytes.len() < FILE_HEADER_BYTES + INFO_HEADER_BYTES {
        return Err(DecodeError::IoError);
    }
    let info = BitmapInfoHeader::parse(bytes);
    if info.width != GRID_WIDTH as u32 || info.height != GRID_HEIGHT as u32 {
        return Err(DecodeError::Format(FormatError::UnsupportedGeometry(info.width, info.height)));
    }
    if info.bits != 4 {
        return Err(DecodeError::Format(FormatError::UnsupportedDepth(info.bits)));
    }
    let needed = IMAGE_DATA_OFFSET + GRID_HEIGHT * ROW_STRIDE_BYTES;
    if (header.size as usize) < needed || bytes.len() < header.size as usize {
        return Err(DecodeError::IoError);
    }

    let mut g = PixelGrid::new();
    let mut y: usize = 0;
    while y < GRID_HEIGHT
        invariant
            decode_ok(bytes@),
            y <= GRID_HEIGHT,
            g.wf(),
            forall|i: int, j: int|
                0 <= i < GRID_WIDTH && 0 <= j < y ==> #[trigger] g@[j][i] == decoded_pixel(
                    bytes@,
                    i,
                    j,
                ),
        decreases GRID_HEIGHT - y,
    {
        let stored_row = GRID_HEIGHT - 1 - y;
        let mut x: usize = 0;
        while x < GRID_WIDTH
            invariant
                decode_ok(bytes@),
                y < GRID_HEIGHT,
                stored_row == GRID_HEIGHT - 1 - y,
                x <= GRID_WIDTH,
                g.wf(),
                forall|i: int, j: int|
                    0 <= i < GRID_WIDTH && 0 <= j < y ==> #[trigger] g@[j][i] == decoded_pixel(
                        bytes@,
                        i,
                        j,
                    ),
                forall|i: int|
                    0 <= i < x ==> #[trigger] g@[y as int][i] == decoded_pixel(bytes@, i, y as int),
            decreases GRID_WIDTH - x,
        {
            let b = bytes[IMAGE_DATA_OFFSET + stored_row * ROW_STRIDE_BYTES + x / 2];
            let masked = if x % 2 == 0 {
                b & 0xF0
            } else {
                b & 0x0F
            };
            let p = if px_to_bit(masked) == 1 {
                Pixel::Lit
            } else {
                Pixel::Unlit
            };
            g.set(x, y, p);
            x = x + 1;
        }
        y = y + 1;
    }
    proof {
        assert(g@ =~~= decoded_grid(bytes@));
    }
    Ok(g)
}

} // verus!
