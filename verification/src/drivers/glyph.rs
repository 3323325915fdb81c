use vstd::prelude::*;

verus! {

/// Lower-case ASCII letters folded to their capitals; every other byte as it is.
pub open spec fn fold_case(byte: u8) -> u8 {
    if 0x61 <= byte <= 0x7a {
        (byte - 32) as u8
    } else {
        byte
    }
}

/// The rows of the 8x8 glyph of a byte, top row first; bit 7 of a row is its
/// leftmost pixel. Lower-case letters share the glyphs of their capitals, and
/// bytes without a glyph of their own show a box.
pub open spec fn glyph_rows(byte: u8) -> Seq<u8> {
    let b = fold_case(byte);
    if b == 0x20 {
        seq![0u8, 0, 0, 0, 0, 0, 0, 0]
    } else if b == 0x2d {
        seq![0u8, 0, 0, 0b0111_1110, 0, 0, 0, 0]
    } else if b == 0x2e {
        seq![0u8, 0, 0, 0, 0, 0, 0b0001_1000, 0]
    } else if b == 0x3a {
        seq![0u8, 0b0001_1000, 0b0001_1000, 0, 0, 0b0001_1000, 0b0001_1000, 0]
    } else if b == 0x30 {
        seq![0b0011_1100u8, 0b0110_0110, 0b0110_1110, 0b0111_0110, 0b0110_0110, 0b0110_0110, 0b0011_1100, 0]
    } else if b == 0x31 {
        seq![0b0001_1000u8, 0b0011_1000, 0b0001_1000, 0b0001_1000, 0b0001_1000, 0b0001_1000, 0b0111_1110, 0]
    } else if b == 0x32 {
        seq![0b0011_1100u8, 0b0110_0110, 0b0000_0110, 0b0000_1100, 0b0011_0000, 0b0110_0000, 0b0111_1110, 0]
    } else if b == 0x33 {
        seq![0b0011_1100u8, 0b0110_0110, 0b0000_0110, 0b0001_1100, 0b0000_0110, 0b0110_0110, 0b0011_1100, 0]
    } else if b == 0x34 {
        seq![0b0000_1100u8, 0b0001_1100, 0b0010_1100, 0b0100_1100, 0b0111_1110, 0b0000_1100, 0b0000_1100, 0]
    } else if b == 0x35 {
        seq![0b0111_1110u8, 0b0110_0000, 0b0111_1100, 0b0000_0110, 0b0000_0110, 0b0110_0110, 0b0011_1100, 0]
    } else if b == 0x36 {
        seq![0b0011_1100u8, 0b0110_0110, 0b0110_0000, 0b0111_1100, 0b0110_0110, 0b0110_0110, 0b0011_1100, 0]
    } else if b == 0x37 {
        seq![0b0111_1110u8, 0b0000_0110, 0b0000_1100, 0b0001_1000, 0b0011_0000, 0b0011_0000, 0b0011_0000, 0]
    } else if b == 0x38 {
        seq![0b0011_1100u8, 0b0110_0110, 0b0110_0110, 0b0011_1100, 0b0110_0110, 0b0110_0110, 0b0011_1100, 0]
    } else if b == 0x39 {
        seq![0b0011_1100u8, 0b0110_0110, 0b0110_0110, 0b0011_1110, 0b0000_0110, 0b0110_0110, 0b0011_1100, 0]
    } else if b == 0x41 {
        seq![0b0001_1000u8, 0b0011_1100, 0b0110_0110, 0b0110_0110, 0b0111_1110, 0b0110_0110, 0b0110_0110, 0]
    } else if b == 0x42 {
        seq![0b0111_1100u8, 0b0110_0110, 0b0110_0110, 0b0111_1100, 0b0110_0110, 0b0110_0110, 0b0111_1100, 0]
    } else if b == 0x43 {
        seq![0b0011_1100u8, 0b0110_0110, 0b0110_0000, 0b0110_0000, 0b0110_0000, 0b0110_0110, 0b0011_1100, 0]
    } else if b == 0x44 {
        seq![0b0111_1000u8, 0b0110_1100, 0b0110_0110, 0b0110_0110, 0b0110_0110, 0b0110_1100, 0b0111_1000, 0]
    } else if b == 0x45 {
        seq![0b0111_1110u8, 0b0110_0000, 0b0110_0000, 0b0111_1100, 0b0110_0000, 0b0110_0000, 0b0111_1110, 0]
    } else if b == 0x46 {
        seq![0b0111_1110u8, 0b0110_0000, 0b0110_0000, 0b0111_1100, 0b0110_0000, 0b0110_0000, 0b0110_0000, 0]
    } else if b == 0x47 {
        seq![0b0011_1100u8, 0b0110_0110, 0b0110_0000, 0b0110_1110, 0b0110_0110, 0b0110_0110, 0b0011_1110, 0]
    } else if b == 0x48 {
        seq![0b0110_0110u8, 0b0110_0110, 0b0110_0110, 0b0111_1110, 0b0110_0110, 0b0110_0110, 0b0110_0110, 0]
    } else if b == 0x49 {
        seq![0b0011_1100u8, 0b0001_1000, 0b0001_1000, 0b0001_1000, 0b0001_1000, 0b0001_1000, 0b0011_1100, 0]
    } else if b == 0x4b {
        seq![0b0110_0110u8, 0b0110_1100, 0b0111_1000, 0b0111_0000, 0b0111_1000, 0b0110_1100, 0b0110_0110, 0]
    } else if b == 0x4c {
        seq![0b0110_0000u8, 0b0110_0000, 0b0110_0000, 0b0110_0000, 0b0110_0000, 0b0110_0000, 0b0111_1110, 0]
    } else if b == 0x4d {
        seq![0b0110_0011u8, 0b0111_0111, 0b0111_1111, 0b0110_1011, 0b0110_0011, 0b0110_0011, 0b0110_0011, 0]
    } else if b == 0x4e {
        seq![0b0110_0110u8, 0b0111_0110, 0b0111_1110, 0b0111_1110, 0b0110_1110, 0b0110_0110, 0b0110_0110, 0]
    } else if b == 0x4f {
        seq![0b0011_1100u8, 0b0110_0110, 0b0110_0110, 0b0110_0110, 0b0110_0110, 0b0110_0110, 0b0011_1100, 0]
    } else if b == 0x50 {
        seq![0b0111_1100u8, 0b0110_0110, 0b0110_0110, 0b0111_1100, 0b0110_0000, 0b0110_0000, 0b0110_0000, 0]
    } else if b == 0x52 {
        seq![0b0111_1100u8, 0b0110_0110, 0b0110_0110, 0b0111_1100, 0b0111_1000, 0b0110_1100, 0b0110_0110, 0]
    } else if b == 0x53 {
        seq![0b0011_1110u8, 0b0110_0000, 0b0110_0000, 0b0011_1100, 0b0000_0110, 0b0000_0110, 0b0111_1100, 0]
    } else if b == 0x54 {
        seq![0b0111_1110u8, 0b0001_1000, 0b0001_1000, 0b0001_1000, 0b0001_1000, 0b0001_1000, 0b0001_1000, 0]
    } else if b == 0x55 {
        seq![0b0110_0110u8, 0b0110_0110, 0b0110_0110, 0b0110_0110, 0b0110_0110, 0b0110_0110, 0b0011_1100, 0]
    } else if b == 0x56 {
        seq![0b0110_0110u8, 0b0110_0110, 0b0110_0110, 0b0110_0110, 0b0011_1100, 0b0011_1100, 0b0001_1000, 0]
    } else if b == 0x58 {
        seq![0b0110_0110u8, 0b0110_0110, 0b0011_1100, 0b0001_1000, 0b0011_1100, 0b0110_0110, 0b0110_0110, 0]
    } else {
        seq![0b0111_1110u8, 0b0100_0010, 0b0101_1010, 0b0101_1010, 0b0101_1010, 0b0100_0010, 0b0111_1110, 0]
    }
}

/// The 8x8 glyph of a byte, top row first; bit 7 of a row is its leftmost pixel.
pub fn glyph(byte: u8) -> (rows: [u8; 8])
    ensures
        rows@ == glyph_rows(byte),
{
    let rows: [u8; 8] = match byte {
        0x20 => [0, 0, 0, 0, 0, 0, 0, 0],
        0x2d => [0, 0, 0, 0b0111_1110, 0, 0, 0, 0],
        0x2e => [0, 0, 0, 0, 0, 0, 0b0001_1000, 0],
        0x3a => [0, 0b0001_1000, 0b0001_1000, 0, 0, 0b0001_1000, 0b0001_1000, 0],
        0x30 => [0b0011_1100, 0b0110_0110, 0b0110_1110, 0b0111_0110, 0b0110_0110, 0b0110_0110, 0b0011_1100, 0],
        0x31 => [0b0001_1000, 0b0011_1000, 0b0001_1000, 0b0001_1000, 0b0001_1000, 0b0001_1000, 0b0111_1110, 0],
        0x32 => [0b0011_1100, 0b0110_0110, 0b0000_0110, 0b0000_1100, 0b0011_0000, 0b0110_0000, 0b0111_1110, 0],
        0x33 => [0b0011_1100, 0b0110_0110, 0b0000_0110, 0b0001_1100, 0b0000_0110, 0b0110_0110, 0b0011_1100, 0],
        0x34 => [0b0000_1100, 0b0001_1100, 0b0010_1100, 0b0100_1100, 0b0111_1110, 0b0000_1100, 0b0000_1100, 0],
        0x35 => [0b0111_1110, 0b0110_0000, 0b0111_1100, 0b0000_0110, 0b0000_0110, 0b0110_0110, 0b0011_1100, 0],
        0x36 => [0b0011_1100, 0b0110_0110, 0b0110_0000, 0b0111_1100, 0b0110_0110, 0b0110_0110, 0b0011_1100, 0],
        0x37 => [0b0111_1110, 0b0000_0110, 0b0000_1100, 0b0001_1000, 0b0011_0000, 0b0011_0000, 0b0011_0000, 0],
        0x38 => [0b0011_1100, 0b0110_0110, 0b0110_0110, 0b0011_1100, 0b0110_0110, 0b0110_0110, 0b0011_1100, 0],
        0x39 => [0b0011_1100, 0b0110_0110, 0b0110_0110, 0b0011_1110, 0b0000_0110, 0b0110_0110, 0b0011_1100, 0],
        0x41 | 0x61 => [0b0001_1000, 0b0011_1100, 0b0110_0110, 0b0110_0110, 0b0111_1110, 0b0110_0110, 0b0110_0110, 0],
        0x42 | 0x62 => [0b0111_1100, 0b0110_0110, 0b0110_0110, 0b0111_1100, 0b0110_0110, 0b0110_0110, 0b0111_1100, 0],
        0x43 | 0x63 => [0b0011_1100, 0b0110_0110, 0b0110_0000, 0b0110_0000, 0b0110_0000, 0b0110_0110, 0b0011_1100, 0],
        0x44 | 0x64 => [0b0111_1000, 0b0110_1100, 0b0110_0110, 0b0110_0110, 0b0110_0110, 0b0110_1100, 0b0111_1000, 0],
        0x45 | 0x65 => [0b0111_1110, 0b0110_0000, 0b0110_0000, 0b0111_1100, 0b0110_0000, 0b0110_0000, 0b0111_1110, 0],
        0x46 | 0x66 => [0b0111_1110, 0b0110_0000, 0b0110_0000, 0b0111_1100, 0b0110_0000, 0b0110_0000, 0b0110_0000, 0],
        0x47 | 0x67 => [0b0011_1100, 0b0110_0110, 0b0110_0000, 0b0110_1110, 0b0110_0110, 0b0110_0110, 0b0011_1110, 0],
        0x48 | 0x68 => [0b0110_0110, 0b0110_0110, 0b0110_0110, 0b0111_1110, 0b0110_0110, 0b0110_0110, 0b0110_0110, 0],
        0x49 | 0x69 => [0b0011_1100, 0b0001_1000, 0b0001_1000, 0b0001_1000, 0b0001_1000, 0b0001_1000, 0b0011_1100, 0],
        0x4b | 0x6b => [0b0110_0110, 0b0110_1100, 0b0111_1000, 0b0111_0000, 0b0111_1000, 0b0110_1100, 0b0110_0110, 0],
        0x4c | 0x6c => [0b0110_0000, 0b0110_0000, 0b0110_0000, 0b0110_0000, 0b0110_0000, 0b0110_0000, 0b0111_1110, 0],
        0x4d | 0x6d => [0b0110_0011, 0b0111_0111, 0b0111_1111, 0b0110_1011, 0b0110_0011, 0b0110_0011, 0b0110_0011, 0],
        0x4e | 0x6e => [0b0110_0110, 0b0111_0110, 0b0111_1110, 0b0111_1110, 0b0110_1110, 0b0110_0110, 0b0110_0110, 0],
        0x4f | 0x6f => [0b0011_1100, 0b0110_0110, 0b0110_0110, 0b0110_0110, 0b0110_0110, 0b0110_0110, 0b0011_1100, 0],
        0x50 | 0x70 => [0b0111_1100, 0b0110_0110, 0b0110_0110, 0b0111_1100, 0b0110_0000, 0b0110_0000, 0b0110_0000, 0],
        0x52 | 0x72 => [0b0111_1100, 0b0110_0110, 0b0110_0110, 0b0111_1100, 0b0111_1000, 0b0110_1100, 0b0110_0110, 0],
        0x53 | 0x73 => [0b0011_1110, 0b0110_0000, 0b0110_0000, 0b0011_1100, 0b0000_0110, 0b0000_0110, 0b0111_1100, 0],
        0x54 | 0x74 => [0b0111_1110, 0b0001_1000, 0b0001_1000, 0b0001_1000, 0b0001_1000, 0b0001_1000, 0b0001_1000, 0],
        0x55 | 0x75 => [0b0110_0110, 0b0110_0110, 0b0110_0110, 0b0110_0110, 0b0110_0110, 0b0110_0110, 0b0011_1100, 0],
        0x56 | 0x76 => [0b0110_0110, 0b0110_0110, 0b0110_0110, 0b0110_0110, 0b0011_1100, 0b0011_1100, 0b0001_1000, 0],
        0x58 | 0x78 => [0b0110_0110, 0b0110_0110, 0b0011_1100, 0b0001_1000, 0b0011_1100, 0b0110_0110, 0b0110_0110, 0],
        _ => [0b0111_1110, 0b0100_0010, 0b0101_1010, 0b0101_1010, 0b0101_1010, 0b0100_0010, 0b0111_1110, 0],
    };
    assert(rows@ =~= glyph_rows(byte));
    rows
}

/// A lower-case letter is drawn with the glyph of its capital.
pub proof fn lemma_glyph_case_insensitive(byte: u8)
    requires
        0x61 <= byte <= 0x7a,
    ensures
        glyph_rows(byte) == glyph_rows((byte - 32) as u8),
{
}

/// The bottom row of every glyph is empty, which keeps lines of text apart.
pub proof fn lemma_glyph_bottom_row_empty(byte: u8)
    ensures
        glyph_rows(byte).len() == 8,
        glyph_rows(byte)[7] == 0,
{
}

} // verus!
