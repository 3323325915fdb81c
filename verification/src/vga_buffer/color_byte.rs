use vstd::prelude::*;

verus! {

/// A VGA text attribute byte: background colour in the high nibble, foreground in
/// the low one.
#[derive(Debug, Clone, Copy, PartialEq, Eq, Structural)]
pub struct ColorCode(pub u8);

/// The attribute byte of a foreground and a background colour, as the shift and or
/// on a byte compute it: bits of the background beyond the high nibble fall off.
pub open spec fn color_byte(foreground: u8, background: u8) -> u8 {
    (((background as int * 16) % 256) as u8) | foreground
}

impl ColorCode {
    /// Packs a foreground and a background colour.
    pub fn new(foreground: u8, background: u8) -> (c: Self)
        ensures
            c.0 == color_byte(foreground, background),
            foreground < 16 ==> c.0 & 0x0f == foreground,
            foreground < 16 && background < 16 ==> c.0 >> 4u8 == background,
    {
        let b = (background << 4u8) | foreground;
        assert(b == ((((background as int * 16) % 256) as u8) | foreground)) by (bit_vector)
            requires
                b == (background << 4u8) | foreground,
        ;
        assert(foreground < 16 ==> b & 0x0f == foreground) by (bit_vector)
            requires
                b == (background << 4u8) | foreground,
        ;
        assert(foreground < 16 && background < 16 ==> b >> 4u8 == background) by (bit_vector)
            requires
                b == (background << 4u8) | foreground,
        ;
        ColorCode(b)
    }
}

} // verus!
