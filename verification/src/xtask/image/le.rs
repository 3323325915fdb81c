use vstd::prelude::*;

verus! {

/// Byte `k` (0 for the lowest, up to 3) of the little-endian encoding of `v`.
pub open spec fn le_byte(v: int, k: int) -> u8 {
    if k <= 0 {
        (v % 0x100) as u8
    } else if k == 1 {
        ((v / 0x100) % 0x100) as u8
    } else if k == 2 {
        ((v / 0x10000) % 0x100) as u8
    } else {
        ((v / 0x1000000) % 0x100) as u8
    }
}

/// The two bytes of `v` in little-endian order.
pub open spec fn le16(v: u16) -> Seq<u8> {
    seq![le_byte(v as int, 0), le_byte(v as int, 1)]
}

/// The four bytes of `v` in little-endian order.
pub open spec fn le32(v: u32) -> Seq<u8> {
    seq![le_byte(v as int, 0), le_byte(v as int, 1), le_byte(v as int, 2), le_byte(v as int, 3)]
}

/// The little-endian bytes of a 16-bit value.
pub fn u16_to_le_bytes(v: u16) -> (r: [u8; 2])
    ensures
        r@ == le16(v),
{
    let lo = (v & 0xff) as u8;
    let hi = (v >> 8u16) as u8;
    assert(lo == v % 0x100) by (bit_vector)
        requires
            lo == (v & 0xff) as u8,
    ;
    assert(hi == (v / 0x100) % 0x100) by (bit_vector)
        requires
            hi == (v >> 8u16) as u8,
    ;
    let r = [lo, hi];
    assert(r@ =~= le16(v));
    r
}

/// The little-endian bytes of a 32-bit value.
pub fn u32_to_le_bytes(v: u32) -> (r: [u8; 4])
    ensures
        r@ == le32(v),
{
    let b0 = (v & 0xff) as u8;
    let b1 = ((v >> 8u32) & 0xff) as u8;
    let b2 = ((v >> 16u32) & 0xff) as u8;
    let b3 = (v >> 24u32) as u8;
    assert(b0 == v % 0x100 && b1 == (v / 0x100) % 0x100 && b2 == (v / 0x10000) % 0x100 && b3 == (v
        / 0x1000000) % 0x100) by (bit_vector)
        requires
            b0 == (v & 0xff) as u8,
            b1 == ((v >> 8u32) & 0xff) as u8,
            b2 == ((v >> 16u32) & 0xff) as u8,
            b3 == (v >> 24u32) as u8,
    ;
    let r = [b0, b1, b2, b3];
    assert(r@ =~= le32(v));
    r
}

} // verus!
