use vstd::prelude::*;

verus! {

/// Selector of the kernel code segment in the descriptor table.
pub const KERNEL_CODE_SELECTOR: u16 = 0x08;

/// The segment limit that every flat descriptor of the table carries (4 GiB with
/// page granularity).
pub const SEGMENT_LIMIT: u64 = 0x000f_ffff;

/// The 64-bit encoding of a flat segment descriptor with the given access byte and
/// flags nibble: limit bits 0..15 in bits 0..15, limit bits 16..19 in bits 48..51,
/// the access byte in bits 40..47 and the flags in bits 52..59.
pub open spec fn descriptor_spec(access: u8, flags: u8) -> u64 {
    (SEGMENT_LIMIT & 0xffff) | (((SEGMENT_LIMIT >> 16u64) & 0x0f) << 48u64) | ((access as u64)
        << 40u64) | ((flags as u64) << 52u64)
}

/// Encodes a flat segment descriptor.
pub fn descriptor(access: u8, flags: u8) -> (d: u64)
    ensures
        d == descriptor_spec(access, flags),
        d & 0xffff == 0xffff,
        (d >> 40u64) & 0xff == access,
        (d >> 48u64) & 0x0f == 0x0f,
        flags < 16 ==> d >> 52u64 == flags,
{
    let limit: u64 = SEGMENT_LIMIT;
    let a: u64 = access as u64;
    let f: u64 = flags as u64;
    let d = (limit & 0xffff) | (((limit >> 16u64) & 0x0f) << 48u64) | (a << 40u64) | (f << 52u64);
    assert(d & 0xffff == 0xffff) by (bit_vector)
        requires
            d == (limit & 0xffff) | (((limit >> 16u64) & 0x0f) << 48u64) | (a << 40u64) | (f << 52u64),
            limit == 0x000f_ffffu64,
            a < 256,
    ;
    assert((d >> 40u64) & 0xff == a) by (bit_vector)
        requires
            d == (limit & 0xffff) | (((limit >> 16u64) & 0x0f) << 48u64) | (a << 40u64) | (f << 52u64),
            limit == 0x000f_ffffu64,
            a < 256,
            f < 256,
    ;
    assert((d >> 48u64) & 0x0f == 0x0f) by (bit_vector)
        requires
            d == (limit & 0xffff) | (((limit >> 16u64) & 0x0f) << 48u64) | (a << 40u64) | (f << 52u64),
            limit == 0x000f_ffffu64,
            a < 256,
    ;
    assert(f < 16 ==> d >> 52u64 == f) by (bit_vector)
        requires
            d == (limit & 0xffff) | (((limit >> 16u64) & 0x0f) << 48u64) | (a << 40u64) | (f << 52u64),
            limit == 0x000f_ffffu64,
            a < 256,
    ;
    d
}

/// Access byte of the kernel code segment: present, ring 0, code, readable.
pub const KERNEL_CODE_ACCESS: u8 = 0x9a;

/// Flags of the kernel code segment: 4 KiB granularity, 64-bit.
pub const KERNEL_CODE_FLAGS: u8 = 0x0a;

/// Access byte of the kernel data segment: present, ring 0, data, writable.
pub const KERNEL_DATA_ACCESS: u8 = 0x92;

/// Flags of the kernel data segment: 4 KiB granularity, 32-bit default size.
pub const KERNEL_DATA_FLAGS: u8 = 0x0c;

/// The kernel's global descriptor table: the null descriptor, the code segment
/// (selector 0x08) and the data segment (selector 0x10).
pub open spec fn gdt_entries_spec() -> Seq<u64> {
    seq![
        0u64,
        descriptor_spec(KERNEL_CODE_ACCESS, KERNEL_CODE_FLAGS),
        descriptor_spec(KERNEL_DATA_ACCESS, KERNEL_DATA_FLAGS),
    ]
}

/// The entries of the kernel's global descriptor table.
pub fn gdt_entries() -> (r: [u64; 3])
    ensures
        r@ == gdt_entries_spec(),
{
    let r = [
        0,
        descriptor(KERNEL_CODE_ACCESS, KERNEL_CODE_FLAGS),
        descriptor(KERNEL_DATA_ACCESS, KERNEL_DATA_FLAGS),
    ];
    assert(r@ =~= gdt_entries_spec());
    r
}

} // verus!
