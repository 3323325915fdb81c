use vstd::prelude::*;
use vstd::string::StringSliceAdditionalSpecFns;

use crate::boot::FramebufferInfo;
use crate::memory::{limine_kind, MemoryMap, MemoryRegion};
use crate::text::utf8::str_from_utf8;

verus! {

/// Regions of the memory map that the kernel keeps at most.
pub const MAX_MEMORY_REGIONS: usize = 128;

/// One entry of the Limine memory map, as the bootloader lays it out.
#[derive(Debug, Clone, Copy, PartialEq, Eq, Structural)]
pub struct LimineMemoryMapEntry {
    pub base: u64,
    pub length: u64,
    pub kind: u64,
}

/// The fields of the first Limine framebuffer that the kernel reads.
#[derive(Debug, Clone, Copy, PartialEq, Eq, Structural)]
pub struct LimineFramebuffer {
    pub address: usize,
    pub width: u64,
    pub height: u64,
    pub pitch: u64,
    pub bpp: u16,
}

/// How many memory map entries the kernel reads: the count the bootloader gives,
/// at most 128.
pub fn memory_region_count(entry_count: u64) -> (r: usize)
    ensures
        r == if (entry_count as usize) < 128 {
            entry_count as usize
        } else {
            128
        },
{
    let count = entry_count as usize;
    if count < MAX_MEMORY_REGIONS {
        count
    } else {
        MAX_MEMORY_REGIONS
    }
}

/// The region that an entry stands for; an entry whose pointer was null stands
/// as an empty reserved region.
pub open spec fn region_of(entry: Option<LimineMemoryMapEntry>) -> MemoryRegion {
    match entry {
        Some(e) => MemoryRegion { base: e.base, length: e.length, kind: limine_kind(e.kind) },
        None => MemoryRegion { base: 0, length: 0, kind: crate::memory::MemoryRegionKind::Reserved },
    }
}

/// The memory map of the entries read from the bootloader's response, `None` for
/// a null entry pointer, in order.
pub fn memory_map(entries: &[Option<LimineMemoryMapEntry>]) -> (m: MemoryMap)
    ensures
        m@ == entries@.map_values(|e: Option<LimineMemoryMapEntry>| region_of(e)),
{
    let mut regions: Vec<MemoryRegion> = Vec::new();
    let mut i: usize = 0;
    while i < entries.len()
        invariant
            i <= entries@.len(),
            regions@ == entries@.take(i as int).map_values(
                |e: Option<LimineMemoryMapEntry>| region_of(e),
            ),
        decreases entries@.len() - i,
    {
        let region = match entries[i] {
            Some(entry) => MemoryRegion {
                base: entry.base,
                length: entry.length,
                kind: crate::memory::MemoryRegionKind::from_limine(entry.kind),
            },
            None => MemoryRegion::empty(),
        };
        regions.push(region);
        i = i + 1;
        assert(regions@ =~= entries@.take(i as int).map_values(
            |e: Option<LimineMemoryMapEntry>| region_of(e),
        ));
    }
    assert(entries@.take(entries@.len() as int) =~= entries@);
    MemoryMap::new(regions.as_slice())
}

/// The framebuffer the kernel uses: the first one the bootloader reports, where
/// it reports any (`first` is `None` where its pointer is null).
pub fn framebuffer_info(framebuffer_count: u64, first: Option<LimineFramebuffer>) -> (r: Option<
    FramebufferInfo,
>)
    ensures
        framebuffer_count == 0 ==> r is None,
        framebuffer_count != 0 ==> r == match first {
            Some(f) => Some(
                FramebufferInfo {
                    address: f.address,
                    width: f.width as usize,
                    height: f.height as usize,
                    pitch: f.pitch as usize,
                    bits_per_pixel: f.bpp,
                },
            ),
            None => None::<FramebufferInfo>,
        },
{
    if framebuffer_count == 0 {
        return None;
    }
    match first {
        Some(f) => Some(
            FramebufferInfo {
                address: f.address,
                width: f.width as usize,
                height: f.height as usize,
                pitch: f.pitch as usize,
                bits_per_pixel: f.bpp,
            },
        ),
        None => None,
    }
}

/// The bootloader's name or version from the bytes before its terminating zero;
/// bytes that are not UTF-8 give none.
pub fn bootloader_string(bytes: &[u8]) -> (r: Option<String>)
    ensures
        r is Some <==> vstd::utf8::valid_utf8(bytes@),
        r matches Some(s) ==> s@ == vstd::utf8::decode_utf8(bytes@),
{
    match str_from_utf8(bytes) {
        Some(s) => {
            proof {
                vstd::utf8::encode_utf8_decode_utf8(s@);
            }
            Some(s.to_owned())
        },
        None => None,
    }
}

} // verus!
