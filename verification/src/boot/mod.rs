pub mod limine;

use vstd::prelude::*;

use crate::memory::MemoryMap;

verus! {

/// The linear framebuffer that the bootloader set up. Its address is kept as a
/// number; the kernel turns it back into a pointer where it writes pixels.
#[derive(Debug, Clone, Copy, PartialEq, Eq, Structural)]
pub struct FramebufferInfo {
    pub address: usize,
    pub width: usize,
    pub height: usize,
    pub pitch: usize,
    pub bits_per_pixel: u16,
}

impl FramebufferInfo {
    /// Byte offset of pixel (`x`, `y`) from the start of the framebuffer: `y`
    /// lines of `pitch` bytes and `x` pixels of four bytes. `None` where that does
    /// not fit a `usize`.
    pub fn pixel_offset(&self, x: usize, y: usize) -> (r: Option<usize>)
        ensures
            r matches Some(o) ==> o == y * self.pitch + x * 4,
            r is None <==> y * self.pitch + x * 4 > usize::MAX,
    {
        let row = match y.checked_mul(self.pitch) {
            Some(v) => v,
            None => {
                assert(y * self.pitch > usize::MAX);
                return None;
            },
        };
        let col = match x.checked_mul(4) {
            Some(v) => v,
            None => {
                return None;
            },
        };
        row.checked_add(col)
    }
}

/// What the kernel learns from the bootloader.
pub struct BootInfo {
    pub framebuffer: Option<FramebufferInfo>,
    pub memory_map: MemoryMap,
    pub bootloader_name: Option<String>,
    pub bootloader_version: Option<String>,
}

} // verus!
