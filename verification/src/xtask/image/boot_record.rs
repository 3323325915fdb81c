use vstd::prelude::*;

use crate::xtask::image::fat16::{Fat16Image, PARTITION_LBA, SECTOR_SIZE};
use crate::xtask::image::le::{le16, le32};
use crate::xtask::image::reader::{lemma_le16_reads_back, read_le16};

verus! {

/// Offset of the partition entry in the MBR.
pub const MBR_PARTITION_ENTRY: usize = 446;

/// The 16-byte MBR partition entry of a bootable FAT16 (LBA) partition of `sectors`
/// sectors at sector 2048, with CHS fields saturated.
pub open spec fn mbr_partition_entry(sectors: u32) -> Seq<u8> {
    seq![0x80u8, 0xff, 0xff, 0xff, 0x0e, 0xff, 0xff, 0xff] + le32(2048) + le32(sectors)
}

/// The image bytes `b` with the MBR partition entry and the boot signature written.
pub open spec fn with_mbr(b: Seq<u8>, sectors: u32) -> Seq<u8> {
    Seq::new(
        b.len(),
        |p: int|
            if 446 <= p < 462 {
                mbr_partition_entry(sectors)[p - 446]
            } else if p == 510 {
                0x55u8
            } else if p == 511 {
                0xaau8
            } else {
                b[p]
            },
    )
}

/// The first 62 bytes of the FAT16 boot sector (the BIOS parameter block); the
/// byte at 37 is left as it was and stands here as zero.
pub open spec fn boot_sector_head(sectors_per_fat: u16, total_sectors: u32) -> Seq<u8> {
    seq![0xebu8, 0x3c, 0x90] + seq![0x4fu8, 0x58, 0x49, 0x44, 0x46, 0x41, 0x54, 0x20] + le16(
        512,
    ) + seq![4u8] + le16(1) + seq![2u8] + le16(512) + le16(0) + seq![0xf8u8] + le16(
        sectors_per_fat,
    ) + le16(63) + le16(255) + le32(2048) + le32(total_sectors) + seq![0x80u8, 0, 0x29] + le32(
        0x0d10_0001,
    ) + seq![0x4fu8, 0x58, 0x49, 0x44, 0x20, 0x20, 0x20, 0x20, 0x20, 0x20, 0x20] + seq![
        0x46u8,
        0x41,
        0x54,
        0x31,
        0x36,
        0x20,
        0x20,
        0x20,
    ]
}

/// The image bytes `b` with the boot sector at `off` written: its head (but byte
/// 37) and its signature.
pub open spec fn with_boot_sector(b: Seq<u8>, off: int, sectors_per_fat: u16, total_sectors: u32) -> Seq<u8> {
    Seq::new(
        b.len(),
        |p: int|
            if off <= p < off + 62 && p != off + 37 {
                boot_sector_head(sectors_per_fat, total_sectors)[p - off]
            } else if p == off + 510 {
                0x55u8
            } else if p == off + 511 {
                0xaau8
            } else {
                b[p]
            },
    )
}

/// The 32-bit little-endian value at byte `p` of `b`.
pub open spec fn read_le32(b: Seq<u8>, p: int) -> int {
    b[p] + 256 * b[p + 1] + 65536 * b[p + 2] + 16777216 * b[p + 3]
}

/// The BIOS parameter block that the boot sector of an image carries describes
/// the image: 512-byte sectors, its sectors per cluster, the FATs after one
/// reserved sector, as many FATs as copies are written (two) of its sectors per
/// FAT, so that they end where the root directory starts, 512 root entries that
/// end where the data area starts, and the partition's start and size.
pub proof fn lemma_boot_sector_describes_layout(img: Fat16Image)
    requires
        img.wf(),
        img.sectors_per_fat <= 0xffff,
        img.partition_sectors() <= 0xffff_ffff,
    ensures
        ({
            let off = img.partition_start * 512;
            let b = with_boot_sector(
                img.bytes@,
                off,
                img.sectors_per_fat as u16,
                img.partition_sectors() as u32,
            );
            &&& read_le16(b, off + 11) == 512
            &&& b[off + 13] == img.sectors_per_cluster
            &&& img.partition_start + read_le16(b, off + 14) == img.fat_start
            &&& b[off + 16] == 2
            &&& read_le16(b, off + 22) == img.sectors_per_fat
            &&& img.fat_start + b[off + 16] * read_le16(b, off + 22) == img.root_dir_start
            &&& img.root_dir_start + read_le16(b, off + 17) * 32 / 512 == img.data_start
            &&& read_le32(b, off + 28) == img.partition_start
            &&& read_le32(b, off + 32) == img.partition_sectors()
            &&& read_le16(b, off + 19) == 0
            &&& b[off] == 0xeb && b[off + 21] == 0xf8
            &&& b[off + 510] == 0x55 && b[off + 511] == 0xaa
        }),
{
    let off = img.partition_start * 512;
    let spf = img.sectors_per_fat as u16;
    let total = img.partition_sectors() as u32;
    let h = boot_sector_head(spf, total);
    let b = with_boot_sector(img.bytes@, off, spf, total);
    assert(off + 512 <= img.bytes@.len()) by (nonlinear_arith)
        requires
            off == img.partition_start * 512,
            img.partition_start < img.data_start,
            img.data_start <= img.bytes@.len() / 512,
    ;
    assert forall|k: int| 0 <= k < 62 && k != 37 implies #[trigger] b[off + k] == h[k] by {}
    lemma_le16_reads_back(512);
    lemma_le16_reads_back(1);
    lemma_le16_reads_back(0);
    assert(h[19] == le16(0)[0] && h[20] == le16(0)[1]);
    assert(h[0] == 0xeb && h[21] == 0xf8);
    lemma_le16_reads_back(spf);
    assert(h[11] == le16(512)[0] && h[12] == le16(512)[1]);
    assert(h[13] == 4);
    assert(h[14] == le16(1)[0] && h[15] == le16(1)[1]);
    assert(h[16] == 2);
    assert(h[17] == le16(512)[0] && h[18] == le16(512)[1]);
    assert(h[22] == le16(spf)[0] && h[23] == le16(spf)[1]);
    assert(h[28] == le32(2048)[0] && h[29] == le32(2048)[1] && h[30] == le32(2048)[2] && h[31]
        == le32(2048)[3]);
    assert(h[32] == le32(total)[0] && h[33] == le32(total)[1] && h[34] == le32(total)[2] && h[35]
        == le32(total)[3]);
    lemma_le32_reads_back(2048);
    lemma_le32_reads_back(total);
    assert(b[off + 16] * read_le16(b, off + 22) == 2 * img.sectors_per_fat);
}

/// Reading back a 32-bit value written little-endian gives the value.
proof fn lemma_le32_reads_back(v: u32)
    ensures
        le32(v)[0] + 256 * le32(v)[1] + 65536 * le32(v)[2] + 16777216 * le32(v)[3] == v,
{
    let x = v as int;
    assert(le32(v)[0] == x % 0x100);
    assert(le32(v)[1] == (x / 0x100) % 0x100);
    assert(le32(v)[2] == (x / 0x10000) % 0x100);
    assert(le32(v)[3] == (x / 0x1000000) % 0x100);
    assert(x % 0x100 + 256 * ((x / 0x100) % 0x100) + 65536 * ((x / 0x10000) % 0x100) + 16777216 * ((
    x / 0x1000000) % 0x100) == x) by (nonlinear_arith)
        requires
            0 <= x < 0x1_0000_0000,
    ;
}

impl Fat16Image {
    /// Writes the MBR: one partition entry for the FAT partition, and the boot
    /// signature.
    pub fn write_mbr(&mut self)
        requires
            old(self).wf(),
        ensures
            final(self).wf(),
            final(self).same_layout(old(self)),
            final(self).next_cluster == old(self).next_cluster,
            final(self).bytes@ == with_mbr(old(self).bytes@, old(self).partition_sectors() as u32),
    {
        let ghost b0 = self.bytes@;
        let partition_sectors = (self.bytes.len() / SECTOR_SIZE - self.partition_start) as u32;
        let entry = MBR_PARTITION_ENTRY;
        self.bytes.set(entry, 0x80);
        self.bytes.set(entry + 1, 0xff);
        self.bytes.set(entry + 2, 0xff);
        self.bytes.set(entry + 3, 0xff);
        self.bytes.set(entry + 4, 0x0e);
        self.bytes.set(entry + 5, 0xff);
        self.bytes.set(entry + 6, 0xff);
        self.bytes.set(entry + 7, 0xff);
        self.write_u32(entry + 8, PARTITION_LBA);
        self.write_u32(entry + 12, partition_sectors);
        self.bytes.set(510, 0x55);
        self.bytes.set(511, 0xaa);
        assert(self.bytes@ =~= with_mbr(b0, partition_sectors));
    }

    /// Writes the FAT16 boot sector at the start of the partition.
    pub fn write_boot_sector(&mut self)
        requires
            old(self).wf(),
        ensures
            final(self).wf(),
            final(self).same_layout(old(self)),
            final(self).next_cluster == old(self).next_cluster,
            final(self).bytes@ == with_boot_sector(
                old(self).bytes@,
                old(self).partition_start * 512,
                old(self).sectors_per_fat as u16,
                old(self).partition_sectors() as u32,
            ),
    {
        let ghost b0 = self.bytes@;
        let offset = self.partition_start * SECTOR_SIZE;
        let total_sectors = (self.bytes.len() / SECTOR_SIZE - self.partition_start) as u32;
        let spf = self.sectors_per_fat as u16;
        let head = boot_sector_head_bytes(spf, total_sectors, self.sectors_per_cluster as u8);
        let h = head.as_slice();
        self.put_bytes(offset, &h[0..37]);
        self.put_bytes(offset + 38, &h[38..62]);
        self.bytes.set(offset + 510, 0x55);
        self.bytes.set(offset + 511, 0xaa);
        assert(self.bytes@ =~= with_boot_sector(b0, offset as int, spf, total_sectors));
    }

    /// Copies the bytes of `values` into the image at `start`.
    fn put_bytes(&mut self, start: usize, values: &[u8])
        requires
            start + values@.len() <= old(self).bytes@.len(),
        ensures
            final(self).same_layout(old(self)),
            final(self).next_cluster == old(self).next_cluster,
            old(self).wf() ==> final(self).wf(),
            forall|p: int|
                0 <= p < final(self).bytes@.len() ==> #[trigger] final(self).bytes@[p] == if start <= p
                    < start + values@.len() {
                    values@[p - start]
                } else {
                    old(self).bytes@[p]
                },
    {
        // Asking for the length brings in that it fits a `usize`.
        let _len = self.bytes.len();
        let ghost b0 = self.bytes@;
        let n = values.len();
        let mut i: usize = 0;
        while i < n
            invariant
                i <= n,
                values@.len() == n,
                start + n <= self.bytes@.len(),
                self.bytes@.len() <= usize::MAX,
                b0 == old(self).bytes@,
                self.same_layout(&*old(self)),
                self.next_cluster == old(self).next_cluster,
                forall|p: int|
                    0 <= p < self.bytes@.len() ==> #[trigger] self.bytes@[p] == if start <= p < start
                        + i {
                        values@[p - start]
                    } else {
                        b0[p]
                    },
            decreases n - i,
        {
            self.bytes.set(start + i, values[i]);
            i = i + 1;
        }
    }
}

/// The first 62 bytes of the boot sector, with `sectors_per_cluster` in byte 13.
fn boot_sector_head_bytes(sectors_per_fat: u16, total_sectors: u32, sectors_per_cluster: u8) -> (r: [u8; 62])
    requires
        sectors_per_cluster == 4,
    ensures
        r@ == boot_sector_head(sectors_per_fat, total_sectors),
{
    let mut h = [0u8; 62];
    h[0] = 0xeb;
    h[1] = 0x3c;
    h[2] = 0x90;
    h[3] = 0x4f;
    h[4] = 0x58;
    h[5] = 0x49;
    h[6] = 0x44;
    h[7] = 0x46;
    h[8] = 0x41;
    h[9] = 0x54;
    h[10] = 0x20;
    let bps = crate::xtask::image::le::u16_to_le_bytes(SECTOR_SIZE as u16);
    h[11] = bps[0];
    h[12] = bps[1];
    h[13] = sectors_per_cluster;
    let reserved = crate::xtask::image::le::u16_to_le_bytes(1);
    h[14] = reserved[0];
    h[15] = reserved[1];
    h[16] = 2;
    let root = crate::xtask::image::le::u16_to_le_bytes(512);
    h[17] = root[0];
    h[18] = root[1];
    let small = crate::xtask::image::le::u16_to_le_bytes(0);
    h[19] = small[0];
    h[20] = small[1];
    h[21] = 0xf8;
    let spf = crate::xtask::image::le::u16_to_le_bytes(sectors_per_fat);
    h[22] = spf[0];
    h[23] = spf[1];
    let spt = crate::xtask::image::le::u16_to_le_bytes(63);
    h[24] = spt[0];
    h[25] = spt[1];
    let heads = crate::xtask::image::le::u16_to_le_bytes(255);
    h[26] = heads[0];
    h[27] = heads[1];
    let hidden = crate::xtask::image::le::u32_to_le_bytes(PARTITION_LBA);
    h[28] = hidden[0];
    h[29] = hidden[1];
    h[30] = hidden[2];
    h[31] = hidden[3];
    let total = crate::xtask::image::le::u32_to_le_bytes(total_sectors);
    h[32] = total[0];
    h[33] = total[1];
    h[34] = total[2];
    h[35] = total[3];
    h[36] = 0x80;
    h[38] = 0x29;
    let serial = crate::xtask::image::le::u32_to_le_bytes(0x0d10_0001);
    h[39] = serial[0];
    h[40] = serial[1];
    h[41] = serial[2];
    h[42] = serial[3];
    h[43] = 0x4f;
    h[44] = 0x58;
    h[45] = 0x49;
    h[46] = 0x44;
    h[47] = 0x20;
    h[48] = 0x20;
    h[49] = 0x20;
    h[50] = 0x20;
    h[51] = 0x20;
    h[52] = 0x20;
    h[53] = 0x20;
    h[54] = 0x46;
    h[55] = 0x41;
    h[56] = 0x54;
    h[57] = 0x31;
    h[58] = 0x36;
    h[59] = 0x20;
    h[60] = 0x20;
    h[61] = 0x20;
    assert(h@ =~= boot_sector_head(sectors_per_fat, total_sectors));
    h
}

} // verus!
