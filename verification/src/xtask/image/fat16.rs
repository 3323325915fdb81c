use vstd::prelude::*;

use crate::xtask::image::dir_entry::{entries_bytes, with_entries, write_dir_entries, DirEntry};
use crate::xtask::image::error::ImageError;
use crate::xtask::image::le::{le16, le32, u16_to_le_bytes, u32_to_le_bytes};

verus! {

/// Bytes in a sector.
pub const SECTOR_SIZE: usize = 512;

/// First sector of the FAT partition.
pub const PARTITION_LBA: u32 = 2048;

/// Sectors in one cluster of the partition.
pub const SECTORS_PER_CLUSTER: usize = 4;

/// Entries of the root directory.
pub const ROOT_DIR_ENTRIES: usize = 512;

/// Sectors that the root directory takes: 512 entries of 32 bytes.
pub const ROOT_DIR_SECTORS: usize = 32;

/// Reserved sectors at the start of the partition (the boot sector).
pub const RESERVED_SECTORS: usize = 1;

/// Copies of the FAT.
pub const FAT_COPIES: usize = 2;

/// Value of a FAT entry that ends a cluster chain.
pub const END_OF_CHAIN: u16 = 0xffff;

/// Whether a partition of `ps` sectors leaves room for the FATs and the root
/// directory when each FAT takes `spf` sectors.
pub open spec fn room_for_fats(ps: int, spf: int) -> bool {
    ps - 1 - 2 * spf - 32 >= 0
}

/// Sectors that a FAT needs to map every cluster of a partition of `ps` sectors
/// when each FAT takes `spf` sectors (and the clusters get what is left).
pub open spec fn fat_sectors_for(ps: int, spf: int) -> int {
    let clusters = (ps - 1 - 2 * spf - 32) / 4;
    ((clusters + 2) * 2 + 511) / 512
}

/// The sectors per FAT after `n` rounds of refinement, starting from one.
pub open spec fn fat_sectors_round(ps: int, n: nat) -> int
    decreases n,
{
    if n == 0 {
        1
    } else {
        fat_sectors_for(ps, fat_sectors_round(ps, (n - 1) as nat))
    }
}

/// Refinement reaches a fixed point after `n` rounds, with room for the FATs in
/// every round up to then.
pub open spec fn settles_at(ps: int, n: nat) -> bool {
    &&& forall|j: nat| j <= n ==> room_for_fats(ps, #[trigger] fat_sectors_round(ps, j))
    &&& fat_sectors_for(ps, fat_sectors_round(ps, n)) == fat_sectors_round(ps, n)
}

/// The refinement of the FAT size of a partition of `ps` sectors reaches a fixed
/// point. (For some sizes it alternates between two values forever.)
pub open spec fn layout_settles(ps: int) -> bool {
    exists|n: nat| settles_at(ps, n)
}

/// The sectors per FAT that the refinement settles on.
pub open spec fn settled_fat_sectors(ps: int) -> int {
    fat_sectors_round(ps, choose|n: nat| settles_at(ps, n))
}

/// Whether an image of `size` bytes can be laid out: it is refused where it is not
/// sector-aligned, and otherwise needs a partition whose FAT size settles.
pub open spec fn image_size_accepted(size: int) -> bool {
    size % 512 == 0 ==> size / 512 >= 2048 && layout_settles(size / 512 - 2048)
}

/// Once the refinement is at a fixed point it stays there.
proof fn lemma_rounds_stay(ps: int, n: nat, m: nat)
    requires
        n <= m,
        fat_sectors_for(ps, fat_sectors_round(ps, n)) == fat_sectors_round(ps, n),
    ensures
        fat_sectors_round(ps, m) == fat_sectors_round(ps, n),
    decreases m - n,
{
    if m > n {
        lemma_rounds_stay(ps, n, (m - 1) as nat);
    }
}

/// One round of refinement of the FAT size.
fn fat_sectors_needed(partition_sectors: usize, sectors_per_fat: usize) -> (r: usize)
    requires
        room_for_fats(partition_sectors as int, sectors_per_fat as int),
    ensures
        r == fat_sectors_for(partition_sectors as int, sectors_per_fat as int),
{
    let data_sectors = partition_sectors - RESERVED_SECTORS - FAT_COPIES * sectors_per_fat
        - ROOT_DIR_SECTORS;
    let clusters = data_sectors / SECTORS_PER_CLUSTER;
    ((clusters + 2) * 2 + (SECTOR_SIZE - 1)) / SECTOR_SIZE
}

/// Whether the FAT size of a partition of `partition_sectors` sectors settles
/// within `max_rounds` rounds of refinement, with room for the FATs all along.
pub fn fat_layout_settles(partition_sectors: usize, max_rounds: usize) -> (r: bool)
    ensures
        r == exists|n: nat| n <= max_rounds && #[trigger] settles_at(partition_sectors as int, n),
        r ==> layout_settles(partition_sectors as int),
{
    let ghost ps = partition_sectors as int;
    let mut spf: usize = 1;
    let mut round: usize = 0;
    while round <= max_rounds
        invariant
            ps == partition_sectors as int,
            round <= max_rounds,
            spf == fat_sectors_round(ps, round as nat),
            forall|j: nat| j < round ==> room_for_fats(ps, #[trigger] fat_sectors_round(ps, j)),
            forall|j: nat|
                j < round ==> fat_sectors_for(ps, #[trigger] fat_sectors_round(ps, j))
                    != fat_sectors_round(ps, j),
        decreases max_rounds + 1 - round,
    {
        if partition_sectors < RESERVED_SECTORS + ROOT_DIR_SECTORS || (partition_sectors
            - RESERVED_SECTORS - ROOT_DIR_SECTORS) / FAT_COPIES < spf {
            proof {
                assert forall|n: nat| n <= max_rounds implies !#[trigger] settles_at(ps, n) by {
                    if n >= round {
                        assert(!room_for_fats(ps, fat_sectors_round(ps, round as nat)));
                    } else {
                        assert(fat_sectors_for(ps, fat_sectors_round(ps, n))
                            != fat_sectors_round(ps, n));
                    }
                }
            }
            return false;
        }
        assert(room_for_fats(ps, fat_sectors_round(ps, round as nat)));
        assert forall|j: nat| j <= round implies room_for_fats(
            ps,
            #[trigger] fat_sectors_round(ps, j),
        ) by {
            if j < round {
            }
        }
        let required = fat_sectors_needed(partition_sectors, spf);
        if required == spf {
            proof {
                assert(settles_at(ps, round as nat));
            }
            return true;
        }
        if round == max_rounds {
            proof {
                assert forall|n: nat| n <= max_rounds implies !#[trigger] settles_at(ps, n) by {
                    if n < round {
                        assert(fat_sectors_for(ps, fat_sectors_round(ps, n))
                            != fat_sectors_round(ps, n));
                    }
                }
            }
            return false;
        }
        spf = required;
        round = round + 1;
    }
    false
}

/// Byte offset of the first byte of a cluster, where the data area starts at
/// sector `data_start`.
pub open spec fn cluster_offset_in(data_start: int, cluster: int) -> int {
    (data_start + (cluster - 2) * 4) * 512
}

/// Byte offset of the entry of a cluster in one copy of the FAT, where the first
/// FAT starts at sector `fat_start` and each takes `spf` sectors.
pub open spec fn fat_entry_offset(fat_start: int, spf: int, copy: int, cluster: int) -> int {
    (fat_start + copy * spf) * 512 + cluster * 2
}

/// The FAT value of cluster `c` in a chain of `k` clusters from `first`: the
/// next cluster, or the end-of-chain mark for the last one.
pub open spec fn chain_next(first: int, k: int, c: int) -> u16 {
    if c + 1 < first + k {
        (c + 1) as u16
    } else {
        END_OF_CHAIN
    }
}

/// Byte `p` of a copy of the FAT that starts at `fat` once the entries of the
/// clusters `first..first + n` were set to their values in a chain of `k`.
pub open spec fn chain_byte(fat: int, first: int, n: int, k: int, p: int, old_byte: u8) -> u8 {
    if fat + 2 * first <= p < fat + 2 * (first + n) {
        le16(chain_next(first, k, (p - fat) / 2))[(p - fat) % 2]
    } else {
        old_byte
    }
}

/// The image bytes `b` after the FAT entries of the clusters `first..first + n`
/// were set, in both copies, to their values in a chain of `k` clusters.
#[verifier::opaque]
pub open spec fn chained(fat_start: int, spf: int, b: Seq<u8>, first: int, n: int, k: int) -> Seq<u8> {
    let f0 = fat_entry_offset(fat_start, spf, 0, 0);
    let f1 = fat_entry_offset(fat_start, spf, 1, 0);
    Seq::new(
        b.len(),
        |p: int| chain_byte(f1, first, n, k, p, chain_byte(f0, first, n, k, p, b[p])),
    )
}

/// The image bytes `b` after a file with content `data` was stored in the `k`
/// clusters from `first`: the clusters chained in both FATs, the content at the
/// start of the first cluster, the rest of the last cluster as it was.
#[verifier::opaque]
pub open spec fn stored(
    fat_start: int,
    spf: int,
    data_start: int,
    b: Seq<u8>,
    first: int,
    k: int,
    data: Seq<u8>,
) -> Seq<u8> {
    let c = chained(fat_start, spf, b, first, k, k);
    let d = cluster_offset_in(data_start, first);
    Seq::new(
        b.len(),
        |p: int|
            if d <= p < d + data.len() {
                data[p - d]
            } else {
                c[p]
            },
    )
}

/// The clusters that a file of `len` bytes takes: one per 2048 bytes, and at
/// least one.
pub open spec fn clusters_for(len: int) -> int {
    let n = if len < 1 {
        1
    } else {
        len
    };
    (n + 2047) / 2048
}

/// A FAT16 disk image under construction: an MBR with one partition starting at
/// sector 2048, holding a boot sector, two FATs, the root directory and the data
/// clusters.
pub struct Fat16Image {
    pub bytes: Vec<u8>,
    pub partition_start: usize,
    pub fat_start: usize,
    pub sectors_per_fat: usize,
    pub root_dir_start: usize,
    pub root_dir_sectors: usize,
    pub data_start: usize,
    pub sectors_per_cluster: usize,
    pub next_cluster: u16,
}

impl Fat16Image {
    /// Sectors of the whole image.
    pub open spec fn total_sectors(&self) -> int {
        (self.bytes@.len() / 512) as int
    }

    /// Sectors of the partition.
    pub open spec fn partition_sectors(&self) -> int {
        self.total_sectors() - self.partition_start
    }

    /// Data clusters of the partition.
    pub open spec fn cluster_count(&self) -> int {
        (self.total_sectors() - self.data_start) / 4
    }

    /// Byte offset of the first byte of a cluster.
    pub open spec fn cluster_start(&self, cluster: int) -> int {
        cluster_offset_in(self.data_start as int, cluster)
    }

    /// Byte offset of the entry of a cluster in one copy of the FAT.
    pub open spec fn fat_entry_at(&self, copy: int, cluster: int) -> int {
        fat_entry_offset(self.fat_start as int, self.sectors_per_fat as int, copy, cluster)
    }

    /// The layout of an image: the partition at sector 2048, one reserved sector,
    /// two FATs, the root directory and the data clusters in that order, FATs large
    /// enough to map every cluster, and the clusters handed out so far inside the
    /// data area.
    pub open spec fn wf(&self) -> bool {
        &&& self.wf_layout()
        &&& 2 <= self.next_cluster
        &&& (self.next_cluster <= self.cluster_count() + 2 || self.next_cluster == 0xffff)
    }

    /// The layout part of `wf`, which says nothing of the clusters handed out.
    pub open spec fn wf_layout(&self) -> bool {
        &&& self.bytes@.len() % 512 == 0
        &&& self.bytes@.len() <= usize::MAX
        &&& self.partition_start == 2048
        &&& self.sectors_per_cluster == 4
        &&& self.root_dir_sectors == 32
        &&& self.fat_start == 2049
        &&& self.root_dir_start == self.fat_start + 2 * self.sectors_per_fat
        &&& self.data_start == self.root_dir_start + 32
        &&& self.data_start <= self.total_sectors()
        &&& (self.cluster_count() + 2) * 2 <= self.sectors_per_fat * 512
    }

    /// Lays out an image of `size` bytes, all of them zero. The FAT size is refined
    /// until it maps exactly the clusters that remain beside it.
    pub fn new(size: usize) -> (r: Result<Self, ImageError>)
        requires
            image_size_accepted(size as int),
        ensures
            size % 512 != 0 <==> r is Err,
            r is Err ==> r == Err::<Self, ImageError>(ImageError::UnalignedSize),
            r matches Ok(img) ==> {
                &&& img.wf()
                &&& img.bytes@ == Seq::new(size as nat, |i: int| 0u8)
                &&& img.sectors_per_fat == settled_fat_sectors(size / 512 - 2048)
                &&& img.next_cluster == 2
            },
    {
        if size % SECTOR_SIZE != 0 {
            return Err(ImageError::UnalignedSize);
        }
        let partition_start = PARTITION_LBA as usize;
        let partition_sectors = size / SECTOR_SIZE - partition_start;
        let ghost ps = partition_sectors as int;
        let ghost n0: nat = choose|n: nat| settles_at(ps, n);
        let mut sectors_per_fat: usize = 1;
        let ghost mut round: nat = 0;
        proof {
            assert(room_for_fats(ps, fat_sectors_round(ps, 0)));
        }
        let mut required = fat_sectors_needed(partition_sectors, sectors_per_fat);
        while required != sectors_per_fat
            invariant
                ps == partition_sectors,
                settles_at(ps, n0),
                round <= n0,
                sectors_per_fat == fat_sectors_round(ps, round),
                required == fat_sectors_for(ps, sectors_per_fat as int),
                forall|j: nat|
                    j < round ==> fat_sectors_for(ps, #[trigger] fat_sectors_round(ps, j))
                        != fat_sectors_round(ps, j),
            decreases n0 - round,
        {
            proof {
                assert(round != n0);
                assert(room_for_fats(ps, fat_sectors_round(ps, round + 1)));
            }
            sectors_per_fat = required;
            proof {
                round = round + 1;
            }
            required = fat_sectors_needed(partition_sectors, sectors_per_fat);
        }
        proof {
            let nc = choose|n: nat| settles_at(ps, n);
            if nc < round {
                assert(fat_sectors_for(ps, fat_sectors_round(ps, nc)) != fat_sectors_round(ps, nc));
            }
            lemma_rounds_stay(ps, round, nc);
        }
        let fat_start = partition_start + RESERVED_SECTORS;
        let root_dir_start = fat_start + FAT_COPIES * sectors_per_fat;
        let data_start = root_dir_start + ROOT_DIR_SECTORS;
        let bytes = vec![0u8; size];
        proof {
            assert(bytes@ =~= Seq::new(size as nat, |i: int| 0u8));
            let clusters = (ps - 1 - 2 * sectors_per_fat - 32) / 4;
            assert(sectors_per_fat == ((clusters + 2) * 2 + 511) / 512);
            assert((clusters + 2) * 2 <= sectors_per_fat * 512) by (nonlinear_arith)
                requires
                    sectors_per_fat == ((clusters + 2) * 2 + 511) / 512,
                    clusters >= 0,
            ;
        }
        Ok(
            Self {
                bytes,
                partition_start,
                fat_start,
                sectors_per_fat,
                root_dir_start,
                root_dir_sectors: ROOT_DIR_SECTORS,
                data_start,
                sectors_per_cluster: SECTORS_PER_CLUSTER,
                next_cluster: 2,
            },
        )
    }

    /// The fields that only the layout decides are those of `other`.
    pub open spec fn same_layout(&self, other: &Self) -> bool {
        &&& self.bytes@.len() == other.bytes@.len()
        &&& self.partition_start == other.partition_start
        &&& self.fat_start == other.fat_start
        &&& self.sectors_per_fat == other.sectors_per_fat
        &&& self.root_dir_start == other.root_dir_start
        &&& self.root_dir_sectors == other.root_dir_sectors
        &&& self.data_start == other.data_start
        &&& self.sectors_per_cluster == other.sectors_per_cluster
    }

    /// Byte offset of the first byte of a data cluster.
    pub fn cluster_offset(&self, cluster: u16) -> (r: usize)
        requires
            self.wf(),
            2 <= cluster < self.cluster_count() + 2,
        ensures
            r == self.cluster_start(cluster as int),
            r + 2048 <= self.bytes@.len(),
    {
        proof {
            assert((self.data_start + (cluster - 2) * 4 + 4) * 512 <= self.bytes@.len()) by (
            nonlinear_arith)
                requires
                    cluster - 2 < (self.bytes@.len() / 512 - self.data_start) / 4,
                    self.bytes@.len() % 512 == 0,
                    self.data_start <= self.bytes@.len() / 512,
            ;
        }
        assert((self.data_start + (cluster - 2) * 4) * 512 <= (self.data_start + (cluster - 2) * 4
            + 4) * 512);
        let sector = self.data_start + (cluster as usize - 2) * self.sectors_per_cluster;
        sector * SECTOR_SIZE
    }

    /// Writes a 16-bit value little-endian at `offset`.
    pub fn write_u16(&mut self, offset: usize, value: u16)
        requires
            offset + 2 <= old(self).bytes@.len(),
        ensures
            final(self).bytes@ == old(self).bytes@.update(offset as int, le16(value)[0]).update(
                offset + 1,
                le16(value)[1],
            ),
            final(self).same_layout(old(self)),
            final(self).next_cluster == old(self).next_cluster,
    {
        // Asking for the length brings in that it fits a `usize`.
        let _len = self.bytes.len();
        let b = u16_to_le_bytes(value);
        self.bytes.set(offset, b[0]);
        self.bytes.set(offset + 1, b[1]);
    }

    /// Writes a 32-bit value little-endian at `offset`.
    pub fn write_u32(&mut self, offset: usize, value: u32)
        requires
            offset + 4 <= old(self).bytes@.len(),
        ensures
            forall|p: int|
                0 <= p < final(self).bytes@.len() ==> #[trigger] final(self).bytes@[p] == if offset
                    <= p < offset + 4 {
                    le32(value)[p - offset]
                } else {
                    old(self).bytes@[p]
                },
            final(self).same_layout(old(self)),
            final(self).next_cluster == old(self).next_cluster,
    {
        // Asking for the length brings in that it fits a `usize`.
        let _len = self.bytes.len();
        let b = u32_to_le_bytes(value);
        self.bytes.set(offset, b[0]);
        self.bytes.set(offset + 1, b[1]);
        self.bytes.set(offset + 2, b[2]);
        self.bytes.set(offset + 3, b[3]);
    }

    /// Sets the entry of `cluster` in both copies of the FAT.
    pub fn set_fat_entry(&mut self, cluster: u16, value: u16)
        requires
            old(self).wf(),
            cluster < old(self).cluster_count() + 2,
        ensures
            final(self).wf(),
            final(self).bytes@ == old(self).bytes@.update(
                old(self).fat_entry_at(0, cluster as int),
                le16(value)[0],
            ).update(old(self).fat_entry_at(0, cluster as int) + 1, le16(value)[1]).update(
                old(self).fat_entry_at(1, cluster as int),
                le16(value)[0],
            ).update(old(self).fat_entry_at(1, cluster as int) + 1, le16(value)[1]),
            final(self).same_layout(old(self)),
            final(self).next_cluster == old(self).next_cluster,
    {
        let ghost b0 = self.bytes@;
        proof {
            assert(self.fat_entry_at(1, cluster as int) + 2 <= self.root_dir_start * 512) by (
            nonlinear_arith)
                requires
                    cluster < self.cluster_count() + 2,
                    (self.cluster_count() + 2) * 2 <= self.sectors_per_fat * 512,
                    self.root_dir_start == self.fat_start + 2 * self.sectors_per_fat,
            ;
            assert(self.root_dir_start * 512 <= self.bytes@.len()) by (nonlinear_arith)
                requires
                    self.root_dir_start <= self.data_start,
                    self.data_start <= self.bytes@.len() / 512,
            ;
        }
        assert(self.fat_entry_at(1, cluster as int) + 2 <= self.bytes@.len());
        let mut fat: usize = 0;
        while fat < 2
            invariant
                fat <= 2,
                self.wf(),
                cluster < self.cluster_count() + 2,
                self.same_layout(&*old(self)),
                self.next_cluster == old(self).next_cluster,
                self.fat_entry_at(1, cluster as int) + 2 <= self.bytes@.len(),
                b0 == old(self).bytes@,
                fat == 0 ==> self.bytes@ == b0,
                fat == 1 ==> self.bytes@ == b0.update(
                    old(self).fat_entry_at(0, cluster as int),
                    le16(value)[0],
                ).update(old(self).fat_entry_at(0, cluster as int) + 1, le16(value)[1]),
                fat == 2 ==> self.bytes@ == b0.update(
                    old(self).fat_entry_at(0, cluster as int),
                    le16(value)[0],
                ).update(old(self).fat_entry_at(0, cluster as int) + 1, le16(value)[1]).update(
                    old(self).fat_entry_at(1, cluster as int),
                    le16(value)[0],
                ).update(old(self).fat_entry_at(1, cluster as int) + 1, le16(value)[1]),
            decreases 2 - fat,
        {
            proof {
                assert(self.fat_entry_at(fat as int, cluster as int) <= self.fat_entry_at(
                    1,
                    cluster as int,
                )) by (nonlinear_arith)
                    requires
                        fat <= 1,
                        self.sectors_per_fat >= 0,
                ;
            }
            assert(fat * self.sectors_per_fat <= self.sectors_per_fat) by (nonlinear_arith)
                requires
                    fat <= 1,
            ;
            assert((self.fat_start + fat * self.sectors_per_fat) * 512 <= self.fat_entry_at(
                fat as int,
                cluster as int,
            ));
            let offset = (self.fat_start + fat * self.sectors_per_fat) * SECTOR_SIZE
                + cluster as usize * 2;
            self.write_u16(offset, value);
            fat = fat + 1;
        }
    }

    /// Hands out the next `count` clusters, in increasing order. Cluster numbers
    /// run out at 0xffff.
    pub fn allocate_clusters(&mut self, count: usize) -> (r: Result<Vec<u16>, ImageError>)
        requires
            old(self).wf(),
            old(self).next_cluster + count <= old(self).cluster_count() + 2 || old(self).next_cluster
                + count > 0xffff,
        ensures
            final(self).wf(),
            final(self).same_layout(old(self)),
            final(self).bytes@ == old(self).bytes@,
            old(self).next_cluster + count > 0xffff <==> r is Err,
            r is Err ==> r == Err::<Vec<u16>, ImageError>(ImageError::OutOfClusters)
                && final(self).next_cluster == 0xffff,
            r matches Ok(v) ==> {
                &&& v@ == Seq::new(count as nat, |i: int| (old(self).next_cluster + i) as u16)
                &&& final(self).next_cluster == old(self).next_cluster + count
            },
    {
        let mut clusters: Vec<u16> = Vec::new();
        let mut i: usize = 0;
        while i < count
            invariant
                i <= count,
                self.wf_layout(),
                old(self).wf(),
                2 <= self.next_cluster,
                self.same_layout(&*old(self)),
                self.bytes@ == old(self).bytes@,
                self.next_cluster == old(self).next_cluster + i,
                old(self).next_cluster + count <= old(self).cluster_count() + 2 || old(
                    self,
                ).next_cluster + count > 0xffff,
                clusters@ == Seq::new(i as nat, |k: int| (old(self).next_cluster + k) as u16),
            decreases count - i,
        {
            if self.next_cluster == u16::MAX {
                return Err(ImageError::OutOfClusters);
            }
            clusters.push(self.next_cluster);
            self.next_cluster = self.next_cluster + 1;
            i = i + 1;
            assert(clusters@ =~= Seq::new(i as nat, |k: int| (old(self).next_cluster + k) as u16));
        }
        Ok(clusters)
    }

    /// The image bytes `b` after the FAT entries of the clusters `first..first + n`
    /// were set, in both copies, to their values in a chain of `k` clusters.
    pub open spec fn with_chain(&self, b: Seq<u8>, first: int, n: int, k: int) -> Seq<u8> {
        chained(self.fat_start as int, self.sectors_per_fat as int, b, first, n, k)
    }

    /// The image bytes `b` after a file with content `data` was stored in the `k`
    /// clusters from `first`.
    pub open spec fn with_file(&self, b: Seq<u8>, first: int, k: int, data: Seq<u8>) -> Seq<u8> {
        stored(self.fat_start as int, self.sectors_per_fat as int, self.data_start as int, b, first, k, data)
    }

    /// Chains the `k` clusters from `first` in both copies of the FAT.
    fn chain_clusters(&mut self, first: u16, k: usize)
        requires
            old(self).wf(),
            1 <= k,
            2 <= first,
            first + k <= old(self).cluster_count() + 2,
            first + k <= 0xffff,
        ensures
            final(self).wf(),
            final(self).same_layout(old(self)),
            final(self).next_cluster == old(self).next_cluster,
            final(self).bytes@ == old(self).with_chain(old(self).bytes@, first as int, k as int, k as int),
    {
        reveal(chained);
        let ghost old_img = *self;
        let ghost b0 = self.bytes@;
        assert(self.with_chain(b0, first as int, 0, k as int) =~= b0);
        let mut i: usize = 0;
        while i + 1 < k
            invariant
                self.wf(),
                self.same_layout(&old_img),
                old_img.wf(),
                b0 == old_img.bytes@,
                1 <= k,
                2 <= first,
                first + k <= self.cluster_count() + 2,
                first + k <= 0xffff,
                self.next_cluster == old_img.next_cluster,
                i + 1 <= k,
                self.bytes@ == old_img.with_chain(b0, first as int, i as int, k as int),
            decreases k - i,
        {
            let c = first + i as u16;
            let next = c + 1;
            self.set_fat_entry(c, next);
            proof {
                reveal(chained);
                assert(chain_next(first as int, k as int, c as int) == next);
                assert(self.bytes@ =~= old_img.with_chain(b0, first as int, i + 1, k as int));
            }
            i = i + 1;
        }
        let last = first + (k - 1) as u16;
        self.set_fat_entry(last, END_OF_CHAIN);
        proof {
            reveal(chained);
            assert(chain_next(first as int, k as int, last as int) == END_OF_CHAIN);
            assert(self.bytes@ =~= old_img.with_chain(b0, first as int, k as int, k as int));
        }
    }

    /// Copies `data` into the image at `start`.
    fn copy_bytes(&mut self, start: usize, data: &[u8])
        requires
            start + data@.len() <= old(self).bytes@.len(),
        ensures
            final(self).same_layout(old(self)),
            final(self).next_cluster == old(self).next_cluster,
            final(self).bytes@ == Seq::new(
                old(self).bytes@.len(),
                |p: int|
                    if start <= p < start + data@.len() {
                        data@[p - start]
                    } else {
                        old(self).bytes@[p]
                    },
            ),
    {
        let ghost b0 = self.bytes@;
        // Asking for the length brings in that it fits a `usize`.
        let _len = self.bytes.len();
        let len = data.len();
        let mut j: usize = 0;
        while j < len
            invariant
                j <= len == data@.len(),
                start + len <= self.bytes@.len(),
                self.bytes@.len() <= usize::MAX,
                self.same_layout(&*old(self)),
                self.next_cluster == old(self).next_cluster,
                b0 == old(self).bytes@,
                forall|p: int|
                    0 <= p < self.bytes@.len() ==> #[trigger] self.bytes@[p] == if start <= p < start
                        + j {
                        data@[p - start]
                    } else {
                        b0[p]
                    },
            decreases len - j,
        {
            self.bytes.set(start + j, data[j]);
            j = j + 1;
        }
        assert(self.bytes@ =~= Seq::new(
            old(self).bytes@.len(),
            |p: int|
                if start <= p < start + data@.len() {
                    data@[p - start]
                } else {
                    old(self).bytes@[p]
                },
        ));
    }

    /// Stores a file's content in fresh clusters, chained in the FAT, and returns
    /// the first of them.
    pub fn write_file_data(&mut self, data: &[u8]) -> (r: Result<u16, ImageError>)
        requires
            old(self).wf(),
            old(self).next_cluster + clusters_for(data@.len() as int) <= old(self).cluster_count()
                + 2 || old(self).next_cluster + clusters_for(data@.len() as int) > 0xffff,
        ensures
            final(self).wf(),
            final(self).same_layout(old(self)),
            old(self).next_cluster + clusters_for(data@.len() as int) > 0xffff <==> r is Err,
            r is Err ==> r == Err::<u16, ImageError>(ImageError::OutOfClusters),
            r is Err ==> final(self).bytes@ == old(self).bytes@ && final(self).next_cluster
                == 0xffff,
            r matches Ok(first) ==> {
                let k = clusters_for(data@.len() as int);
                &&& first == old(self).next_cluster
                &&& final(self).next_cluster == old(self).next_cluster + k
                &&& final(self).bytes@ == old(self).with_file(
                    old(self).bytes@,
                    first as int,
                    k,
                    data@,
                )
            },
    {
        let len = data.len();
        let bytes_per_cluster = self.sectors_per_cluster * SECTOR_SIZE;
        let n = if len < 1 {
            1
        } else {
            len
        };
        let cluster_count = n / bytes_per_cluster + if n % bytes_per_cluster != 0 {
            1
        } else {
            0
        };
        assert(cluster_count == clusters_for(len as int));
        let ghost old_img = *self;
        let clusters = match self.allocate_clusters(cluster_count) {
            Ok(c) => c,
            Err(e) => {
                return Err(e);
            },
        };
        let first = clusters[0];
        proof {
            assert(clusters@[0] == first);
        }
        let ghost b0 = self.bytes@;
        let ghost chained_img = *self;
        self.chain_clusters(first, cluster_count);
        let start = self.cluster_offset(first);
        proof {
            let k = cluster_count as int;
            assert(start + len <= self.bytes@.len()) by (nonlinear_arith)
                requires
                    start == self.cluster_start(first as int),
                    self.cluster_start(first as int) == (self.data_start + (first - 2) * 4) * 512,
                    first + k <= self.cluster_count() + 2,
                    self.cluster_count() == (self.bytes@.len() / 512 - self.data_start) / 4,
                    self.bytes@.len() % 512 == 0,
                    self.data_start <= self.bytes@.len() / 512,
                    k == (n + 2047) / 2048,
                    len <= n,
            ;
        }
        let ghost chained = self.bytes@;
        self.copy_bytes(start, data);
        proof {
            reveal(stored);
            assert(old_img.with_chain(b0, first as int, cluster_count as int, cluster_count as int)
                == chained);
            assert(self.bytes@ =~= old_img.with_file(b0, first as int, cluster_count as int, data@));
        }
        Ok(first)
    }

    /// Hands out one cluster for a directory; the cluster of a directory directly
    /// under the root (`parent` 0) is also marked as the end of its chain.
    pub fn allocate_directory_cluster(&mut self, parent: u16) -> (r: Result<u16, ImageError>)
        requires
            old(self).wf(),
            old(self).next_cluster + 1 <= old(self).cluster_count() + 2 || old(self).next_cluster
                == 0xffff,
        ensures
            final(self).wf(),
            final(self).same_layout(old(self)),
            old(self).next_cluster == 0xffff <==> r is Err,
            r is Err ==> r == Err::<u16, ImageError>(ImageError::OutOfClusters),
            r is Err ==> final(self).bytes@ == old(self).bytes@ && final(self).next_cluster
                == 0xffff,
            r matches Ok(c) ==> {
                &&& c == old(self).next_cluster
                &&& final(self).next_cluster == c + 1
                &&& final(self).bytes@ == if parent == 0 {
                    old(self).with_chain(old(self).bytes@, c as int, 1, 1)
                } else {
                    old(self).bytes@
                }
            },
    {
        let clusters = match self.allocate_clusters(1) {
            Ok(c) => c,
            Err(e) => {
                return Err(e);
            },
        };
        let cluster = clusters[0];
        if parent == 0 {
            let ghost before = *self;
            self.set_fat_entry(cluster, END_OF_CHAIN);
            proof {
                reveal(chained);
                assert(chain_next(cluster as int, 1, cluster as int) == END_OF_CHAIN);
                assert(self.bytes@ =~= before.with_chain(before.bytes@, cluster as int, 1, 1));
            }
        }
        Ok(cluster)
    }

    /// Byte offset of the root directory.
    pub open spec fn root_dir_offset(&self) -> int {
        self.root_dir_start * 512
    }

    /// Writes the entries of the root directory.
    pub fn write_root_dir(&mut self, entries: &[DirEntry]) -> (r: Result<(), ImageError>)
        requires
            old(self).wf(),
            32 * entries@.len() + 32 <= usize::MAX,
        ensures
            final(self).wf(),
            final(self).same_layout(old(self)),
            final(self).next_cluster == old(self).next_cluster,
            r is Ok <==> 32 * entries@.len() + 32 <= 32 * 512,
            r is Err ==> r == Err::<(), ImageError>(ImageError::DirectoryFull),
            r is Err ==> final(self).bytes@ == old(self).bytes@,
            r is Ok ==> final(self).bytes@ == with_entries(
                old(self).bytes@,
                old(self).root_dir_offset(),
                entries_bytes(entries@),
            ),
    {
        proof {
            assert((self.root_dir_start + 32) * 512 <= self.bytes@.len()) by (nonlinear_arith)
                requires
                    self.root_dir_start + 32 == self.data_start,
                    self.data_start <= self.bytes@.len() / 512,
            ;
        }
        let start = self.root_dir_start * SECTOR_SIZE;
        let capacity = self.root_dir_sectors * SECTOR_SIZE;
        write_dir_entries(&mut self.bytes, start, capacity, entries)
    }

    /// Writes the entries of a subdirectory into its cluster.
    pub fn write_cluster_dir(&mut self, cluster: u16, entries: &[DirEntry]) -> (r: Result<
        (),
        ImageError,
    >)
        requires
            old(self).wf(),
            2 <= cluster < old(self).cluster_count() + 2,
            32 * entries@.len() + 32 <= usize::MAX,
        ensures
            final(self).wf(),
            final(self).same_layout(old(self)),
            final(self).next_cluster == old(self).next_cluster,
            r is Ok <==> 32 * entries@.len() + 32 <= 2048,
            r is Err ==> r == Err::<(), ImageError>(ImageError::DirectoryFull),
            r is Err ==> final(self).bytes@ == old(self).bytes@,
            r is Ok ==> final(self).bytes@ == with_entries(
                old(self).bytes@,
                old(self).cluster_start(cluster as int),
                entries_bytes(entries@),
            ),
    {
        let start = self.cluster_offset(cluster);
        let capacity = self.sectors_per_cluster * SECTOR_SIZE;
        write_dir_entries(&mut self.bytes, start, capacity, entries)
    }

    /// Marks the two reserved entries at the head of both FATs: the media byte
    /// entry 0xfff8 and the end-of-chain entry 0xffff.
    pub fn init_fats(&mut self)
        requires
            old(self).wf(),
        ensures
            final(self).wf(),
            final(self).same_layout(old(self)),
            final(self).next_cluster == old(self).next_cluster,
            final(self).bytes@ == old(self).bytes@.update(
                old(self).fat_entry_at(0, 0),
                le16(0xfff8)[0],
            ).update(old(self).fat_entry_at(0, 0) + 1, le16(0xfff8)[1]).update(
                old(self).fat_entry_at(1, 0),
                le16(0xfff8)[0],
            ).update(old(self).fat_entry_at(1, 0) + 1, le16(0xfff8)[1]).update(
                old(self).fat_entry_at(0, 1),
                le16(0xffff)[0],
            ).update(old(self).fat_entry_at(0, 1) + 1, le16(0xffff)[1]).update(
                old(self).fat_entry_at(1, 1),
                le16(0xffff)[0],
            ).update(old(self).fat_entry_at(1, 1) + 1, le16(0xffff)[1]),
    {
        self.set_fat_entry(0, 0xfff8);
        self.set_fat_entry(1, 0xffff);
    }
}

} // verus!
