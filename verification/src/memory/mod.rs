use vstd::prelude::*;

verus! {

/// What a region of physical memory is used for, as the bootloader reports it.
#[derive(Debug, Clone, Copy, PartialEq, Eq, Structural)]
pub enum MemoryRegionKind {
    Usable,
    Reserved,
    AcpiReclaimable,
    AcpiNvs,
    BadMemory,
    BootloaderReclaimable,
    KernelAndModules,
    Framebuffer,
    ReservedMapped,
    Unknown(u64),
}

/// The kind that a Limine memory map type number stands for.
pub open spec fn limine_kind(value: u64) -> MemoryRegionKind {
    if value == 0 {
        MemoryRegionKind::Usable
    } else if value == 1 {
        MemoryRegionKind::Reserved
    } else if value == 2 {
        MemoryRegionKind::AcpiReclaimable
    } else if value == 3 {
        MemoryRegionKind::AcpiNvs
    } else if value == 4 {
        MemoryRegionKind::BadMemory
    } else if value == 5 {
        MemoryRegionKind::BootloaderReclaimable
    } else if value == 6 {
        MemoryRegionKind::KernelAndModules
    } else if value == 7 {
        MemoryRegionKind::Framebuffer
    } else if value == 8 {
        MemoryRegionKind::ReservedMapped
    } else {
        MemoryRegionKind::Unknown(value)
    }
}

impl MemoryRegionKind {
    /// The kind of a Limine memory map type number; numbers past 8 are kept as
    /// unknown kinds.
    pub fn from_limine(value: u64) -> (k: Self)
        ensures
            k == limine_kind(value),
    {
        match value {
            0 => Self::Usable,
            1 => Self::Reserved,
            2 => Self::AcpiReclaimable,
            3 => Self::AcpiNvs,
            4 => Self::BadMemory,
            5 => Self::BootloaderReclaimable,
            6 => Self::KernelAndModules,
            7 => Self::Framebuffer,
            8 => Self::ReservedMapped,
            other => Self::Unknown(other),
        }
    }
}

/// Different Limine type numbers give different kinds.
pub proof fn lemma_from_limine_injective(a: u64, b: u64)
    requires
        limine_kind(a) == limine_kind(b),
    ensures
        a == b,
{
}

/// A region of physical memory.
#[derive(Debug, Clone, Copy, PartialEq, Eq, Structural)]
pub struct MemoryRegion {
    pub base: u64,
    pub length: u64,
    pub kind: MemoryRegionKind,
}

impl MemoryRegion {
    /// An empty reserved region at address 0.
    pub fn empty() -> (r: Self)
        ensures
            r == (MemoryRegion { base: 0, length: 0, kind: MemoryRegionKind::Reserved }),
    {
        Self { base: 0, length: 0, kind: MemoryRegionKind::Reserved }
    }
}

/// The bytes of the usable regions among `regions`, added up.
pub open spec fn usable_total(regions: Seq<MemoryRegion>) -> int
    decreases regions.len(),
{
    if regions.len() == 0 {
        0
    } else {
        usable_total(regions.drop_last()) + if regions.last().kind == MemoryRegionKind::Usable {
            regions.last().length as int
        } else {
            0
        }
    }
}

/// The memory map that the bootloader hands over.
pub struct MemoryMap {
    entries: Vec<MemoryRegion>,
}

impl View for MemoryMap {
    type V = Seq<MemoryRegion>;

    closed spec fn view(&self) -> Seq<MemoryRegion> {
        self.entries@
    }
}

impl MemoryMap {
    /// A map without regions.
    pub fn empty() -> (m: Self)
        ensures
            m@ == Seq::<MemoryRegion>::empty(),
    {
        Self { entries: Vec::new() }
    }

    /// A map of the given regions.
    pub fn new(entries: &[MemoryRegion]) -> (m: Self)
        ensures
            m@ == entries@,
    {
        let mut v: Vec<MemoryRegion> = Vec::new();
        let mut i: usize = 0;
        while i < entries.len()
            invariant
                i <= entries@.len(),
                v@ == entries@.take(i as int),
            decreases entries@.len() - i,
        {
            v.push(entries[i]);
            i = i + 1;
            assert(v@ =~= entries@.take(i as int));
        }
        assert(entries@.take(entries@.len() as int) =~= entries@);
        Self { entries: v }
    }

    /// The regions of the map.
    pub fn entries(&self) -> (r: &[MemoryRegion])
        ensures
            r@ == self@,
    {
        self.entries.as_slice()
    }

    /// The bytes of all usable regions.
    pub fn total_usable_bytes(&self) -> (total: u64)
        requires
            usable_total(self@) <= u64::MAX,
        ensures
            total == usable_total(self@),
    {
        let mut total: u64 = 0;
        let mut i: usize = 0;
        while i < self.entries.len()
            invariant
                i <= self@.len(),
                usable_total(self@) <= u64::MAX,
                total == usable_total(self@.take(i as int)),
            decreases self@.len() - i,
        {
            assert(self@.take(i + 1).drop_last() =~= self@.take(i as int));
            proof {
                lemma_usable_total_prefix(self@, i + 1);
            }
            let entry = self.entries[i];
            if entry.kind == MemoryRegionKind::Usable {
                total = total + entry.length;
            }
            i = i + 1;
        }
        assert(self@.take(self@.len() as int) =~= self@);
        total
    }
}

/// The usable bytes of a prefix are no more than those of the whole map.
pub proof fn lemma_usable_total_prefix(regions: Seq<MemoryRegion>, k: int)
    requires
        0 <= k <= regions.len(),
    ensures
        0 <= usable_total(regions.take(k)) <= usable_total(regions),
    decreases regions.len() - k,
{
    lemma_usable_total_nonneg(regions.take(k));
    if k < regions.len() {
        assert(regions.take(k + 1).drop_last() =~= regions.take(k));
        lemma_usable_total_prefix(regions, k + 1);
    } else {
        assert(regions.take(k) =~= regions);
    }
}

/// The usable bytes are never negative.
proof fn lemma_usable_total_nonneg(regions: Seq<MemoryRegion>)
    ensures
        usable_total(regions) >= 0,
    decreases regions.len(),
{
    if regions.len() > 0 {
        lemma_usable_total_nonneg(regions.drop_last());
    }
}

/// Only usable regions count: appending any other region leaves the total as it
/// was, and appending a usable one adds its length.
pub proof fn lemma_usable_total_push(regions: Seq<MemoryRegion>, region: MemoryRegion)
    ensures
        usable_total(regions.push(region)) == usable_total(regions) + if region.kind
            == MemoryRegionKind::Usable {
            region.length as int
        } else {
            0
        },
{
    assert(regions.push(region).drop_last() =~= regions);
}

} // verus!
