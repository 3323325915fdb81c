use lib::arch::x86_64::gdt::descriptor;
use lib::arch::x86_64::idt::{HandlerAddress, IdtEntry, INTERRUPT_GATE, KERNEL_CODE_SELECTOR};
use lib::memory::{MemoryMap, MemoryRegion, MemoryRegionKind};
use lib::text::fixed_string::FixedString;
use lib::xtask::commands::limine_executable_name;
use lib::xtask::image::names::short_name;
use lib::xtask::image::path::split_path;

fn test_handler() {}

fn regions() -> [MemoryRegion; 2] {
    [
        MemoryRegion {
            base: 0x1000,
            length: 0x3000,
            kind: MemoryRegionKind::Usable,
        },
        MemoryRegion {
            base: 0x4000,
            length: 0x1000,
            kind: MemoryRegionKind::Reserved,
        },
    ]
}

#[test]
fn encodes_kernel_code_descriptor_bits() {
    assert_eq!(descriptor(0b1001_1010, 0b1010), 0x00af_9a00_0000_ffff);
}

#[test]
fn encodes_kernel_data_descriptor_bits() {
    assert_eq!(descriptor(0b1001_0010, 0b1100), 0x00cf_9200_0000_ffff);
}

#[test]
fn idt_entry_uses_kernel_code_selector() {
    let entry = IdtEntry::new(HandlerAddress::WithoutErrorCode(test_handler as usize as u64));

    assert_eq!(entry.selector, KERNEL_CODE_SELECTOR);
}

#[test]
fn idt_entry_uses_interrupt_gate_options() {
    let entry = IdtEntry::new(HandlerAddress::WithoutErrorCode(test_handler as usize as u64));

    assert_eq!(entry.options, INTERRUPT_GATE);
}

#[test]
fn sums_only_usable_memory() {
    let regions = regions();
    let map = MemoryMap::new(&regions);

    assert_eq!(map.total_usable_bytes(), 0x3000);
}

#[test]
fn exposes_entries() {
    let regions = regions();
    let map = MemoryMap::new(&regions);

    assert_eq!(map.entries().len(), 2);
}

#[test]
fn empty_map_has_no_regions() {
    assert_eq!(MemoryMap::empty().entries().len(), 0);
}

#[test]
fn converts_limine_region_kinds() {
    assert_eq!(MemoryRegionKind::from_limine(0), MemoryRegionKind::Usable);
    assert_eq!(MemoryRegionKind::from_limine(7), MemoryRegionKind::Framebuffer);
    assert_eq!(MemoryRegionKind::from_limine(99), MemoryRegionKind::Unknown(99));
}

#[test]
fn appends_ascii_text() {
    let mut value = FixedString::<8>::new();

    value.push_str("Ox");
    value.push_str("id");

    assert_eq!(value.as_str(), "Oxid");
}

#[test]
fn truncates_at_capacity() {
    let mut value = FixedString::<4>::new();

    value.push_str("Oxid Kernel");

    assert_eq!(value.as_str(), "Oxid");
}

#[test]
fn drops_non_ascii_bytes() {
    let mut value = FixedString::<8>::new();

    value.push_str("Oxid \u{1f980}");

    assert_eq!(value.as_str(), "Oxid ");
}

#[test]
fn splits_image_paths() {
    assert_eq!(split_path("/boot/oxid.elf").unwrap(), ("/boot", "oxid.elf"));
    assert_eq!(split_path("/limine.conf").unwrap(), ("/", "limine.conf"));
}

#[test]
fn keeps_valid_short_names() {
    let (_, needs_lfn) = short_name("oxid.elf");

    assert!(!needs_lfn);
}

#[test]
fn flags_limine_names_as_long_names() {
    let (_, needs_lfn) = short_name("limine-bios.sys");

    assert!(needs_lfn);
}

#[test]
fn uses_platform_limine_executable_name() {
    assert_eq!(limine_executable_name(true), "limine.exe");
    assert_eq!(limine_executable_name(false), "limine");
}
