use lib::xtask::commands::{
    image_files, kernel_build_args, parse_command, CommandError, XtaskCommand,
};
use lib::xtask::image::dir_entry::{write_dir_entries, DirEntry};
use lib::xtask::image::error::ImageError;
use lib::xtask::image::fat16::{fat_layout_settles, Fat16Image};
use lib::xtask::image::files::{create, files_fit_below, ImageFile};
use lib::xtask::image::le::{u16_to_le_bytes, u32_to_le_bytes};
use lib::xtask::image::long_name::{encode_utf16_units, long_name_entries};
use lib::xtask::image::names::{short_name, short_name_checksum};
use lib::xtask::image::path::split_path;
use lib::xtask::limine::find_archive_entry;
use lib::xtask::smoke::{serial_contains, SMOKE_BOOT_MARKER, SMOKE_EXCEPTION_MARKER};

const SMALL_IMAGE: u64 = (2048 + 4096) * 512;

#[test]
fn parses_every_command() {
    assert_eq!(parse_command(Some("check")).unwrap(), XtaskCommand::Check);
    assert_eq!(parse_command(Some("image")).unwrap(), XtaskCommand::Image);
    assert_eq!(parse_command(Some("run-qemu")).unwrap(), XtaskCommand::RunQemu);
    assert_eq!(parse_command(Some("smoke-exception")).unwrap(), XtaskCommand::SmokeException);
    assert_eq!(parse_command(Some("smoke-qemu")).unwrap(), XtaskCommand::SmokeQemu);
}

#[test]
fn refuses_missing_and_unknown_commands() {
    assert!(matches!(parse_command(None), Err(CommandError::MissingCommand)));
    match parse_command(Some("imagee")) {
        Err(CommandError::UnknownCommand(name)) => assert_eq!(name, "imagee"),
        other => panic!("unexpected {:?}", other),
    }
}

#[test]
fn builds_kernel_cargo_arguments() {
    let plain = kernel_build_args(&[]);
    assert_eq!(
        plain,
        vec![
            "build",
            "-Zbuild-std=core,compiler_builtins",
            "-Zbuild-std-features=compiler-builtins-mem",
            "-Zjson-target-spec",
            "--target",
            "x86_64-unknown-none.json",
        ]
    );
    let with = kernel_build_args(&["exception-smoke", "extra"]);
    assert_eq!(with.len(), 8);
    assert_eq!(with[6], "--features");
    assert_eq!(with[7], "exception-smoke,extra");
}

#[test]
fn lists_the_image_files() {
    let files = image_files(vec![1, 2], vec![3], vec![4, 5, 6]);
    let paths: Vec<&str> = files.iter().map(|f| f.path).collect();
    assert_eq!(
        paths,
        vec![
            "/limine-bios.sys",
            "/limine.conf",
            "/boot/limine/limine-bios.sys",
            "/boot/limine/limine.conf",
            "/boot/oxid.elf",
        ]
    );
    assert_eq!(files[2].data, vec![1, 2]);
    assert_eq!(files[3].data, vec![3]);
    assert_eq!(files[4].data, vec![4, 5, 6]);
}

#[test]
fn finds_smoke_markers() {
    let log = "Oxid entry\r\nOxid kernel initialized\r\nKernel halted.\r\n";
    assert!(serial_contains(log, SMOKE_BOOT_MARKER));
    assert!(!serial_contains(log, SMOKE_EXCEPTION_MARKER));
    assert!(serial_contains("Exception: Breakpoint", SMOKE_EXCEPTION_MARKER));
    assert!(!serial_contains("Exception", SMOKE_EXCEPTION_MARKER));
    assert!(serial_contains("", ""));
}

#[test]
fn finds_archive_entries_by_suffix() {
    let listing = "limine-binary/\nlimine-binary/limine-bios.sys\r\nlimine-binary/limine\nlimine-binary/limine.exe\n";
    assert_eq!(find_archive_entry(listing, "limine-bios.sys"), Some("limine-binary/limine-bios.sys"));
    assert_eq!(find_archive_entry(listing, "limine"), Some("limine-binary/limine"));
    assert_eq!(find_archive_entry(listing, "BOOTX64.EFI"), None);
    assert_eq!(find_archive_entry("", "limine"), None);
}

#[test]
fn encodes_little_endian() {
    assert_eq!(u16_to_le_bytes(0x1234), [0x34, 0x12]);
    assert_eq!(u32_to_le_bytes(0x0d10_0001), [0x01, 0x00, 0x10, 0x0d]);
}

#[test]
fn makes_short_names() {
    assert_eq!(&short_name("oxid.elf").0, b"OXID    ELF");
    assert_eq!(short_name("limine-bios.sys"), (*b"LIMINE~1SYS", true));
    assert_eq!(short_name("limine.conf"), (*b"LIMINE~1CON", true));
    assert_eq!(short_name("a.b.c"), (*b"A_____~1BC ", true));
    assert_eq!(short_name("Readme"), (*b"README     ", false));
}

#[test]
fn checksums_short_names() {
    let mut expected = 0u8;
    for b in b"LIMINE~1SYS" {
        expected = ((expected & 1) << 7).wrapping_add(expected >> 1).wrapping_add(*b);
    }
    assert_eq!(short_name_checksum(b"LIMINE~1SYS"), expected);
    assert_eq!(short_name_checksum(&[0; 11]), 0);
}

#[test]
fn builds_long_name_entries() {
    assert_eq!(encode_utf16_units("a\u{e9}"), vec![0x61, 0xe9]);
    let short = *b"LIMINE~1SYS";
    let entries = long_name_entries("limine-bios.sys", &short);
    assert_eq!(entries.len(), 2);
    let last = entries[0].0;
    let first = entries[1].0;
    assert_eq!(last[0], 0x42);
    assert_eq!(first[0], 0x01);
    assert_eq!(first[11], 0x0f);
    assert_eq!(first[13], short_name_checksum(&short));
    assert_eq!([first[1], first[2]], [b'l', 0]);
    assert_eq!([first[30], first[31]], [b's', 0]);
    assert_eq!([last[1], last[2]], [b'y', 0]);
    assert_eq!([last[3], last[4]], [b's', 0]);
    assert_eq!([last[5], last[6]], [0, 0]);
    assert_eq!([last[7], last[8]], [0xff, 0xff]);
}

#[test]
fn builds_directory_entries() {
    let e = DirEntry::raw_short(*b"OXID    ELF", 0x20, 8, 0x1234);
    assert_eq!(&e.0[0..11], b"OXID    ELF");
    assert_eq!(e.0[11], 0x20);
    assert_eq!([e.0[26], e.0[27]], [8, 0]);
    assert_eq!([e.0[28], e.0[29], e.0[30], e.0[31]], [0x34, 0x12, 0, 0]);
    let d = DirEntry::directory("boot", 2);
    assert_eq!(&d.0[0..11], b"BOOT       ");
    assert_eq!(d.0[11], 0x10);
    assert_eq!(&DirEntry::dot(2).0[0..11], b".          ");
    assert_eq!(&DirEntry::dotdot(0).0[0..11], b"..         ");
    assert_eq!(DirEntry::file("oxid.elf", 8, 3).len(), 1);
    assert_eq!(DirEntry::file("limine-bios.sys", 4, 3).len(), 3);
}

#[test]
fn refuses_full_directories() {
    let mut target = vec![0xaa; 96];
    let entries = [DirEntry::dot(2), DirEntry::dotdot(0)];
    assert!(matches!(
        write_dir_entries(&mut target, 0, 64, &entries),
        Err(ImageError::DirectoryFull)
    ));
    assert_eq!(target, vec![0xaa; 96]);
    assert!(write_dir_entries(&mut target, 0, 96, &entries).is_ok());
    assert_eq!(target[64], 0);
    assert_eq!(target[65], 0xaa);
}

#[test]
fn refuses_paths_without_slash() {
    match split_path("oxid.elf") {
        Err(ImageError::InvalidPath(p)) => assert_eq!(p, "oxid.elf"),
        other => panic!("unexpected {:?}", other),
    }
    assert_eq!(split_path("/boot/limine/limine.conf").unwrap(), ("/boot/limine", "limine.conf"));
}

#[test]
fn fat_layout_settles_or_oscillates() {
    assert!(fat_layout_settles(4096, 100));
    assert!(fat_layout_settles(129024, 100));
    assert!(!fat_layout_settles(4133, 100));
}

#[test]
fn lays_out_a_small_image() {
    let img = Fat16Image::new(SMALL_IMAGE as usize).unwrap();
    assert_eq!(img.sectors_per_fat, 4);
    assert_eq!(img.fat_start, 2049);
    assert_eq!(img.root_dir_start, 2057);
    assert_eq!(img.data_start, 2089);
    assert_eq!(img.next_cluster, 2);
    assert_eq!(img.cluster_offset(4), 2097 * 512);
    assert!(img.bytes.iter().all(|&b| b == 0));
}

#[test]
fn refuses_unaligned_images() {
    assert!(matches!(Fat16Image::new(1000), Err(ImageError::UnalignedSize)));
    assert!(matches!(create(SMALL_IMAGE + 1, &[]), Err(ImageError::UnalignedSize)));
}

#[test]
fn runs_out_of_clusters() {
    let mut img = Fat16Image::new(SMALL_IMAGE as usize).unwrap();
    img.next_cluster = 0xffff;
    assert!(matches!(img.allocate_clusters(1), Err(ImageError::OutOfClusters)));
    let mut img = Fat16Image::new(SMALL_IMAGE as usize).unwrap();
    assert_eq!(img.allocate_clusters(3).unwrap(), vec![2, 3, 4]);
    assert_eq!(img.next_cluster, 5);
}

#[test]
fn refuses_unsupported_and_invalid_paths() {
    let files = [ImageFile::new("/etc/oxid.elf", vec![1])];
    match create(SMALL_IMAGE, &files) {
        Err(ImageError::UnsupportedPath(p)) => assert_eq!(p, "/etc/oxid.elf"),
        other => panic!("unexpected {:?}", other.map(|b| b.len())),
    }
    let files = [ImageFile::new("oxid.elf", vec![1])];
    match create(SMALL_IMAGE, &files) {
        Err(ImageError::InvalidPath(p)) => assert_eq!(p, "oxid.elf"),
        other => panic!("unexpected {:?}", other.map(|b| b.len())),
    }
}

fn le16(bytes: &[u8], at: usize) -> u16 {
    u16::from_le_bytes([bytes[at], bytes[at + 1]])
}

fn le32(bytes: &[u8], at: usize) -> u32 {
    u32::from_le_bytes([bytes[at], bytes[at + 1], bytes[at + 2], bytes[at + 3]])
}

#[test]
fn creates_a_bootable_image() {
    let kernel: Vec<u8> = (0..5000u32).map(|i| (i % 251) as u8).collect();
    let files = image_files(vec![0x11; 10], b"timeout: 0\n".to_vec(), kernel.clone());
    assert!(files_fit_below(4, 1015, &files));
    let bytes = create(SMALL_IMAGE, &files).unwrap();
    assert_eq!(bytes.len() as u64, SMALL_IMAGE);

    // MBR
    assert_eq!(bytes[446], 0x80);
    assert_eq!(bytes[450], 0x0e);
    assert_eq!(le32(&bytes, 454), 2048);
    assert_eq!(le32(&bytes, 458), 4096);
    assert_eq!([bytes[510], bytes[511]], [0x55, 0xaa]);

    // boot sector
    let bs = 2048 * 512;
    assert_eq!(&bytes[bs..bs + 3], &[0xeb, 0x3c, 0x90]);
    assert_eq!(&bytes[bs + 3..bs + 11], b"OXIDFAT ");
    assert_eq!(le16(&bytes, bs + 11), 512);
    assert_eq!(bytes[bs + 13], 4);
    assert_eq!(le16(&bytes, bs + 22), 4);
    assert_eq!(le32(&bytes, bs + 32), 4096);
    assert_eq!(&bytes[bs + 54..bs + 62], b"FAT16   ");
    assert_eq!([bytes[bs + 510], bytes[bs + 511]], [0x55, 0xaa]);

    // both FATs: reserved entries, /boot ends its chain, files from cluster 4
    for fat in [2049 * 512, (2049 + 4) * 512] {
        assert_eq!(le16(&bytes, fat), 0xfff8);
        assert_eq!(le16(&bytes, fat + 2), 0xffff);
        assert_eq!(le16(&bytes, fat + 4), 0xffff);
        assert_eq!(le16(&bytes, fat + 6), 0);
        for c in 4..8 {
            assert_eq!(le16(&bytes, fat + 2 * c), 0xffff);
        }
        assert_eq!(le16(&bytes, fat + 16), 9);
        assert_eq!(le16(&bytes, fat + 18), 10);
        assert_eq!(le16(&bytes, fat + 20), 0xffff);
        assert_eq!(le16(&bytes, fat + 22), 0);
    }

    // root directory: BOOT, then limine-bios.sys and limine.conf with long names
    let root = 2057 * 512;
    assert_eq!(&bytes[root..root + 11], b"BOOT       ");
    assert_eq!(bytes[root + 11], 0x10);
    assert_eq!(le16(&bytes, root + 26), 2);
    let sys = root + 3 * 32;
    assert_eq!(&bytes[sys..sys + 11], b"LIMINE~1SYS");
    assert_eq!(le16(&bytes, sys + 26), 4);
    assert_eq!(le32(&bytes, sys + 28), 10);
    let conf = sys + 2 * 32;
    assert_eq!(&bytes[conf..conf + 11], b"LIMINE~1CON");
    assert_eq!(le16(&bytes, conf + 26), 5);
    assert_eq!(bytes[conf + 32], 0);

    // /boot: ., .., LIMINE, then the kernel
    let cluster = |c: usize| (2089 + (c - 2) * 4) * 512;
    let boot = cluster(2);
    assert_eq!(&bytes[boot..boot + 11], b".          ");
    assert_eq!(&bytes[boot + 32..boot + 43], b"..         ");
    assert_eq!(&bytes[boot + 64..boot + 75], b"LIMINE     ");
    assert_eq!(le16(&bytes, boot + 64 + 26), 3);
    assert_eq!(&bytes[boot + 96..boot + 107], b"OXID    ELF");
    assert_eq!(le16(&bytes, boot + 96 + 26), 8);
    assert_eq!(le32(&bytes, boot + 96 + 28), 5000);

    // /boot/limine: ., .., then the two copies
    let limine = cluster(3);
    assert_eq!(le16(&bytes, limine + 26), 3);
    assert_eq!(le16(&bytes, limine + 32 + 26), 2);

    // file content
    assert_eq!(&bytes[cluster(4)..cluster(4) + 10], &[0x11; 10]);
    assert_eq!(&bytes[cluster(5)..cluster(5) + 11], b"timeout: 0\n");
    assert_eq!(&bytes[cluster(6)..cluster(6) + 10], &[0x11; 10]);
    assert_eq!(&bytes[cluster(8)..cluster(8) + 5000], &kernel[..]);
}

fn read_back(bytes: &[u8], first: u16, len: usize) -> Vec<u8> {
    let fat = 2049 * 512;
    let cluster = |c: usize| (2089 + (c - 2) * 4) * 512;
    let mut out = Vec::new();
    let mut c = first as usize;
    loop {
        let take = (len - out.len()).min(2048);
        out.extend_from_slice(&bytes[cluster(c)..cluster(c) + take]);
        let next = le16(bytes, fat + 2 * c);
        if next == 0xffff {
            break;
        }
        c = next as usize;
    }
    out
}

#[test]
fn image_files_read_back_through_the_fat() {
    let kernel: Vec<u8> = (0..9000u32).map(|i| (i * 7 % 256) as u8).collect();
    let config = b"timeout: 3\n/Oxid\n    protocol: limine\n".to_vec();
    let files = image_files(vec![0x5a; 4096], config.clone(), kernel.clone());
    let bytes = create(SMALL_IMAGE, &files).unwrap();
    let boot = (2089) * 512;
    let entry = boot + 96;
    assert_eq!(&bytes[entry..entry + 11], b"OXID    ELF");
    let first = le16(&bytes, entry + 26);
    let size = le32(&bytes, entry + 28) as usize;
    assert_eq!(read_back(&bytes, first, size), kernel);
    assert_eq!(read_back(&bytes, 4, 4096), vec![0x5a; 4096]);
    assert_eq!(read_back(&bytes, 6, config.len()), config);
}
