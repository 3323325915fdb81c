use lib::arch::x86_64::gdt::{descriptor, gdt_entries};
use lib::arch::x86_64::idt::{
    report_exception, ExceptionHandlers, HandlerAddress, IdtEntry, InterruptDescriptorTable,
    InterruptStackFrame,
};
use lib::arch::x86_64::serial::{com1, is_transmit_empty, PortOp, SerialPort, COM1};
use lib::boot::limine::{
    bootloader_string, framebuffer_info, memory_map, memory_region_count, LimineFramebuffer,
    LimineMemoryMapEntry,
};
use lib::boot::{BootInfo, FramebufferInfo};
use lib::drivers::console::Console;
use lib::drivers::framebuffer::{
    FramebufferConsole, PixelWrite, BACKGROUND, BANNER_SECOND, BANNER_TOP, FOREGROUND,
};
use lib::drivers::glyph::glyph;
use lib::drivers::serial::SerialConsole;
use lib::kernel::{boot_report_bytes, init};
use lib::memory::{MemoryMap, MemoryRegion, MemoryRegionKind};

fn init_ops() -> Vec<PortOp> {
    vec![
        PortOp::Out { port: COM1 + 1, value: 0x00 },
        PortOp::Out { port: COM1 + 3, value: 0x80 },
        PortOp::Out { port: COM1, value: 0x03 },
        PortOp::Out { port: COM1 + 1, value: 0x00 },
        PortOp::Out { port: COM1 + 3, value: 0x03 },
        PortOp::Out { port: COM1 + 2, value: 0xc7 },
        PortOp::Out { port: COM1 + 4, value: 0x0b },
    ]
}

fn send_ops(bytes: &[u8]) -> Vec<PortOp> {
    let mut ops = Vec::new();
    for &b in bytes {
        if b == b'\n' {
            ops.push(PortOp::WaitTransmitEmpty { port: COM1 + 5 });
            ops.push(PortOp::Out { port: COM1, value: b'\r' });
        }
        ops.push(PortOp::WaitTransmitEmpty { port: COM1 + 5 });
        ops.push(PortOp::Out { port: COM1, value: b });
    }
    ops
}

#[test]
fn serial_port_sets_up_the_uart() {
    let mut port = com1();
    assert_eq!(port.base(), 0x3f8);
    port.init();
    assert_eq!(port.take_ops(), init_ops());
    assert_eq!(port.take_ops(), Vec::new());
}

#[test]
fn serial_port_sends_line_feed_as_crlf() {
    let mut port = SerialPort::new(COM1);
    port.write_str("A\n");
    assert_eq!(
        port.take_ops(),
        vec![
            PortOp::WaitTransmitEmpty { port: 0x3fd },
            PortOp::Out { port: 0x3f8, value: b'A' },
            PortOp::WaitTransmitEmpty { port: 0x3fd },
            PortOp::Out { port: 0x3f8, value: b'\r' },
            PortOp::WaitTransmitEmpty { port: 0x3fd },
            PortOp::Out { port: 0x3f8, value: b'\n' },
        ]
    );
}

#[test]
fn reads_transmit_empty_bit() {
    assert!(is_transmit_empty(0x20));
    assert!(is_transmit_empty(0x61));
    assert!(!is_transmit_empty(0x1f));
}

#[test]
fn serial_console_writes_to_com1() {
    let mut console = SerialConsole::new_com1();
    console.init();
    console.write_str("ok");
    let mut expected = init_ops();
    expected.extend(send_ops(b"ok"));
    assert_eq!(console.take_ops(), expected);
}

#[test]
fn kernel_gdt_has_null_code_and_data() {
    assert_eq!(gdt_entries(), [0, 0x00af_9a00_0000_ffff, 0x00cf_9200_0000_ffff]);
    assert_eq!(descriptor(0, 0), 0x000f_0000_0000_ffff);
}

#[test]
fn idt_gate_splits_handler_address() {
    let entry = IdtEntry::new(HandlerAddress::WithErrorCode(0x1234_5678_9abc_def0));
    assert_eq!(entry.offset_low, 0xdef0);
    assert_eq!(entry.offset_mid, 0x9abc);
    assert_eq!(entry.offset_high, 0x1234_5678);
    assert_eq!(entry.selector, 0x08);
    assert_eq!(entry.options, 0x8e00);
    assert_eq!(entry.reserved, 0);
    assert_eq!(HandlerAddress::WithErrorCode(7).address(), 7);
}

#[test]
fn missing_gate_is_all_zero_but_selector() {
    let entry = IdtEntry::missing();
    assert_eq!(entry.offset_low, 0);
    assert_eq!(entry.offset_mid, 0);
    assert_eq!(entry.offset_high, 0);
    assert_eq!(entry.options, 0);
}

#[test]
fn installs_exception_handlers() {
    let handlers = ExceptionHandlers {
        divide_error: 0x1000,
        breakpoint: 0x2000,
        invalid_opcode: 0x3000,
        double_fault: 0x4000,
        general_protection_fault: 0x5000,
        page_fault: 0x6000,
    };
    let idt = InterruptDescriptorTable::with_exception_handlers(handlers);
    let entries = idt.entries();
    assert_eq!(entries.len(), 256);
    assert_eq!(entries[3], IdtEntry::new(HandlerAddress::WithoutErrorCode(0x2000)));
    assert_eq!(entries[14], IdtEntry::new(HandlerAddress::WithErrorCode(0x6000)));
    assert_eq!(entries[1], IdtEntry::missing());
    assert_eq!(entries[255], IdtEntry::missing());

    let mut table = InterruptDescriptorTable::new();
    table.set_handler(32, HandlerAddress::WithoutErrorCode(0xabc));
    assert_eq!(table.entries()[32].offset_low, 0xabc);
}

fn frame(ip: u64) -> InterruptStackFrame {
    InterruptStackFrame {
        instruction_pointer: ip,
        code_segment: 0x08,
        cpu_flags: 0x202,
        stack_pointer: 0x8000,
        stack_segment: 0x10,
    }
}

#[test]
fn reports_breakpoint_exception() {
    let mut port = report_exception("Breakpoint", 3, None, &frame(0xffff_8000_0000_1234));
    let mut expected = init_ops();
    expected.extend(send_ops(
        b"Exception: Breakpoint\nVector: 3\nInstruction pointer: 0xffff800000001234\nKernel halted.\n",
    ));
    assert_eq!(port.base(), COM1);
    assert_eq!(port.take_ops(), expected);
}

#[test]
fn reports_error_code_of_page_fault() {
    let mut port = report_exception("Page fault", 14, Some(0x2), &frame(0x10));
    let mut expected = init_ops();
    expected.extend(send_ops(
        b"Exception: Page fault\nVector: 14\nError code: 0x2\nInstruction pointer: 0x10\nKernel halted.\n",
    ));
    assert_eq!(port.take_ops(), expected);
}

#[test]
fn glyphs_ignore_case() {
    assert_eq!(glyph(b'a'), glyph(b'A'));
    assert_eq!(glyph(b'z'), glyph(b'Z'));
    assert_eq!(glyph(b' '), [0; 8]);
    assert_eq!(glyph(b'A')[7], 0);
}

fn small_fb(bpp: u16) -> FramebufferInfo {
    FramebufferInfo { address: 0xfd00_0000, width: 16, height: 12, pitch: 64, bits_per_pixel: bpp }
}

#[test]
fn framebuffer_console_draws_a_glyph() {
    let info = small_fb(32);
    let mut fb = FramebufferConsole::new(info);
    fb.write_byte(b'A');
    let pixels = fb.take_pixels();
    assert_eq!(pixels.len(), 64);
    let rows = glyph(b'A');
    for (k, p) in pixels.iter().enumerate() {
        let (row, col) = (k / 8, k % 8);
        assert_eq!((p.x, p.y), (2 + col, 2 + row));
        let lit = rows[row] & (0x80 >> col) != 0;
        assert_eq!(p.color, if lit { FOREGROUND } else { BACKGROUND });
    }
    assert!(fb.take_pixels().is_empty());
}

#[test]
fn framebuffer_console_draws_nothing_but_32_bit() {
    let mut fb = FramebufferConsole::new(small_fb(24));
    fb.clear();
    fb.draw_banner();
    fb.write_str("Hi");
    assert!(fb.take_pixels().is_empty());
}

#[test]
fn framebuffer_console_clips_at_the_edge() {
    let info = small_fb(32);
    let mut fb = FramebufferConsole::new(info);
    fb.write_byte(b'\n');
    fb.write_byte(b'-');
    let pixels = fb.take_pixels();
    assert_eq!(pixels.len(), 0);
}

#[test]
fn banner_uses_its_two_colours() {
    let info = FramebufferInfo { address: 0, width: 2, height: 20, pitch: 8, bits_per_pixel: 32 };
    let mut fb = FramebufferConsole::new(info);
    fb.draw_banner();
    let pixels = fb.take_pixels();
    assert_eq!(pixels.len(), 40);
    assert_eq!(pixels[0], PixelWrite { x: 0, y: 0, color: BANNER_TOP });
    assert_eq!(pixels[16], PixelWrite { x: 0, y: 8, color: BANNER_SECOND });
    assert_eq!(pixels[39], PixelWrite { x: 1, y: 19, color: BACKGROUND });
}

#[test]
fn console_clears_framebuffer_then_draws_banner() {
    let info = FramebufferInfo { address: 0, width: 3, height: 2, pitch: 12, bits_per_pixel: 32 };
    let mut console = Console::new(Some(info));
    let pixels = console.take_pixels();
    assert_eq!(pixels.len(), 12);
    assert!(pixels[..6].iter().all(|p| p.color == BACKGROUND));
    assert!(pixels[6..].iter().all(|p| p.color == BANNER_TOP));
    assert_eq!(console.take_serial_ops(), init_ops());
}

#[test]
fn console_without_framebuffer_writes_serial_only() {
    let mut console = Console::new(None);
    console.write_str("x\n");
    let mut expected = init_ops();
    expected.extend(send_ops(b"x\n"));
    assert_eq!(console.take_serial_ops(), expected);
    assert!(console.take_pixels().is_empty());
}

fn boot_info(framebuffer: Option<FramebufferInfo>) -> BootInfo {
    let regions = [
        MemoryRegion { base: 0, length: 0x9_f000, kind: MemoryRegionKind::Usable },
        MemoryRegion { base: 0x10_0000, length: 0x100_0000, kind: MemoryRegionKind::Usable },
        MemoryRegion { base: 0xfd00_0000, length: 0x40_0000, kind: MemoryRegionKind::Framebuffer },
    ];
    BootInfo {
        framebuffer,
        memory_map: MemoryMap::new(&regions),
        bootloader_name: Some("Limine".to_string()),
        bootloader_version: Some("12.2.0".to_string()),
    }
}

#[test]
fn boot_report_lists_what_the_bootloader_gave() {
    let fb = FramebufferInfo { address: 0, width: 1280, height: 800, pitch: 5120, bits_per_pixel: 32 };
    let report = boot_report_bytes(&boot_info(Some(fb)));
    let expected = "Oxid kernel initialized\nBootloader: Limine 12.2.0\nFramebuffer: 1280x800x32\n\
                    Memory regions: 3\nUsable memory: 17020 KiB\nKernel halted.\n";
    assert_eq!(String::from_utf8(report).unwrap(), expected);
}

#[test]
fn boot_report_without_framebuffer_or_version() {
    let mut info = boot_info(None);
    info.bootloader_version = None;
    let report = boot_report_bytes(&info);
    let expected = "Oxid kernel initialized\nBootloader: Limine\nFramebuffer: unavailable\n\
                    Memory regions: 3\nUsable memory: 17020 KiB\nKernel halted.\n";
    assert_eq!(String::from_utf8(report).unwrap(), expected);

    info.bootloader_name = None;
    let report = String::from_utf8(boot_report_bytes(&info)).unwrap();
    assert!(!report.contains("Bootloader"));
}

#[test]
fn kernel_init_queues_report_on_serial() {
    let info = boot_info(None);
    let mut console = init(&info);
    let mut expected = init_ops();
    expected.extend(send_ops(&boot_report_bytes(&info)));
    assert_eq!(console.take_serial_ops(), expected);
}

#[test]
fn counts_at_most_128_memory_regions() {
    assert_eq!(memory_region_count(0), 0);
    assert_eq!(memory_region_count(12), 12);
    assert_eq!(memory_region_count(128), 128);
    assert_eq!(memory_region_count(4000), 128);
}

#[test]
fn converts_limine_memory_map() {
    let entries = [
        Some(LimineMemoryMapEntry { base: 0x1000, length: 0x2000, kind: 0 }),
        None,
        Some(LimineMemoryMapEntry { base: 0x8000, length: 0x1000, kind: 5 }),
    ];
    let map = memory_map(&entries);
    assert_eq!(
        map.entries(),
        &[
            MemoryRegion { base: 0x1000, length: 0x2000, kind: MemoryRegionKind::Usable },
            MemoryRegion::empty(),
            MemoryRegion { base: 0x8000, length: 0x1000, kind: MemoryRegionKind::BootloaderReclaimable },
        ]
    );
    assert_eq!(map.total_usable_bytes(), 0x2000);
}

#[test]
fn converts_limine_framebuffer() {
    let fb = LimineFramebuffer { address: 0xfd00_0000, width: 800, height: 600, pitch: 3200, bpp: 32 };
    assert_eq!(
        framebuffer_info(1, Some(fb)),
        Some(FramebufferInfo { address: 0xfd00_0000, width: 800, height: 600, pitch: 3200, bits_per_pixel: 32 })
    );
    assert_eq!(framebuffer_info(0, Some(fb)), None);
    assert_eq!(framebuffer_info(2, None), None);
}

#[test]
fn reads_bootloader_strings() {
    assert_eq!(bootloader_string(b"Limine"), Some("Limine".to_string()));
    assert_eq!(bootloader_string(&[0xc3]), None);
}

#[test]
fn computes_pixel_offsets() {
    let info = small_fb(32);
    assert_eq!(info.pixel_offset(3, 2), Some(2 * 64 + 3 * 4));
    let huge = FramebufferInfo { address: 0, width: 1, height: 1, pitch: usize::MAX, bits_per_pixel: 32 };
    assert_eq!(huge.pixel_offset(0, 2), None);
    assert_eq!(huge.pixel_offset(1, 1), None);
}

#[test]
fn limine_kinds_are_distinct() {
    let kinds: Vec<MemoryRegionKind> = (0..9).map(MemoryRegionKind::from_limine).collect();
    for i in 0..kinds.len() {
        for j in 0..kinds.len() {
            assert_eq!(i == j, kinds[i] == kinds[j]);
        }
    }
}

fn line_bytes(ops: &[PortOp]) -> String {
    let bytes: Vec<u8> = ops
        .iter()
        .filter_map(|op| match op {
            PortOp::Out { port, value } if *port == COM1 => Some(*value),
            _ => None,
        })
        .collect();
    String::from_utf8_lossy(&bytes).into_owned()
}

#[test]
fn boot_output_passes_the_smoke_check() {
    let fb = FramebufferInfo { address: 0, width: 64, height: 32, pitch: 256, bits_per_pixel: 32 };
    let mut console = init(&boot_info(Some(fb)));
    let ops = console.take_serial_ops();
    let line = line_bytes(&ops[7..]);
    assert!(line.starts_with("Oxid kernel initialized\r\n"));
    assert!(lib::xtask::smoke::serial_contains(&line, lib::xtask::smoke::SMOKE_BOOT_MARKER));
}

#[test]
fn breakpoint_output_passes_the_exception_smoke_check() {
    let mut port = report_exception("Breakpoint", 3, None, &frame(0x1000));
    let ops = port.take_ops();
    let line = line_bytes(&ops[7..]);
    assert!(lib::xtask::smoke::serial_contains(&line, lib::xtask::smoke::SMOKE_EXCEPTION_MARKER));
    assert!(!lib::xtask::smoke::serial_contains(&line, lib::xtask::smoke::SMOKE_BOOT_MARKER));
}
