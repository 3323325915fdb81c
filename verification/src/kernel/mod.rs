use vstd::prelude::*;
use vstd::string::StringSliceAdditionalSpecFns;
use vstd::utf8::encode_utf8;

use crate::boot::{BootInfo, FramebufferInfo};
use crate::drivers::console::{initial_pixels, Console};
use crate::drivers::framebuffer::{after_bytes, ConsoleState, BACKGROUND, FOREGROUND};
use crate::arch::x86_64::serial::{bytes_ops, init_ops, COM1};
use crate::memory::usable_total;
use crate::text::number::{decimal, format_decimal};

verus! {

/// The line about the bootloader: its name and, where known, its version; no line
/// where its name is unknown.
pub open spec fn bootloader_line(name: Option<Seq<char>>, version: Option<Seq<char>>) -> Seq<u8> {
    match name {
        Some(n) => match version {
            Some(v) => "Bootloader: ".spec_bytes() + encode_utf8(n) + " ".spec_bytes() + encode_utf8(
                v,
            ) + "\n".spec_bytes(),
            None => "Bootloader: ".spec_bytes() + encode_utf8(n) + "\n".spec_bytes(),
        },
        None => Seq::empty(),
    }
}

/// The line about the framebuffer: width, height and bits per pixel, or that
/// there is none.
pub open spec fn framebuffer_line(fb: Option<FramebufferInfo>) -> Seq<u8> {
    match fb {
        Some(f) => "Framebuffer: ".spec_bytes() + decimal(f.width as nat) + "x".spec_bytes()
            + decimal(f.height as nat) + "x".spec_bytes() + decimal(f.bits_per_pixel as nat)
            + "\n".spec_bytes(),
        None => "Framebuffer: unavailable\n".spec_bytes(),
    }
}

/// What the kernel reports once it is up: that it is initialized, the bootloader,
/// the framebuffer, the number of memory regions, the usable memory in KiB, and
/// that it halts.
pub open spec fn boot_report(
    name: Option<Seq<char>>,
    version: Option<Seq<char>>,
    fb: Option<FramebufferInfo>,
    regions: nat,
    usable_bytes: nat,
) -> Seq<u8> {
    "Oxid kernel initialized\n".spec_bytes() + bootloader_line(name, version) + framebuffer_line(fb)
        + "Memory regions: ".spec_bytes() + decimal(regions) + "\n".spec_bytes()
        + "Usable memory: ".spec_bytes() + decimal(usable_bytes / 1024) + " KiB\n".spec_bytes()
        + "Kernel halted.\n".spec_bytes()
}

/// The view of an optional string.
pub open spec fn opt_view(s: Option<String>) -> Option<Seq<char>> {
    match s {
        Some(t) => Some(t@),
        None => None,
    }
}

/// The report of a boot.
pub open spec fn report_of(boot_info: &BootInfo) -> Seq<u8> {
    boot_report(
        opt_view(boot_info.bootloader_name),
        opt_view(boot_info.bootloader_version),
        boot_info.framebuffer,
        boot_info.memory_map@.len(),
        usable_total(boot_info.memory_map@) as nat,
    )
}

/// Appends the bytes of `s` to `out`.
fn append_str(out: &mut Vec<u8>, s: &str)
    ensures
        final(out)@ == old(out)@ + s.spec_bytes(),
{
    out.extend_from_slice(s.as_bytes());
}

/// Appends `bytes` to `out`.
fn append_bytes(out: &mut Vec<u8>, bytes: &[u8])
    ensures
        final(out)@ == old(out)@ + bytes@,
{
    out.extend_from_slice(bytes);
}

/// The bootloader line, as bytes.
fn bootloader_line_bytes(name: &Option<String>, version: &Option<String>) -> (r: Vec<u8>)
    ensures
        r@ == bootloader_line(opt_view(*name), opt_view(*version)),
{
    let mut out: Vec<u8> = Vec::new();
    match name {
        Some(name) => {
            append_str(&mut out, "Bootloader: ");
            append_str(&mut out, name.as_str());
            match version {
                Some(version) => {
                    append_str(&mut out, " ");
                    append_str(&mut out, version.as_str());
                    append_str(&mut out, "\n");
                },
                None => {
                    append_str(&mut out, "\n");
                },
            }
        },
        None => {},
    }
    assert(out@ =~= bootloader_line(opt_view(*name), opt_view(*version)));
    out
}

/// The framebuffer line, as bytes.
fn framebuffer_line_bytes(fb: Option<FramebufferInfo>) -> (r: Vec<u8>)
    ensures
        r@ == framebuffer_line(fb),
{
    let mut out: Vec<u8> = Vec::new();
    match fb {
        Some(fb) => {
            append_str(&mut out, "Framebuffer: ");
            append_bytes(&mut out, format_decimal(fb.width as u64).as_slice());
            append_str(&mut out, "x");
            append_bytes(&mut out, format_decimal(fb.height as u64).as_slice());
            append_str(&mut out, "x");
            append_bytes(&mut out, format_decimal(fb.bits_per_pixel as u64).as_slice());
            append_str(&mut out, "\n");
        },
        None => {
            append_str(&mut out, "Framebuffer: unavailable\n");
        },
    }
    assert(out@ =~= framebuffer_line(fb));
    out
}

/// The report of a boot, as bytes.
pub fn boot_report_bytes(boot_info: &BootInfo) -> (r: Vec<u8>)
    requires
        usable_total(boot_info.memory_map@) <= u64::MAX,
    ensures
        r@ == report_of(boot_info),
{
    let mut out: Vec<u8> = Vec::new();
    append_str(&mut out, "Oxid kernel initialized\n");
    let line = bootloader_line_bytes(&boot_info.bootloader_name, &boot_info.bootloader_version);
    append_bytes(&mut out, line.as_slice());
    let line = framebuffer_line_bytes(boot_info.framebuffer);
    append_bytes(&mut out, line.as_slice());
    append_str(&mut out, "Memory regions: ");
    append_bytes(&mut out, format_decimal(boot_info.memory_map.entries().len() as u64).as_slice());
    append_str(&mut out, "\n");
    append_str(&mut out, "Usable memory: ");
    let total = boot_info.memory_map.total_usable_bytes();
    append_bytes(&mut out, format_decimal(total / 1024).as_slice());
    append_str(&mut out, " KiB\n");
    append_str(&mut out, "Kernel halted.\n");
    assert(out@ =~= report_of(boot_info));
    out
}

/// Brings up the console on the framebuffer from the bootloader and writes the
/// boot report to it. The kernel then carries out what the console queued and
/// halts.
pub fn init(boot_info: &BootInfo) -> (c: Console)
    requires
        usable_total(boot_info.memory_map@) <= u64::MAX,
        boot_info.framebuffer matches Some(f) ==> f.width + 8 <= usize::MAX && 2 + 10
            * report_of(boot_info).len() + 18 <= usize::MAX,
    ensures
        c.serial_pending() == init_ops(COM1) + bytes_ops(COM1, report_of(boot_info)),
        c.display() == match boot_info.framebuffer {
            Some(info) => Some(
                (
                    info,
                    after_bytes(
                        info,
                        FOREGROUND,
                        BACKGROUND,
                        (2int, 2int, initial_pixels(info)),
                        report_of(boot_info),
                    ),
                ),
            ),
            None => None::<(FramebufferInfo, ConsoleState)>,
        },
{
    let mut console = Console::new(boot_info.framebuffer);
    let report = boot_report_bytes(boot_info);
    console.write_bytes(report.as_slice());
    console
}

} // verus!
