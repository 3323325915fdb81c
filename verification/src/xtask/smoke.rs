use vstd::prelude::*;
use vstd::string::StringSliceAdditionalSpecFns;

use crate::arch::x86_64::idt::exception_report;
use crate::arch::x86_64::serial::{
    bytes_ops, lemma_bytes_ops_on_the_line, lemma_crlf_append, lemma_crlf_no_line_feed, written_to,
    COM1, LINE_FEED,
};
use crate::boot::BootInfo;
use crate::kernel::report_of;

verus! {

/// The line the kernel prints once it is up.
pub const SMOKE_BOOT_MARKER: &'static str = "Oxid kernel initialized";

/// The line the kernel prints when the breakpoint exception reaches it.
pub const SMOKE_EXCEPTION_MARKER: &'static str = "Exception: Breakpoint";

/// Whether `needle` occurs in `hay` at position `i`.
pub open spec fn occurs_at(hay: Seq<u8>, needle: Seq<u8>, i: int) -> bool {
    0 <= i && i + needle.len() <= hay.len() && hay.subrange(i, i + needle.len()) == needle
}

/// Whether `needle` occurs anywhere in `hay`.
pub open spec fn occurs(hay: Seq<u8>, needle: Seq<u8>) -> bool {
    exists|i: int| occurs_at(hay, needle, i)
}

/// Whether `marker` occurs at position `i` of `hay`.
fn matches_at(hay: &[u8], needle: &[u8], i: usize) -> (r: bool)
    requires
        i + needle@.len() <= hay@.len(),
    ensures
        r == occurs_at(hay@, needle@, i as int),
{
    // Asking for the length brings in that it fits a `usize`.
    let _len = hay.len();
    let mut k: usize = 0;
    while k < needle.len()
        invariant
            k <= needle@.len(),
            hay@.len() <= usize::MAX,
            i + needle@.len() <= hay@.len(),
            forall|j: int| 0 <= j < k ==> hay@[i + j] == needle@[j],
        decreases needle@.len() - k,
    {
        if hay[i + k] != needle[k] {
            assert(hay@.subrange(i as int, i + needle@.len())[k as int] != needle@[k as int]);
            return false;
        }
        k = k + 1;
    }
    assert(hay@.subrange(i as int, i + needle@.len()) =~= needle@);
    true
}

/// Whether the serial log of a boot holds the marker line.
pub fn serial_contains(serial: &str, marker: &str) -> (r: bool)
    ensures
        r == occurs(serial.spec_bytes(), marker.spec_bytes()),
{
    let hay = serial.as_bytes();
    let needle = marker.as_bytes();
    if needle.len() > hay.len() {
        return false;
    }
    let last = hay.len() - needle.len();
    let mut i: usize = 0;
    while i < last
        invariant
            last + needle@.len() == hay@.len(),
            hay@ == serial.spec_bytes(),
            needle@ == marker.spec_bytes(),
            i <= last,
            forall|j: int| 0 <= j < i ==> !occurs_at(hay@, needle@, j),
        decreases last - i,
    {
        if matches_at(hay, needle, i) {
            return true;
        }
        i = i + 1;
    }
    matches_at(hay, needle, last)
}

/// Text that starts with a line free of line feeds puts that line on the first
/// serial port.
proof fn lemma_leading_text_on_the_line(text: Seq<u8>, marker: Seq<u8>)
    requires
        marker.len() <= text.len(),
        text.subrange(0, marker.len() as int) == marker,
        forall|i: int| 0 <= i < marker.len() ==> marker[i] != LINE_FEED,
    ensures
        occurs(written_to(bytes_ops(COM1, text), COM1), marker),
{
    let rest = text.subrange(marker.len() as int, text.len() as int);
    assert(text =~= marker + rest);
    lemma_bytes_ops_on_the_line(COM1, text);
    lemma_crlf_append(marker, rest);
    lemma_crlf_no_line_feed(marker);
    let line = written_to(bytes_ops(COM1, text), COM1);
    assert(line.subrange(0, marker.len() as int) =~= marker);
    assert(occurs_at(line, marker, 0));
}

/// Every boot passes the boot smoke test: what the kernel writes to the first
/// serial port after setting it up holds the line that the test looks for.
pub proof fn lemma_boot_report_passes_smoke(boot_info: &BootInfo)
    ensures
        occurs(
            written_to(bytes_ops(COM1, report_of(boot_info)), COM1),
            SMOKE_BOOT_MARKER.spec_bytes(),
        ),
{
    let m = SMOKE_BOOT_MARKER.spec_bytes();
    reveal_strlit("Oxid kernel initialized");
    reveal_strlit("Oxid kernel initialized\n");
    vstd::string::is_ascii_spec_bytes("Oxid kernel initialized");
    vstd::string::is_ascii_spec_bytes("Oxid kernel initialized\n");
    let text = report_of(boot_info);
    assert(text.subrange(0, m.len() as int) =~= m);
    lemma_leading_text_on_the_line(text, m);
}

/// The breakpoint exception passes the exception smoke test: its report on the
/// first serial port holds the line that the test looks for.
pub proof fn lemma_breakpoint_report_passes_smoke(instruction_pointer: u64)
    ensures
        occurs(
            written_to(
                bytes_ops(
                    COM1,
                    exception_report("Breakpoint".spec_bytes(), 3, None, instruction_pointer),
                ),
                COM1,
            ),
            SMOKE_EXCEPTION_MARKER.spec_bytes(),
        ),
{
    let m = SMOKE_EXCEPTION_MARKER.spec_bytes();
    reveal_strlit("Exception: Breakpoint");
    reveal_strlit("Exception: ");
    reveal_strlit("Breakpoint");
    vstd::string::is_ascii_spec_bytes("Exception: Breakpoint");
    vstd::string::is_ascii_spec_bytes("Exception: ");
    vstd::string::is_ascii_spec_bytes("Breakpoint");
    let text = exception_report("Breakpoint".spec_bytes(), 3, None, instruction_pointer);
    assert(text.subrange(0, m.len() as int) =~= m);
    lemma_leading_text_on_the_line(text, m);
}

} // verus!
