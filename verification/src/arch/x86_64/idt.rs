use vstd::prelude::*;
use vstd::string::StringSliceAdditionalSpecFns;

use crate::arch::x86_64::serial::{bytes_ops, com1, init_ops, SerialPort, COM1};
use crate::text::number::{decimal, format_decimal, format_hex, hex};

verus! {

/// Selector of the kernel code segment, which every gate jumps to.
pub const KERNEL_CODE_SELECTOR: u16 = 0x08;

/// Entries of the interrupt descriptor table.
pub const IDT_ENTRY_COUNT: usize = 256;

/// Type and attributes of a present 64-bit interrupt gate at privilege level 0.
pub const INTERRUPT_GATE: u16 = 0x8e00;

/// One gate of the interrupt descriptor table.
#[derive(Debug, Clone, Copy, PartialEq, Eq, Structural)]
pub struct IdtEntry {
    pub offset_low: u16,
    pub selector: u16,
    pub options: u16,
    pub offset_mid: u16,
    pub offset_high: u32,
    pub reserved: u32,
}

/// The registers the CPU pushes when it enters an interrupt handler.
#[derive(Debug, Clone, Copy, PartialEq, Eq, Structural)]
pub struct InterruptStackFrame {
    pub instruction_pointer: u64,
    pub code_segment: u64,
    pub cpu_flags: u64,
    pub stack_pointer: u64,
    pub stack_segment: u64,
}

/// The address of an exception handler, by whether the CPU pushes an error code
/// for the exception it handles.
#[derive(Debug, Clone, Copy, PartialEq, Eq, Structural)]
pub enum HandlerAddress {
    WithoutErrorCode(u64),
    WithErrorCode(u64),
}

impl HandlerAddress {
    /// The address of the handler.
    pub open spec fn spec_address(&self) -> u64 {
        match self {
            HandlerAddress::WithoutErrorCode(a) => *a,
            HandlerAddress::WithErrorCode(a) => *a,
        }
    }

    /// The address of the handler.
    pub fn address(&self) -> (a: u64)
        ensures
            a == self.spec_address(),
    {
        match self {
            Self::WithoutErrorCode(handler) => *handler,
            Self::WithErrorCode(handler) => *handler,
        }
    }
}

/// The interrupt gate for code at `address`: the offset split into the low 16, middle 16
/// and high 32 bits, the kernel code selector, and interrupt gate options.
pub open spec fn gate(address: u64) -> IdtEntry {
    IdtEntry {
        offset_low: (address & 0xffff) as u16,
        selector: KERNEL_CODE_SELECTOR,
        options: INTERRUPT_GATE,
        offset_mid: ((address >> 16u64) & 0xffff) as u16,
        offset_high: (address >> 32u64) as u32,
        reserved: 0,
    }
}

/// An empty gate.
pub open spec fn missing_gate() -> IdtEntry {
    IdtEntry { offset_low: 0, selector: 0, options: 0, offset_mid: 0, offset_high: 0, reserved: 0 }
}

impl IdtEntry {
    /// An empty gate: not present.
    pub fn missing() -> (e: Self)
        ensures
            e == missing_gate(),
    {
        Self { offset_low: 0, selector: 0, options: 0, offset_mid: 0, offset_high: 0, reserved: 0 }
    }

    /// The interrupt gate that enters `handler`.
    pub fn new(handler: HandlerAddress) -> (e: Self)
        ensures
            e == gate(handler.spec_address()),
    {
        let address = handler.address();
        Self {
            offset_low: (address & 0xffff) as u16,
            selector: KERNEL_CODE_SELECTOR,
            options: INTERRUPT_GATE,
            offset_mid: ((address >> 16u64) & 0xffff) as u16,
            offset_high: (address >> 32u64) as u32,
            reserved: 0,
        }
    }

    /// The handler address that the three offset fields hold together.
    pub open spec fn offset(&self) -> u64 {
        (self.offset_low as u64) | ((self.offset_mid as u64) << 16u64) | ((
        self.offset_high as u64) << 32u64)
    }
}

/// The offset fields of a gate put back together give the handler's address.
pub proof fn lemma_gate_offset(address: u64)
    ensures
        gate(address).offset() == address,
{
    let lo = (address & 0xffff) as u16;
    let mid = ((address >> 16u64) & 0xffff) as u16;
    let hi = (address >> 32u64) as u32;
    assert((lo as u64) | ((mid as u64) << 16u64) | ((hi as u64) << 32u64) == address) by (
    bit_vector)
        requires
            lo == (address & 0xffff) as u16,
            mid == ((address >> 16u64) & 0xffff) as u16,
            hi == (address >> 32u64) as u32,
    ;
}

/// The addresses of the exception handlers the kernel installs.
#[derive(Debug, Clone, Copy, PartialEq, Eq, Structural)]
pub struct ExceptionHandlers {
    pub divide_error: u64,
    pub breakpoint: u64,
    pub invalid_opcode: u64,
    pub double_fault: u64,
    pub general_protection_fault: u64,
    pub page_fault: u64,
}

/// The gates of a table with the kernel's exception handlers: divide error (0),
/// breakpoint (3) and invalid opcode (6) without an error code; double fault (8),
/// general protection fault (13) and page fault (14) with one; every other vector
/// empty.
pub open spec fn exception_gates(h: ExceptionHandlers) -> Seq<IdtEntry> {
    Seq::new(
        256,
        |v: int|
            if v == 0 {
                gate(h.divide_error)
            } else if v == 3 {
                gate(h.breakpoint)
            } else if v == 6 {
                gate(h.invalid_opcode)
            } else if v == 8 {
                gate(h.double_fault)
            } else if v == 13 {
                gate(h.general_protection_fault)
            } else if v == 14 {
                gate(h.page_fault)
            } else {
                missing_gate()
            },
    )
}

/// The interrupt descriptor table: 256 gates.
pub struct InterruptDescriptorTable {
    entries: Vec<IdtEntry>,
}

impl View for InterruptDescriptorTable {
    type V = Seq<IdtEntry>;

    closed spec fn view(&self) -> Seq<IdtEntry> {
        self.entries@
    }
}

impl InterruptDescriptorTable {
    /// A table of 256 empty gates.
    pub fn new() -> (t: Self)
        ensures
            t@ == Seq::new(256, |i: int| missing_gate()),
    {
        let mut entries: Vec<IdtEntry> = Vec::new();
        let mut i: usize = 0;
        while i < IDT_ENTRY_COUNT
            invariant
                i <= 256,
                entries@ == Seq::new(i as nat, |k: int| missing_gate()),
            decreases 256 - i,
        {
            entries.push(IdtEntry::missing());
            i = i + 1;
            assert(entries@ =~= Seq::new(i as nat, |k: int| missing_gate()));
        }
        Self { entries }
    }

    /// Installs a handler at `vector`.
    pub fn set_handler(&mut self, vector: u8, handler: HandlerAddress)
        requires
            old(self)@.len() == 256,
        ensures
            final(self)@ == old(self)@.update(vector as int, gate(handler.spec_address())),
    {
        self.entries.set(vector as usize, IdtEntry::new(handler));
    }

    /// The gates of the table.
    pub fn entries(&self) -> (r: &[IdtEntry])
        ensures
            r@ == self@,
    {
        self.entries.as_slice()
    }

    /// The table with the kernel's exception handlers installed.
    pub fn with_exception_handlers(handlers: ExceptionHandlers) -> (t: Self)
        ensures
            t@ == exception_gates(handlers),
    {
        let mut idt = Self::new();
        idt.set_handler(0, HandlerAddress::WithoutErrorCode(handlers.divide_error));
        idt.set_handler(3, HandlerAddress::WithoutErrorCode(handlers.breakpoint));
        idt.set_handler(6, HandlerAddress::WithoutErrorCode(handlers.invalid_opcode));
        idt.set_handler(8, HandlerAddress::WithErrorCode(handlers.double_fault));
        idt.set_handler(13, HandlerAddress::WithErrorCode(handlers.general_protection_fault));
        idt.set_handler(14, HandlerAddress::WithErrorCode(handlers.page_fault));
        assert(idt@ =~= exception_gates(handlers));
        idt
    }
}

/// What the kernel reports of an exception: its name, its vector, its error code
/// where the CPU pushed one, the instruction pointer, and that it halts.
pub open spec fn exception_report(
    name: Seq<u8>,
    vector: u8,
    error_code: Option<u64>,
    instruction_pointer: u64,
) -> Seq<u8> {
    "Exception: ".spec_bytes() + name + "\n".spec_bytes() + "Vector: ".spec_bytes() + decimal(
        vector as nat,
    ) + "\n".spec_bytes() + match error_code {
        Some(code) => "Error code: 0x".spec_bytes() + hex(code as nat) + "\n".spec_bytes(),
        None => Seq::empty(),
    } + "Instruction pointer: 0x".spec_bytes() + hex(instruction_pointer as nat) + "\n".spec_bytes()
        + "Kernel halted.\n".spec_bytes()
}

/// Reports an exception on a freshly set up first serial port; the port is
/// returned with the setup and the report queued.
pub fn report_exception(
    name: &str,
    vector: u8,
    error_code: Option<u64>,
    stack_frame: &InterruptStackFrame,
) -> (port: SerialPort)
    ensures
        port.base_port() == COM1,
        port.pending() == init_ops(COM1) + bytes_ops(
            COM1,
            exception_report(name.spec_bytes(), vector, error_code, stack_frame.instruction_pointer),
        ),
{
    let mut port = com1();
    port.init();
    let mut text: Vec<u8> = Vec::new();
    text.extend_from_slice("Exception: ".as_bytes());
    text.extend_from_slice(name.as_bytes());
    text.extend_from_slice("\n".as_bytes());
    text.extend_from_slice("Vector: ".as_bytes());
    text.extend_from_slice(format_decimal(vector as u64).as_slice());
    text.extend_from_slice("\n".as_bytes());
    let ghost before_code = text@;
    match error_code {
        Some(code) => {
            text.extend_from_slice("Error code: 0x".as_bytes());
            text.extend_from_slice(format_hex(code).as_slice());
            text.extend_from_slice("\n".as_bytes());
        },
        None => {},
    }
    text.extend_from_slice("Instruction pointer: 0x".as_bytes());
    text.extend_from_slice(format_hex(stack_frame.instruction_pointer).as_slice());
    text.extend_from_slice("\n".as_bytes());
    text.extend_from_slice("Kernel halted.\n".as_bytes());
    assert(text@ =~= exception_report(
        name.spec_bytes(),
        vector,
        error_code,
        stack_frame.instruction_pointer,
    ));
    port.write_bytes(text.as_slice());
    assert(Seq::<crate::arch::x86_64::serial::PortOp>::empty() + init_ops(COM1) =~= init_ops(COM1));
    port
}

} // verus!
