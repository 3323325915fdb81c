use vstd::prelude::*;
use vstd::string::StringSliceAdditionalSpecFns;

use crate::arch::x86_64::serial::{bytes_ops, com1, init_ops, PortOp, SerialPort, COM1};

verus! {

/// The kernel's serial console on the first serial port.
pub struct SerialConsole {
    port: SerialPort,
}

impl SerialConsole {
    /// The port I/O queued so far.
    pub closed spec fn pending(&self) -> Seq<PortOp> {
        self.port.pending()
    }

    /// Whether the console drives the first serial port.
    pub closed spec fn wf(&self) -> bool {
        self.port.base_port() == COM1
    }

    /// A console on the first serial port, with nothing queued.
    pub fn new_com1() -> (c: Self)
        ensures
            c.wf(),
            c.pending() == Seq::<PortOp>::empty(),
    {
        Self { port: com1() }
    }

    /// Queues the setup of the port.
    pub fn init(&mut self)
        requires
            old(self).wf(),
        ensures
            final(self).wf(),
            final(self).pending() == old(self).pending() + init_ops(COM1),
    {
        self.port.init();
    }

    /// Queues the bytes of `s`.
    pub fn write_str(&mut self, s: &str)
        requires
            old(self).wf(),
        ensures
            final(self).wf(),
            final(self).pending() == old(self).pending() + bytes_ops(COM1, s.spec_bytes()),
    {
        self.port.write_str(s);
    }

    /// Queues the given bytes.
    pub fn write_bytes(&mut self, bytes: &[u8])
        requires
            old(self).wf(),
        ensures
            final(self).wf(),
            final(self).pending() == old(self).pending() + bytes_ops(COM1, bytes@),
    {
        self.port.write_bytes(bytes);
    }

    /// Hands out the queued port I/O, in order, and empties the queue.
    pub fn take_ops(&mut self) -> (r: Vec<PortOp>)
        requires
            old(self).wf(),
        ensures
            final(self).wf(),
            r@ == old(self).pending(),
            final(self).pending() == Seq::<PortOp>::empty(),
    {
        self.port.take_ops()
    }
}

} // verus!
