use vstd::prelude::*;
use vstd::string::StringSliceAdditionalSpecFns;

verus! {

/// I/O port base of the first serial port.
pub const COM1: u16 = 0x3f8;

/// The byte of a line feed.
pub const LINE_FEED: u8 = 0x0a;

/// The byte of a carriage return.
pub const CARRIAGE_RETURN: u8 = 0x0d;

/// Bit of the line status register that is set when the transmitter can take a
/// byte.
pub const TRANSMIT_EMPTY: u8 = 0x20;

/// One step of port I/O that the kernel performs for a serial port.
#[derive(Debug, Clone, Copy, PartialEq, Eq, Structural)]
pub enum PortOp {
    /// Write `value` to `port`.
    Out { port: u16, value: u8 },
    /// Read `port` until the transmit-empty bit is set.
    WaitTransmitEmpty { port: u16 },
}

/// The writes that set up a 16550 UART at `base`: interrupts off, divisor 3
/// (38400 baud), 8N1, FIFO on with a 14-byte threshold, RTS/DSR and OUT2 set.
pub open spec fn init_ops(base: u16) -> Seq<PortOp> {
    seq![
        PortOp::Out { port: (base + 1) as u16, value: 0x00 },
        PortOp::Out { port: (base + 3) as u16, value: 0x80 },
        PortOp::Out { port: base, value: 0x03 },
        PortOp::Out { port: (base + 1) as u16, value: 0x00 },
        PortOp::Out { port: (base + 3) as u16, value: 0x03 },
        PortOp::Out { port: (base + 2) as u16, value: 0xc7 },
        PortOp::Out { port: (base + 4) as u16, value: 0x0b },
    ]
}

/// Sending one byte: wait until the transmitter is empty, then write the byte.
pub open spec fn send_ops(base: u16, byte: u8) -> Seq<PortOp> {
    seq![PortOp::WaitTransmitEmpty { port: (base + 5) as u16 }, PortOp::Out { port: base, value: byte }]
}

/// Writing one byte: a line feed goes out as a carriage return and a line feed.
pub open spec fn byte_ops(base: u16, byte: u8) -> Seq<PortOp> {
    if byte == LINE_FEED {
        send_ops(base, CARRIAGE_RETURN) + send_ops(base, LINE_FEED)
    } else {
        send_ops(base, byte)
    }
}

/// Writing every byte of `bytes`, in order.
pub open spec fn bytes_ops(base: u16, bytes: Seq<u8>) -> Seq<PortOp>
    decreases bytes.len(),
{
    if bytes.len() == 0 {
        Seq::empty()
    } else {
        bytes_ops(base, bytes.drop_last()) + byte_ops(base, bytes.last())
    }
}

/// The bytes that `ops` write to `port`, in order.
pub open spec fn written_to(ops: Seq<PortOp>, port: u16) -> Seq<u8>
    decreases ops.len(),
{
    if ops.len() == 0 {
        Seq::empty()
    } else {
        written_to(ops.drop_last(), port) + match ops.last() {
            PortOp::Out { port: p, value } => if p == port {
                seq![value]
            } else {
                Seq::empty()
            },
            PortOp::WaitTransmitEmpty { .. } => Seq::empty(),
        }
    }
}

/// Text with every line feed preceded by a carriage return.
pub open spec fn crlf(s: Seq<u8>) -> Seq<u8>
    decreases s.len(),
{
    if s.len() == 0 {
        Seq::empty()
    } else {
        crlf(s.drop_last()) + if s.last() == LINE_FEED {
            seq![CARRIAGE_RETURN, LINE_FEED]
        } else {
            seq![s.last()]
        }
    }
}

/// What two runs of port I/O write to a port is what each writes, in turn.
pub proof fn lemma_written_to_append(a: Seq<PortOp>, b: Seq<PortOp>, port: u16)
    ensures
        written_to(a + b, port) == written_to(a, port) + written_to(b, port),
    decreases b.len(),
{
    if b.len() == 0 {
        assert(a + b =~= a);
        assert(written_to(a, port) + written_to(b, port) =~= written_to(a, port));
    } else {
        assert((a + b).drop_last() =~= a + b.drop_last());
        lemma_written_to_append(a, b.drop_last(), port);
        assert(written_to(a + b, port) =~= written_to(a, port) + written_to(b, port));
    }
}

/// Writing two texts one after the other queues the I/O of each, in turn.
pub proof fn lemma_bytes_ops_append(base: u16, a: Seq<u8>, b: Seq<u8>)
    ensures
        bytes_ops(base, a + b) == bytes_ops(base, a) + bytes_ops(base, b),
    decreases b.len(),
{
    if b.len() == 0 {
        assert(a + b =~= a);
        assert(bytes_ops(base, a) + bytes_ops(base, b) =~= bytes_ops(base, a));
    } else {
        assert((a + b).drop_last() =~= a + b.drop_last());
        lemma_bytes_ops_append(base, a, b.drop_last());
        assert(bytes_ops(base, a + b) =~= bytes_ops(base, a) + bytes_ops(base, b));
    }
}

/// Turning line feeds into carriage return and line feed works piece by piece.
pub proof fn lemma_crlf_append(a: Seq<u8>, b: Seq<u8>)
    ensures
        crlf(a + b) == crlf(a) + crlf(b),
    decreases b.len(),
{
    if b.len() == 0 {
        assert(a + b =~= a);
        assert(crlf(a) + crlf(b) =~= crlf(a));
    } else {
        assert((a + b).drop_last() =~= a + b.drop_last());
        lemma_crlf_append(a, b.drop_last());
        assert(crlf(a + b) =~= crlf(a) + crlf(b));
    }
}

/// Text without line feeds goes out as it is.
pub proof fn lemma_crlf_no_line_feed(s: Seq<u8>)
    requires
        forall|i: int| 0 <= i < s.len() ==> s[i] != LINE_FEED,
    ensures
        crlf(s) == s,
    decreases s.len(),
{
    if s.len() > 0 {
        lemma_crlf_no_line_feed(s.drop_last());
        assert(crlf(s) =~= s);
    }
}

/// What a serial port puts on the line when text is written to it: the bytes of
/// the text, each line feed preceded by a carriage return.
pub proof fn lemma_bytes_ops_on_the_line(base: u16, s: Seq<u8>)
    ensures
        written_to(bytes_ops(base, s), base) == crlf(s),
    decreases s.len(),
{
    if s.len() > 0 {
        lemma_bytes_ops_on_the_line(base, s.drop_last());
        let b = s.last();
        lemma_written_to_append(bytes_ops(base, s.drop_last()), byte_ops(base, b), base);
        reveal_with_fuel(written_to, 5);
        if b == LINE_FEED {
            lemma_written_to_append(
                send_ops(base, CARRIAGE_RETURN),
                send_ops(base, LINE_FEED),
                base,
            );
            assert(written_to(send_ops(base, CARRIAGE_RETURN), base) =~= seq![CARRIAGE_RETURN]);
            assert(written_to(send_ops(base, LINE_FEED), base) =~= seq![LINE_FEED]);
        } else {
            assert(written_to(send_ops(base, b), base) =~= seq![b]);
        }
        assert(written_to(byte_ops(base, b), base) =~= if b == LINE_FEED {
            seq![CARRIAGE_RETURN, LINE_FEED]
        } else {
            seq![b]
        });
    }
}

/// Whether a line status byte says that the transmitter can take a byte.
pub fn is_transmit_empty(line_status: u8) -> (r: bool)
    ensures
        r == (line_status & TRANSMIT_EMPTY != 0),
{
    line_status & TRANSMIT_EMPTY != 0
}

/// A 16550 serial port at an I/O port base. What it does to the ports it queues
/// as steps, which the kernel carries out in order.
pub struct SerialPort {
    base: u16,
    ops: Vec<PortOp>,
}

impl SerialPort {
    /// The I/O port base.
    pub closed spec fn base_port(&self) -> u16 {
        self.base
    }

    /// The port I/O queued so far.
    pub closed spec fn pending(&self) -> Seq<PortOp> {
        self.ops@
    }

    /// A port at `base`, with nothing queued.
    pub fn new(base: u16) -> (p: Self)
        ensures
            p.base_port() == base,
            p.pending() == Seq::<PortOp>::empty(),
    {
        Self { base, ops: Vec::new() }
    }

    /// The I/O port base.
    pub fn base(&self) -> (r: u16)
        ensures
            r == self.base_port(),
    {
        self.base
    }

    /// Queues the setup of the UART.
    pub fn init(&mut self)
        requires
            old(self).base_port() + 4 <= u16::MAX,
        ensures
            final(self).base_port() == old(self).base_port(),
            final(self).pending() == old(self).pending() + init_ops(old(self).base_port()),
    {
        let b = self.base;
        self.ops.push(PortOp::Out { port: b + 1, value: 0x00 });
        self.ops.push(PortOp::Out { port: b + 3, value: 0x80 });
        self.ops.push(PortOp::Out { port: b, value: 0x03 });
        self.ops.push(PortOp::Out { port: b + 1, value: 0x00 });
        self.ops.push(PortOp::Out { port: b + 3, value: 0x03 });
        self.ops.push(PortOp::Out { port: b + 2, value: 0xc7 });
        self.ops.push(PortOp::Out { port: b + 4, value: 0x0b });
        assert(self.ops@ =~= old(self).ops@ + init_ops(b));
    }

    /// Queues one byte; a line feed goes out as a carriage return and a line feed.
    pub fn write_byte(&mut self, byte: u8)
        requires
            old(self).base_port() + 5 <= u16::MAX,
        ensures
            final(self).base_port() == old(self).base_port(),
            final(self).pending() == old(self).pending() + byte_ops(old(self).base_port(), byte),
        decreases (if byte == LINE_FEED {
            1int
        } else {
            0int
        }),
    {
        if byte == LINE_FEED {
            self.write_byte(CARRIAGE_RETURN);
        }
        self.ops.push(PortOp::WaitTransmitEmpty { port: self.base + 5 });
        self.ops.push(PortOp::Out { port: self.base, value: byte });
        assert(self.ops@ =~= old(self).ops@ + byte_ops(self.base, byte));
    }

    /// Queues the bytes of `s`.
    pub fn write_str(&mut self, s: &str)
        requires
            old(self).base_port() + 5 <= u16::MAX,
        ensures
            final(self).base_port() == old(self).base_port(),
            final(self).pending() == old(self).pending() + bytes_ops(
                old(self).base_port(),
                s.spec_bytes(),
            ),
    {
        self.write_bytes(s.as_bytes());
    }

    /// Queues the given bytes.
    pub fn write_bytes(&mut self, bytes: &[u8])
        requires
            old(self).base_port() + 5 <= u16::MAX,
        ensures
            final(self).base_port() == old(self).base_port(),
            final(self).pending() == old(self).pending() + bytes_ops(old(self).base_port(), bytes@),
    {
        let mut i: usize = 0;
        assert(bytes@.take(0) =~= Seq::<u8>::empty());
        assert(old(self).ops@ + bytes_ops(self.base, Seq::<u8>::empty()) =~= old(self).ops@);
        while i < bytes.len()
            invariant
                i <= bytes@.len(),
                self.base == old(self).base,
                self.base + 5 <= u16::MAX,
                self.ops@ == old(self).ops@ + bytes_ops(self.base, bytes@.take(i as int)),
            decreases bytes@.len() - i,
        {
            assert(bytes@.take(i + 1).drop_last() =~= bytes@.take(i as int));
            self.write_byte(bytes[i]);
            i = i + 1;
            assert(self.ops@ =~= old(self).ops@ + bytes_ops(self.base, bytes@.take(i as int)));
        }
        assert(bytes@.take(bytes@.len() as int) =~= bytes@);
    }

    /// Hands out the queued port I/O, in order, and empties the queue.
    pub fn take_ops(&mut self) -> (r: Vec<PortOp>)
        ensures
            r@ == old(self).pending(),
            final(self).pending() == Seq::<PortOp>::empty(),
            final(self).base_port() == old(self).base_port(),
    {
        let mut ops: Vec<PortOp> = Vec::new();
        std::mem::swap(&mut ops, &mut self.ops);
        ops
    }
}

/// The first serial port.
pub fn com1() -> (p: SerialPort)
    ensures
        p.base_port() == COM1,
        p.pending() == Seq::<PortOp>::empty(),
{
    SerialPort::new(COM1)
}

} // verus!
