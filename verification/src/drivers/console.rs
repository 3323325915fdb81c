use vstd::prelude::*;
use vstd::string::StringSliceAdditionalSpecFns;

use crate::arch::x86_64::serial::{bytes_ops, init_ops, PortOp, COM1};
use crate::boot::FramebufferInfo;
use crate::drivers::framebuffer::{
    after_bytes, fill_rows, ConsoleState, FramebufferConsole, PixelWrite, BACKGROUND, FOREGROUND,
};
use crate::drivers::serial::SerialConsole;

verus! {

/// The pixels that a fresh console queues on a framebuffer: the whole framebuffer
/// in the background colour, then the banner (nothing unless it has 32 bits per
/// pixel).
pub open spec fn initial_pixels(info: FramebufferInfo) -> Seq<PixelWrite> {
    if info.bits_per_pixel != 32 {
        Seq::empty()
    } else {
        let cleared = fill_rows(info, Seq::empty(), BACKGROUND, false, info.height as nat);
        fill_rows(
            info,
            cleared,
            BACKGROUND,
            true,
            if info.height < 96 {
                info.height as nat
            } else {
                96
            },
        )
    }
}

/// The kernel console: everything goes to the serial port, and to the framebuffer
/// where there is one.
pub struct Console {
    serial: SerialConsole,
    framebuffer: Option<FramebufferConsole>,
}

impl Console {
    /// The serial port I/O queued so far.
    pub closed spec fn serial_pending(&self) -> Seq<PortOp> {
        self.serial.pending()
    }

    /// The framebuffer and the state of its console, where there is one.
    pub closed spec fn display(&self) -> Option<(FramebufferInfo, ConsoleState)> {
        match self.framebuffer {
            Some(f) => Some((f.framebuffer(), f.state())),
            None => None,
        }
    }

    /// The serial console drives the first port; the framebuffer console has its
    /// default colours and its cursor in range.
    pub closed spec fn wf(&self) -> bool {
        &&& self.serial.wf()
        &&& match self.framebuffer {
            Some(f) => f.wf() && f.fg() == FOREGROUND && f.bg() == BACKGROUND,
            None => true,
        }
    }

    /// A console that sets up the serial port, and clears the framebuffer and draws
    /// the banner where there is one.
    pub fn new(framebuffer: Option<FramebufferInfo>) -> (c: Self)
        ensures
            c.wf(),
            c.serial_pending() == init_ops(COM1),
            c.display() == match framebuffer {
                Some(info) => Some((info, (2int, 2int, initial_pixels(info)))),
                None => None::<(FramebufferInfo, ConsoleState)>,
            },
    {
        let mut serial = SerialConsole::new_com1();
        serial.init();
        assert(Seq::<PortOp>::empty() + init_ops(COM1) =~= init_ops(COM1));
        let framebuffer = match framebuffer {
            Some(info) => {
                let mut fb = FramebufferConsole::new(info);
                fb.clear();
                fb.draw_banner();
                Some(fb)
            },
            None => None,
        };
        Self { serial, framebuffer }
    }

    /// Writes the given bytes to the serial port and the framebuffer.
    pub fn write_bytes(&mut self, bytes: &[u8])
        requires
            old(self).wf(),
            old(self).display() matches Some((info, st)) ==> st.1 + 10 * bytes@.len() + 18
                <= usize::MAX && info.width + 8 <= usize::MAX,
        ensures
            final(self).wf(),
            final(self).serial_pending() == old(self).serial_pending() + bytes_ops(COM1, bytes@),
            final(self).display() == match old(self).display() {
                Some((info, st)) => Some(
                    (info, after_bytes(info, FOREGROUND, BACKGROUND, st, bytes@)),
                ),
                None => None::<(FramebufferInfo, ConsoleState)>,
            },
    {
        self.serial.write_bytes(bytes);
        match &mut self.framebuffer {
            Some(fb) => {
                fb.write_bytes(bytes);
            },
            None => {},
        }
    }

    /// Writes `s` to the serial port and the framebuffer.
    pub fn write_str(&mut self, s: &str)
        requires
            old(self).wf(),
            old(self).display() matches Some((info, st)) ==> st.1 + 10 * s.spec_bytes().len() + 18
                <= usize::MAX && info.width + 8 <= usize::MAX,
        ensures
            final(self).wf(),
            final(self).serial_pending() == old(self).serial_pending() + bytes_ops(
                COM1,
                s.spec_bytes(),
            ),
            final(self).display() == match old(self).display() {
                Some((info, st)) => Some(
                    (info, after_bytes(info, FOREGROUND, BACKGROUND, st, s.spec_bytes())),
                ),
                None => None::<(FramebufferInfo, ConsoleState)>,
            },
    {
        self.write_bytes(s.as_bytes());
    }

    /// Hands out the queued serial port I/O and empties its queue.
    pub fn take_serial_ops(&mut self) -> (r: Vec<PortOp>)
        requires
            old(self).wf(),
        ensures
            final(self).wf(),
            r@ == old(self).serial_pending(),
            final(self).serial_pending() == Seq::<PortOp>::empty(),
            final(self).display() == old(self).display(),
    {
        self.serial.take_ops()
    }

    /// Hands out the queued pixel writes and empties their queue.
    pub fn take_pixels(&mut self) -> (r: Vec<PixelWrite>)
        requires
            old(self).wf(),
        ensures
            final(self).wf(),
            final(self).serial_pending() == old(self).serial_pending(),
            match old(self).display() {
                Some((info, st)) => r@ == st.2 && final(self).display() == Some(
                    (info, (st.0, st.1, Seq::<PixelWrite>::empty())),
                ),
                None => r@ == Seq::<PixelWrite>::empty() && final(self).display() == None::<
                    (FramebufferInfo, ConsoleState),
                >,
            },
    {
        match &mut self.framebuffer {
            Some(fb) => fb.take_pixels(),
            None => Vec::new(),
        }
    }
}

} // verus!
