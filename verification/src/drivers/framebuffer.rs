use vstd::prelude::*;
use vstd::string::StringSliceAdditionalSpecFns;

use crate::boot::FramebufferInfo;
use crate::drivers::glyph::{glyph, glyph_rows};

verus! {

/// Width of a glyph in pixels.
pub const GLYPH_WIDTH: usize = 8;

/// Height of a glyph in pixels.
pub const GLYPH_HEIGHT: usize = 8;

/// Column and row at which text starts, in pixels.
pub const TEXT_MARGIN: usize = 2;

/// Colour of text.
pub const FOREGROUND: u32 = 0x00e6edf3;

/// Colour of the background.
pub const BACKGROUND: u32 = 0x00101820;

/// Colour of the top stripe of the banner.
pub const BANNER_TOP: u32 = 0x0000b4d8;

/// Colour of the second stripe of the banner.
pub const BANNER_SECOND: u32 = 0x00f5c542;

/// One pixel to be written into the framebuffer.
#[derive(Debug, Clone, Copy, PartialEq, Eq, Structural)]
pub struct PixelWrite {
    pub x: usize,
    pub y: usize,
    pub color: u32,
}

/// Whether pixel (`x`, `y`) is written at all: it lies inside the framebuffer,
/// and the framebuffer has 32 bits per pixel.
pub open spec fn visible(info: FramebufferInfo, x: int, y: int) -> bool {
    x < info.width && y < info.height && info.bits_per_pixel == 32
}

/// The writes `s` followed by the write of pixel (`x`, `y`), where it is visible.
pub open spec fn put(info: FramebufferInfo, s: Seq<PixelWrite>, x: int, y: int, color: u32) -> Seq<
    PixelWrite,
> {
    if visible(info, x, y) {
        s.push(PixelWrite { x: x as usize, y: y as usize, color })
    } else {
        s
    }
}

/// The writes `s` followed by those of pixels `x0..x0 + n` of row `y` in one
/// colour.
pub open spec fn fill_row(info: FramebufferInfo, s: Seq<PixelWrite>, x0: int, y: int, color: u32, n: nat) -> Seq<
    PixelWrite,
>
    decreases n,
{
    if n == 0 {
        s
    } else {
        put(info, fill_row(info, s, x0, y, color, (n - 1) as nat), x0 + n - 1, y, color)
    }
}

/// Colour of row `y` of the banner.
pub open spec fn banner_color(y: int, background: u32) -> u32 {
    if y < 8 {
        BANNER_TOP
    } else if y < 16 {
        BANNER_SECOND
    } else {
        background
    }
}

/// The writes `s` followed by those of rows `0..n`, every row across the whole
/// width, in the background colour (`banner` false) or the banner's colours.
pub open spec fn fill_rows(info: FramebufferInfo, s: Seq<PixelWrite>, background: u32, banner: bool, n: nat) -> Seq<
    PixelWrite,
>
    decreases n,
{
    if n == 0 {
        s
    } else {
        let y = n - 1;
        let color = if banner {
            banner_color(y, background)
        } else {
            background
        };
        fill_row(info, fill_rows(info, s, background, banner, (n - 1) as nat), 0, y, color, info.width as nat)
    }
}

/// Whether pixel `col` (0 leftmost) of a glyph row is set.
pub open spec fn glyph_bit(bits: u8, col: int) -> bool {
    bits & (1u8 << ((7 - col) as u8)) != 0
}

/// The writes `s` followed by those of columns `0..n` of one glyph row at
/// (`x0`, `y`).
pub open spec fn glyph_row_writes(
    info: FramebufferInfo,
    s: Seq<PixelWrite>,
    x0: int,
    y: int,
    bits: u8,
    fg: u32,
    bg: u32,
    n: nat,
) -> Seq<PixelWrite>
    decreases n,
{
    if n == 0 {
        s
    } else {
        let col = n - 1;
        put(
            info,
            glyph_row_writes(info, s, x0, y, bits, fg, bg, (n - 1) as nat),
            x0 + col,
            y,
            if glyph_bit(bits, col) {
                fg
            } else {
                bg
            },
        )
    }
}

/// The writes `s` followed by those of rows `0..n` of the glyph of `byte` with its
/// top left corner at (`x0`, `y0`).
pub open spec fn glyph_writes(
    info: FramebufferInfo,
    s: Seq<PixelWrite>,
    x0: int,
    y0: int,
    byte: u8,
    fg: u32,
    bg: u32,
    n: nat,
) -> Seq<PixelWrite>
    decreases n,
{
    if n == 0 {
        s
    } else {
        let row = n - 1;
        glyph_row_writes(
            info,
            glyph_writes(info, s, x0, y0, byte, fg, bg, (n - 1) as nat),
            x0,
            y0 + row,
            glyph_rows(byte)[row],
            fg,
            bg,
            8,
        )
    }
}

/// The pixel of column `col` in a glyph row `bits`, counted from the left: the
/// foreground where bit `7 - col` is set, the background elsewhere.
proof fn lemma_glyph_bit_from_left(bits: u8, col: int)
    requires
        0 <= col < 8,
    ensures
        glyph_bit(bits, col) == (bits & (0x80u8 >> (col as u8)) != 0),
{
    let c = col as u8;
    assert((bits & (1u8 << ((7 - c) as u8))) == (bits & (0x80u8 >> c))) by (bit_vector)
        requires
            c < 8,
    ;
}

/// The pixels of one glyph row drawn where it is fully visible.
proof fn lemma_glyph_row_pixels(
    info: FramebufferInfo,
    s: Seq<PixelWrite>,
    x0: int,
    y: int,
    bits: u8,
    fg: u32,
    bg: u32,
    n: nat,
)
    requires
        n <= 8,
        0 <= x0,
        0 <= y < info.height,
        x0 + 8 <= info.width,
        info.bits_per_pixel == 32,
    ensures
        glyph_row_writes(info, s, x0, y, bits, fg, bg, n) == s + Seq::new(
            n,
            |c: int|
                PixelWrite {
                    x: (x0 + c) as usize,
                    y: y as usize,
                    color: if bits & (0x80u8 >> (c as u8)) != 0 {
                        fg
                    } else {
                        bg
                    },
                },
        ),
    decreases n,
{
    if n > 0 {
        lemma_glyph_row_pixels(info, s, x0, y, bits, fg, bg, (n - 1) as nat);
        lemma_glyph_bit_from_left(bits, n - 1);
        assert(glyph_row_writes(info, s, x0, y, bits, fg, bg, n) =~= s + Seq::new(
            n,
            |c: int|
                PixelWrite {
                    x: (x0 + c) as usize,
                    y: y as usize,
                    color: if bits & (0x80u8 >> (c as u8)) != 0 {
                        fg
                    } else {
                        bg
                    },
                },
        ));
    }
}

/// A glyph drawn where it is fully visible writes its 64 pixels row by row, left
/// to right: pixel `k` at column `k % 8` and row `k / 8` of the glyph, in the
/// foreground where that row of the glyph has the bit of that column (the leftmost
/// column is the top bit), in the background elsewhere.
pub proof fn lemma_glyph_pixels(
    info: FramebufferInfo,
    s: Seq<PixelWrite>,
    x0: int,
    y0: int,
    byte: u8,
    fg: u32,
    bg: u32,
)
    requires
        0 <= x0,
        0 <= y0,
        x0 + 8 <= info.width,
        y0 + 8 <= info.height,
        info.bits_per_pixel == 32,
    ensures
        glyph_writes(info, s, x0, y0, byte, fg, bg, 8) == s + Seq::new(
            64,
            |k: int|
                PixelWrite {
                    x: (x0 + k % 8) as usize,
                    y: (y0 + k / 8) as usize,
                    color: if glyph_rows(byte)[k / 8] & (0x80u8 >> ((k % 8) as u8)) != 0 {
                        fg
                    } else {
                        bg
                    },
                },
        ),
{
    lemma_glyph_rows_pixels(info, s, x0, y0, byte, fg, bg, 8);
}

/// The pixels of the first `n` rows of a glyph drawn where it is fully visible.
proof fn lemma_glyph_rows_pixels(
    info: FramebufferInfo,
    s: Seq<PixelWrite>,
    x0: int,
    y0: int,
    byte: u8,
    fg: u32,
    bg: u32,
    n: nat,
)
    requires
        n <= 8,
        0 <= x0,
        0 <= y0,
        x0 + 8 <= info.width,
        y0 + 8 <= info.height,
        info.bits_per_pixel == 32,
    ensures
        glyph_writes(info, s, x0, y0, byte, fg, bg, n) == s + Seq::new(
            8 * n,
            |k: int|
                PixelWrite {
                    x: (x0 + k % 8) as usize,
                    y: (y0 + k / 8) as usize,
                    color: if glyph_rows(byte)[k / 8] & (0x80u8 >> ((k % 8) as u8)) != 0 {
                        fg
                    } else {
                        bg
                    },
                },
        ),
    decreases n,
{
    if n > 0 {
        let row = n - 1;
        lemma_glyph_rows_pixels(info, s, x0, y0, byte, fg, bg, (n - 1) as nat);
        let before = glyph_writes(info, s, x0, y0, byte, fg, bg, (n - 1) as nat);
        lemma_glyph_row_pixels(info, before, x0, y0 + row, glyph_rows(byte)[row], fg, bg, 8);
        let expected = s + Seq::new(
            8 * n,
            |k: int|
                PixelWrite {
                    x: (x0 + k % 8) as usize,
                    y: (y0 + k / 8) as usize,
                    color: if glyph_rows(byte)[k / 8] & (0x80u8 >> ((k % 8) as u8)) != 0 {
                        fg
                    } else {
                        bg
                    },
                },
        );
        let got = glyph_writes(info, s, x0, y0, byte, fg, bg, n);
        assert(got.len() == expected.len());
        assert forall|k: int| 0 <= k < got.len() implies got[k] == expected[k] by {
            if k >= s.len() + 8 * row {
                let j = k - s.len();
                assert(j / 8 == row && j % 8 == j - 8 * row);
            }
        }
        assert(got =~= expected);
    }
}

/// The state of a framebuffer console: cursor column and row, and the pixel
/// writes so far.
pub type ConsoleState = (int, int, Seq<PixelWrite>);

/// The state after one byte: a line feed moves to the start of the next text
/// line, a carriage return to the start of the line; any other byte moves to the
/// next line first where it would reach the right edge, is drawn, and moves the
/// cursor one glyph to the right.
pub open spec fn after_byte(info: FramebufferInfo, fg: u32, bg: u32, st: ConsoleState, byte: u8) -> ConsoleState {
    let (x, y, s) = st;
    if byte == 0x0a {
        (2, y + 10, s)
    } else if byte == 0x0d {
        (2, y, s)
    } else {
        let (x1, y1) = if x + 8 >= info.width {
            (2, y + 10)
        } else {
            (x, y)
        };
        (x1 + 8, y1, glyph_writes(info, s, x1, y1, byte, fg, bg, 8))
    }
}

/// A line feed moves the cursor to the left margin of the next text line, a
/// glyph and two rows further down, whatever the column was, and draws nothing;
/// a carriage return moves it to the left margin of the same line.
pub proof fn lemma_line_feed_and_return(info: FramebufferInfo, fg: u32, bg: u32, st: ConsoleState)
    ensures
        after_byte(info, fg, bg, st, 0x0a) == (TEXT_MARGIN as int, st.1 + GLYPH_HEIGHT + 2, st.2),
        after_byte(info, fg, bg, st, 0x0d) == (TEXT_MARGIN as int, st.1, st.2),
{
}

/// Any other byte is drawn at the cursor and moves it one glyph to the right
/// where the glyph ends left of the right edge; otherwise it is drawn at the left
/// margin of the next text line and the cursor goes one glyph right of the margin.
pub proof fn lemma_glyph_at_cursor_or_next_line(
    info: FramebufferInfo,
    fg: u32,
    bg: u32,
    st: ConsoleState,
    byte: u8,
)
    requires
        byte != 0x0a && byte != 0x0d,
    ensures
        st.0 + GLYPH_WIDTH < info.width ==> after_byte(info, fg, bg, st, byte) == (
            st.0 + GLYPH_WIDTH,
            st.1,
            glyph_writes(info, st.2, st.0, st.1, byte, fg, bg, 8),
        ),
        st.0 + GLYPH_WIDTH >= info.width ==> after_byte(info, fg, bg, st, byte) == (
            (TEXT_MARGIN + GLYPH_WIDTH) as int,
            st.1 + GLYPH_HEIGHT + 2,
            glyph_writes(info, st.2, TEXT_MARGIN as int, st.1 + GLYPH_HEIGHT + 2, byte, fg, bg, 8),
        ),
{
}

/// A glyph drawn after a line feed starts at the left margin of the next line,
/// wherever the cursor was before.
pub proof fn lemma_text_after_line_feed(info: FramebufferInfo, fg: u32, bg: u32, st: ConsoleState, byte: u8)
    requires
        byte != 0x0a && byte != 0x0d,
        TEXT_MARGIN + GLYPH_WIDTH < info.width,
    ensures
        after_bytes(info, fg, bg, st, seq![0x0au8, byte]) == (
            (TEXT_MARGIN + GLYPH_WIDTH) as int,
            st.1 + GLYPH_HEIGHT + 2,
            glyph_writes(info, st.2, TEXT_MARGIN as int, st.1 + GLYPH_HEIGHT + 2, byte, fg, bg, 8),
        ),
{
    let two = seq![0x0au8, byte];
    assert(two.drop_last() =~= seq![0x0au8]);
    assert(seq![0x0au8].drop_last() =~= Seq::<u8>::empty());
    assert(after_bytes(info, fg, bg, st, Seq::<u8>::empty()) == st);
    assert(after_bytes(info, fg, bg, st, seq![0x0au8]) == after_byte(info, fg, bg, st, 0x0a));
}

/// The state after every byte of `bytes`.
pub open spec fn after_bytes(info: FramebufferInfo, fg: u32, bg: u32, st: ConsoleState, bytes: Seq<u8>) -> ConsoleState
    decreases bytes.len(),
{
    if bytes.len() == 0 {
        st
    } else {
        after_byte(info, fg, bg, after_bytes(info, fg, bg, st, bytes.drop_last()), bytes.last())
    }
}

/// A text console drawn into a linear framebuffer with an 8x8 font. The pixels it
/// draws it queues, for the kernel to write into the framebuffer.
pub struct FramebufferConsole {
    info: FramebufferInfo,
    cursor_x: usize,
    cursor_y: usize,
    foreground: u32,
    background: u32,
    pixels: Vec<PixelWrite>,
}

impl FramebufferConsole {
    /// The framebuffer.
    pub closed spec fn framebuffer(&self) -> FramebufferInfo {
        self.info
    }

    /// The cursor column, row and the queued pixel writes.
    pub closed spec fn state(&self) -> ConsoleState {
        (self.cursor_x as int, self.cursor_y as int, self.pixels@)
    }

    /// The colour of text.
    pub closed spec fn fg(&self) -> u32 {
        self.foreground
    }

    /// The colour of the background.
    pub closed spec fn bg(&self) -> u32 {
        self.background
    }

    /// The cursor stays left of the right edge, or near the left margin.
    pub closed spec fn wf(&self) -> bool {
        self.cursor_x < self.info.width || self.cursor_x <= 10
    }

    /// A console on the given framebuffer, with the cursor at the margin and
    /// nothing queued.
    pub fn new(info: FramebufferInfo) -> (c: Self)
        ensures
            c.wf(),
            c.framebuffer() == info,
            c.state() == (2int, 2int, Seq::<PixelWrite>::empty()),
            c.fg() == FOREGROUND,
            c.bg() == BACKGROUND,
    {
        Self {
            info,
            cursor_x: TEXT_MARGIN,
            cursor_y: TEXT_MARGIN,
            foreground: FOREGROUND,
            background: BACKGROUND,
            pixels: Vec::new(),
        }
    }

    /// Queues the pixel (`x`, `y`) where it is visible.
    fn write_pixel(&mut self, x: usize, y: usize, color: u32)
        ensures
            final(self).framebuffer() == old(self).framebuffer(),
            final(self).cursor_x == old(self).cursor_x,
            final(self).cursor_y == old(self).cursor_y,
            final(self).fg() == old(self).fg(),
            final(self).bg() == old(self).bg(),
            final(self).pixels@ == put(old(self).info, old(self).pixels@, x as int, y as int, color),
    {
        if x >= self.info.width || y >= self.info.height || self.info.bits_per_pixel != 32 {
            return;
        }
        self.pixels.push(PixelWrite { x, y, color });
    }

    /// Queues one row of pixels `x0..x0 + n` in one colour.
    fn fill_pixel_row(&mut self, x0: usize, y: usize, color: u32, n: usize)
        requires
            x0 + n <= usize::MAX,
        ensures
            final(self).framebuffer() == old(self).framebuffer(),
            final(self).cursor_x == old(self).cursor_x,
            final(self).cursor_y == old(self).cursor_y,
            final(self).fg() == old(self).fg(),
            final(self).bg() == old(self).bg(),
            final(self).pixels@ == fill_row(old(self).info, old(self).pixels@, x0 as int, y as int, color, n as nat),
    {
        let mut x: usize = 0;
        while x < n
            invariant
                x <= n,
                x0 + n <= usize::MAX,
                self.info == old(self).info,
                self.cursor_x == old(self).cursor_x,
                self.cursor_y == old(self).cursor_y,
                self.foreground == old(self).foreground,
                self.background == old(self).background,
                self.pixels@ == fill_row(self.info, old(self).pixels@, x0 as int, y as int, color, x as nat),
            decreases n - x,
        {
            self.write_pixel(x0 + x, y, color);
            x = x + 1;
        }
    }

    /// Fills the whole framebuffer with the background colour (only a 32-bit
    /// framebuffer is drawn into).
    pub fn clear(&mut self)
        ensures
            final(self).framebuffer() == old(self).framebuffer(),
            final(self).fg() == old(self).fg(),
            final(self).bg() == old(self).bg(),
            final(self).wf() == old(self).wf(),
            final(self).state() == (old(self).state().0, old(self).state().1, if old(
                self,
            ).framebuffer().bits_per_pixel != 32 {
                old(self).state().2
            } else {
                fill_rows(old(self).framebuffer(), old(self).state().2, old(self).bg(), false, old(
                    self,
                ).framebuffer().height as nat)
            }),
    {
        if self.info.bits_per_pixel != 32 {
            return;
        }
        self.fill_rows(self.info.height, false);
    }

    /// Draws the banner: across the whole width, eight rows in one colour, eight in
    /// another, then background down to row 96 (only a 32-bit framebuffer is drawn
    /// into).
    pub fn draw_banner(&mut self)
        ensures
            final(self).framebuffer() == old(self).framebuffer(),
            final(self).fg() == old(self).fg(),
            final(self).bg() == old(self).bg(),
            final(self).wf() == old(self).wf(),
            final(self).state() == (old(self).state().0, old(self).state().1, if old(
                self,
            ).framebuffer().bits_per_pixel != 32 {
                old(self).state().2
            } else {
                fill_rows(
                    old(self).framebuffer(),
                    old(self).state().2,
                    old(self).bg(),
                    true,
                    if old(self).framebuffer().height < 96 {
                        old(self).framebuffer().height as nat
                    } else {
                        96
                    },
                )
            }),
    {
        if self.info.bits_per_pixel != 32 {
            return;
        }
        let height = if self.info.height < 96 {
            self.info.height
        } else {
            96
        };
        self.fill_rows(height, true);
    }

    /// Queues rows `0..height` across the whole width, in the background colour or
    /// in the banner's colours.
    fn fill_rows(&mut self, height: usize, banner: bool)
        ensures
            final(self).framebuffer() == old(self).framebuffer(),
            final(self).cursor_x == old(self).cursor_x,
            final(self).cursor_y == old(self).cursor_y,
            final(self).fg() == old(self).fg(),
            final(self).bg() == old(self).bg(),
            final(self).pixels@ == fill_rows(old(self).info, old(self).pixels@, old(self).background, banner, height as nat),
    {
        let mut y: usize = 0;
        while y < height
            invariant
                y <= height,
                self.info == old(self).info,
                self.cursor_x == old(self).cursor_x,
                self.cursor_y == old(self).cursor_y,
                self.foreground == old(self).foreground,
                self.background == old(self).background,
                self.pixels@ == fill_rows(self.info, old(self).pixels@, self.background, banner, y as nat),
            decreases height - y,
        {
            let color = if banner {
                if y < 8 {
                    BANNER_TOP
                } else if y < 16 {
                    BANNER_SECOND
                } else {
                    self.background
                }
            } else {
                self.background
            };
            let width = self.info.width;
            self.fill_pixel_row(0, y, color, width);
            y = y + 1;
        }
    }

    /// Queues the pixels of the glyph of `byte` at the cursor.
    fn draw_char(&mut self, byte: u8)
        requires
            old(self).cursor_x + 8 <= usize::MAX,
            old(self).cursor_y + 8 <= usize::MAX,
        ensures
            final(self).framebuffer() == old(self).framebuffer(),
            final(self).cursor_x == old(self).cursor_x,
            final(self).cursor_y == old(self).cursor_y,
            final(self).fg() == old(self).fg(),
            final(self).bg() == old(self).bg(),
            final(self).pixels@ == glyph_writes(
                old(self).info,
                old(self).pixels@,
                old(self).cursor_x as int,
                old(self).cursor_y as int,
                byte,
                old(self).foreground,
                old(self).background,
                8,
            ),
    {
        let rows = glyph(byte);
        let mut row: usize = 0;
        while row < GLYPH_HEIGHT
            invariant
                row <= 8,
                rows@ == glyph_rows(byte),
                self.info == old(self).info,
                self.cursor_x == old(self).cursor_x,
                self.cursor_y == old(self).cursor_y,
                self.cursor_x + 8 <= usize::MAX,
                self.cursor_y + 8 <= usize::MAX,
                self.foreground == old(self).foreground,
                self.background == old(self).background,
                self.pixels@ == glyph_writes(
                    self.info,
                    old(self).pixels@,
                    self.cursor_x as int,
                    self.cursor_y as int,
                    byte,
                    self.foreground,
                    self.background,
                    row as nat,
                ),
            decreases 8 - row,
        {
            let bits = rows[row];
            let ghost start = self.pixels@;
            let mut col: usize = 0;
            while col < GLYPH_WIDTH
                invariant
                    row < 8,
                    col <= 8,
                    self.info == old(self).info,
                    self.cursor_x == old(self).cursor_x,
                    self.cursor_y == old(self).cursor_y,
                    self.cursor_x + 8 <= usize::MAX,
                    self.cursor_y + 8 <= usize::MAX,
                    self.foreground == old(self).foreground,
                    self.background == old(self).background,
                    self.pixels@ == glyph_row_writes(
                        self.info,
                        start,
                        self.cursor_x as int,
                        self.cursor_y + row,
                        bits,
                        self.foreground,
                        self.background,
                        col as nat,
                    ),
                decreases 8 - col,
            {
                let mask: u8 = 1u8 << ((7 - col) as u8);
                let color = if bits & mask != 0 {
                    self.foreground
                } else {
                    self.background
                };
                self.write_pixel(self.cursor_x + col, self.cursor_y + row, color);
                col = col + 1;
            }
            row = row + 1;
        }
    }

    /// Moves the cursor to the start of the next text line.
    fn new_line(&mut self)
        requires
            old(self).cursor_y + 10 <= usize::MAX,
        ensures
            final(self).framebuffer() == old(self).framebuffer(),
            final(self).fg() == old(self).fg(),
            final(self).bg() == old(self).bg(),
            final(self).cursor_x == 2,
            final(self).cursor_y == old(self).cursor_y + 10,
            final(self).pixels@ == old(self).pixels@,
    {
        self.cursor_x = TEXT_MARGIN;
        self.cursor_y = self.cursor_y + GLYPH_HEIGHT + 2;
    }

    /// Writes one byte at the cursor.
    pub fn write_byte(&mut self, byte: u8)
        requires
            old(self).wf(),
            old(self).state().1 + 18 <= usize::MAX,
            old(self).framebuffer().width + 8 <= usize::MAX,
        ensures
            final(self).wf(),
            final(self).framebuffer() == old(self).framebuffer(),
            final(self).fg() == old(self).fg(),
            final(self).bg() == old(self).bg(),
            final(self).state() == after_byte(
                old(self).framebuffer(),
                old(self).fg(),
                old(self).bg(),
                old(self).state(),
                byte,
            ),
            final(self).state().1 <= old(self).state().1 + 10,
    {
        if byte == 0x0a {
            self.new_line();
        } else if byte == 0x0d {
            self.cursor_x = TEXT_MARGIN;
        } else {
            if self.cursor_x + GLYPH_WIDTH >= self.info.width {
                self.new_line();
            }
            self.draw_char(byte);
            self.cursor_x = self.cursor_x + GLYPH_WIDTH;
        }
    }

    /// Writes the bytes of `s` at the cursor.
    pub fn write_str(&mut self, s: &str)
        requires
            old(self).wf(),
            old(self).state().1 + 10 * s.spec_bytes().len() + 18 <= usize::MAX,
            old(self).framebuffer().width + 8 <= usize::MAX,
        ensures
            final(self).wf(),
            final(self).framebuffer() == old(self).framebuffer(),
            final(self).fg() == old(self).fg(),
            final(self).bg() == old(self).bg(),
            final(self).state() == after_bytes(
                old(self).framebuffer(),
                old(self).fg(),
                old(self).bg(),
                old(self).state(),
                s.spec_bytes(),
            ),
    {
        self.write_bytes(s.as_bytes());
    }

    /// Writes the given bytes at the cursor.
    pub fn write_bytes(&mut self, bytes: &[u8])
        requires
            old(self).wf(),
            old(self).state().1 + 10 * bytes@.len() + 18 <= usize::MAX,
            old(self).framebuffer().width + 8 <= usize::MAX,
        ensures
            final(self).wf(),
            final(self).framebuffer() == old(self).framebuffer(),
            final(self).fg() == old(self).fg(),
            final(self).bg() == old(self).bg(),
            final(self).state() == after_bytes(
                old(self).framebuffer(),
                old(self).fg(),
                old(self).bg(),
                old(self).state(),
                bytes@,
            ),
            final(self).state().1 <= old(self).state().1 + 10 * bytes@.len(),
    {
        let mut i: usize = 0;
        assert(bytes@.take(0) =~= Seq::<u8>::empty());
        while i < bytes.len()
            invariant
                i <= bytes@.len(),
                self.wf(),
                self.info == old(self).info,
                self.foreground == old(self).foreground,
                self.background == old(self).background,
                old(self).state().1 + 10 * bytes@.len() + 18 <= usize::MAX,
                self.info.width + 8 <= usize::MAX,
                self.state().1 <= old(self).state().1 + 10 * i,
                self.state() == after_bytes(
                    self.info,
                    self.foreground,
                    self.background,
                    old(self).state(),
                    bytes@.take(i as int),
                ),
            decreases bytes@.len() - i,
        {
            assert(bytes@.take(i + 1).drop_last() =~= bytes@.take(i as int));
            self.write_byte(bytes[i]);
            i = i + 1;
        }
        assert(bytes@.take(bytes@.len() as int) =~= bytes@);
    }

    /// Hands out the queued pixel writes, in order, and empties the queue.
    pub fn take_pixels(&mut self) -> (r: Vec<PixelWrite>)
        ensures
            r@ == old(self).state().2,
            final(self).state() == (old(self).state().0, old(self).state().1, Seq::<PixelWrite>::empty()),
            final(self).framebuffer() == old(self).framebuffer(),
            final(self).fg() == old(self).fg(),
            final(self).bg() == old(self).bg(),
            final(self).wf() == old(self).wf(),
    {
        let mut pixels: Vec<PixelWrite> = Vec::new();
        std::mem::swap(&mut pixels, &mut self.pixels);
        pixels
    }
}

} // verus!
