use vstd::prelude::*;
use vstd::string::StringSliceAdditionalSpecFns;

use crate::vga_buffer::color_byte::ColorCode;

verus! {

/// Rows of the VGA text buffer.
pub const BUFFER_HEIGHT: usize = 25;

/// Columns of the VGA text buffer.
pub const BUFFER_WIDTH: usize = 80;

/// The byte shown in place of one that cannot be displayed.
pub const REPLACEMENT_BYTE: u8 = 0xfe;

/// The byte of a line feed.
pub const NEWLINE: u8 = 0x0a;

/// One cell of the VGA text buffer: a code page 437 byte and its attributes.
#[derive(Debug, Clone, Copy, PartialEq, Eq, Structural)]
pub struct ScreenChar {
    pub character: u8,
    pub color: ColorCode,
}

/// The cells of a text buffer after scrolling up by one row: each row takes the
/// one below it, and the bottom row is blank.
pub open spec fn scrolled(cells: Seq<ScreenChar>, blank: ScreenChar) -> Seq<ScreenChar> {
    Seq::new(2000, |i: int| if i < 1920 { cells[i + 80] } else { blank })
}

/// The blank cell in a given colour.
pub open spec fn blank(color: ColorCode) -> ScreenChar {
    ScreenChar { character: 0, color }
}

/// The column and the cells after one byte was written: a line feed scrolls; any
/// other byte scrolls first where the bottom row is full, then goes into the
/// bottom row at the column, which moves on by one.
pub open spec fn after_byte(column: int, cells: Seq<ScreenChar>, color: ColorCode, byte: u8) -> (
    int,
    Seq<ScreenChar>,
) {
    if byte == NEWLINE {
        (0, scrolled(cells, blank(color)))
    } else {
        let (c, s) = if column >= 80 {
            (0, scrolled(cells, blank(color)))
        } else {
            (column, cells)
        };
        (c + 1, s.update(1920 + c, ScreenChar { character: byte, color }))
    }
}

/// The byte that is written for `byte`: printable ASCII and line feeds as they
/// are, anything else as the replacement byte.
pub open spec fn shown_byte(byte: u8) -> u8 {
    if (0x20 <= byte <= 0x7e) || byte == NEWLINE {
        byte
    } else {
        REPLACEMENT_BYTE
    }
}

/// The column and the cells after every byte of `bytes` was written as shown.
pub open spec fn after_bytes(column: int, cells: Seq<ScreenChar>, color: ColorCode, bytes: Seq<u8>) -> (
    int,
    Seq<ScreenChar>,
)
    decreases bytes.len(),
{
    if bytes.len() == 0 {
        (column, cells)
    } else {
        let (c, s) = after_bytes(column, cells, color, bytes.drop_last());
        after_byte(c, s, color, shown_byte(bytes.last()))
    }
}

/// Every printable ASCII byte, space to tilde, is shown as itself; every other
/// byte but a line feed is shown as the replacement byte.
pub proof fn lemma_shown_bytes(byte: u8)
    ensures
        0x20 <= byte <= 0x7e ==> shown_byte(byte) == byte,
        byte == 0x0a ==> shown_byte(byte) == byte,
        (byte < 0x20 && byte != 0x0a) || byte > 0x7e ==> shown_byte(byte) == 0xfe,
{
}

/// Writing one printable byte while the bottom row has room puts it, in the
/// writer's colour, in the bottom row at the column, and moves the column on by
/// one; no other cell changes.
pub proof fn lemma_printable_byte_lands_at_column(
    column: int,
    cells: Seq<ScreenChar>,
    color: ColorCode,
    byte: u8,
)
    requires
        0 <= column < 80,
        cells.len() == 2000,
        0x20 <= byte <= 0x7e,
    ensures
        after_bytes(column, cells, color, seq![byte]).0 == column + 1,
        after_bytes(column, cells, color, seq![byte]).1[1920 + column] == (ScreenChar {
            character: byte,
            color,
        }),
        forall|i: int|
            0 <= i < 2000 && i != 1920 + column ==> #[trigger] after_bytes(
                column,
                cells,
                color,
                seq![byte],
            ).1[i] == cells[i],
{
    assert(seq![byte].drop_last() =~= Seq::<u8>::empty());
    assert(seq![byte].last() == byte);
    assert(after_bytes(column, cells, color, Seq::<u8>::empty()) == (column, cells));
    assert(shown_byte(byte) == byte);
    assert(after_bytes(column, cells, color, seq![byte]) == after_byte(column, cells, color, byte));
}

/// A line feed scrolls: every row moves up by one, the bottom row is blank in
/// the writer's colour, and the column goes back to 0.
pub proof fn lemma_line_feed_scrolls(column: int, cells: Seq<ScreenChar>, color: ColorCode)
    requires
        cells.len() == 2000,
    ensures
        after_bytes(column, cells, color, seq![NEWLINE]).0 == 0,
        after_bytes(column, cells, color, seq![NEWLINE]).1.len() == 2000,
        forall|i: int|
            0 <= i < 1920 ==> #[trigger] after_bytes(column, cells, color, seq![NEWLINE]).1[i]
                == cells[i + 80],
        forall|i: int|
            1920 <= i < 2000 ==> #[trigger] after_bytes(column, cells, color, seq![NEWLINE]).1[i]
                == (ScreenChar { character: 0, color }),
{
    assert(seq![NEWLINE].drop_last() =~= Seq::<u8>::empty());
    assert(after_bytes(column, cells, color, Seq::<u8>::empty()) == (column, cells));
    assert(after_bytes(column, cells, color, seq![NEWLINE]) == after_byte(column, cells, color, NEWLINE));
}

/// A printable byte written when the bottom row is full goes to the start of a
/// fresh bottom row, after the rows moved up by one.
pub proof fn lemma_full_row_wraps(cells: Seq<ScreenChar>, color: ColorCode, byte: u8)
    requires
        cells.len() == 2000,
        0x20 <= byte <= 0x7e,
    ensures
        after_bytes(80, cells, color, seq![byte]).0 == 1,
        forall|i: int|
            0 <= i < 1920 ==> #[trigger] after_bytes(80, cells, color, seq![byte]).1[i] == cells[i
                + 80],
        after_bytes(80, cells, color, seq![byte]).1[1920] == (ScreenChar { character: byte, color }),
        forall|i: int|
            1920 < i < 2000 ==> #[trigger] after_bytes(80, cells, color, seq![byte]).1[i]
                == (ScreenChar { character: 0, color }),
{
    assert(seq![byte].drop_last() =~= Seq::<u8>::empty());
    assert(seq![byte].last() == byte);
    assert(after_bytes(80, cells, color, Seq::<u8>::empty()) == (80int, cells));
    assert(shown_byte(byte) == byte);
    assert(after_bytes(80, cells, color, seq![byte]) == after_byte(80, cells, color, byte));
}

/// A writer to the VGA text buffer. It writes into the bottom row and scrolls.
/// The cells stand here as a row-major copy of the 25 by 80 buffer; the kernel
/// copies them to the memory-mapped buffer.
pub struct Writer {
    column_pos: usize,
    color: ColorCode,
    cells: Vec<ScreenChar>,
}

impl Writer {
    /// The column at which the next byte goes.
    pub closed spec fn column(&self) -> int {
        self.column_pos as int
    }

    /// The colour of what is written.
    pub closed spec fn color_code(&self) -> ColorCode {
        self.color
    }

    /// The cells of the buffer, row by row.
    pub closed spec fn cells(&self) -> Seq<ScreenChar> {
        self.cells@
    }

    /// 25 rows of 80 cells, and a column within the row or just past it.
    pub closed spec fn wf(&self) -> bool {
        &&& self.cells@.len() == 2000
        &&& self.column_pos <= 80
    }

    /// A writer over the given cells (2000 of them, row by row) at column 0.
    pub fn new(color: ColorCode, cells: Vec<ScreenChar>) -> (w: Self)
        requires
            cells@.len() == 2000,
        ensures
            w.wf(),
            w.column() == 0,
            w.color_code() == color,
            w.cells() == cells@,
    {
        Self { column_pos: 0, color, cells }
    }

    /// The cells of the buffer, row by row.
    pub fn cells_view(&self) -> (r: &[ScreenChar])
        ensures
            r@ == self.cells(),
    {
        self.cells.as_slice()
    }

    /// Writes one byte: a line feed starts a new line; any other byte goes into
    /// the bottom row, on a new line where the row is full.
    pub fn write_byte(&mut self, byte: u8)
        requires
            old(self).wf(),
        ensures
            final(self).wf(),
            final(self).color_code() == old(self).color_code(),
            (final(self).column(), final(self).cells()) == after_byte(
                old(self).column(),
                old(self).cells(),
                old(self).color_code(),
                byte,
            ),
    {
        if byte == NEWLINE {
            self.new_line();
        } else {
            if self.column_pos >= BUFFER_WIDTH {
                self.new_line();
            }
            let index = (BUFFER_HEIGHT - 1) * BUFFER_WIDTH + self.column_pos;
            self.cells.set(index, ScreenChar { character: byte, color: self.color });
            self.column_pos = self.column_pos + 1;
        }
    }

    /// Writes the bytes of `s`: printable ASCII and line feeds as they are, any
    /// other byte as the replacement byte.
    pub fn write_string(&mut self, s: &str)
        requires
            old(self).wf(),
        ensures
            final(self).wf(),
            final(self).color_code() == old(self).color_code(),
            (final(self).column(), final(self).cells()) == after_bytes(
                old(self).column(),
                old(self).cells(),
                old(self).color_code(),
                s.spec_bytes(),
            ),
    {
        let bytes = s.as_bytes();
        let mut i: usize = 0;
        assert(bytes@.take(0) =~= Seq::<u8>::empty());
        while i < bytes.len()
            invariant
                i <= bytes@.len(),
                bytes@ == s.spec_bytes(),
                self.wf(),
                self.color_code() == old(self).color_code(),
                (self.column(), self.cells()) == after_bytes(
                    old(self).column(),
                    old(self).cells(),
                    old(self).color_code(),
                    bytes@.take(i as int),
                ),
            decreases bytes@.len() - i,
        {
            assert(bytes@.take(i + 1).drop_last() =~= bytes@.take(i as int));
            let byte = bytes[i];
            if (0x20 <= byte && byte <= 0x7e) || byte == NEWLINE {
                self.write_byte(byte);
            } else {
                self.write_byte(REPLACEMENT_BYTE);
            }
            i = i + 1;
        }
        assert(bytes@.take(bytes@.len() as int) =~= bytes@);
    }

    /// Scrolls up by one row, blanks the bottom row and returns to column 0.
    fn new_line(&mut self)
        requires
            old(self).wf(),
        ensures
            final(self).wf(),
            final(self).color_code() == old(self).color_code(),
            final(self).column() == 0,
            final(self).cells() == scrolled(old(self).cells(), blank(old(self).color_code())),
    {
        let ghost c0 = self.cells@;
        let mut row: usize = 1;
        while row < BUFFER_HEIGHT
            invariant
                1 <= row <= 25,
                self.cells@.len() == 2000,
                self.column_pos <= 80,
                self.color == old(self).color,
                c0 == old(self).cells@,
                forall|i: int| 0 <= i < (row - 1) * 80 ==> #[trigger] self.cells@[i] == c0[i + 80],
                forall|i: int| (row - 1) * 80 <= i < 2000 ==> #[trigger] self.cells@[i] == c0[i],
            decreases 25 - row,
        {
            let mut column: usize = 0;
            while column < BUFFER_WIDTH
                invariant
                    1 <= row < 25,
                    column <= 80,
                    self.cells@.len() == 2000,
                    self.column_pos <= 80,
                    self.color == old(self).color,
                    c0 == old(self).cells@,
                    forall|i: int|
                        0 <= i < (row - 1) * 80 + column ==> #[trigger] self.cells@[i] == c0[i + 80],
                    forall|i: int|
                        (row - 1) * 80 + column <= i < 2000 ==> #[trigger] self.cells@[i] == c0[i],
                decreases 80 - column,
            {
                let ch = self.cells[row * BUFFER_WIDTH + column];
                self.cells.set((row - 1) * BUFFER_WIDTH + column, ch);
                column = column + 1;
            }
            row = row + 1;
        }
        let ghost moved = self.cells@;
        assert(forall|i: int| 0 <= i < 1920 ==> #[trigger] moved[i] == c0[i + 80]);
        let last = BUFFER_HEIGHT - 1;
        assert(last * 80 == 1920);
        self.clear_row(last);
        assert forall|i: int| 0 <= i < 2000 implies #[trigger] self.cells@[i] == scrolled(
            c0,
            blank(self.color),
        )[i] by {
            assert(self.cells()[i] == if 1920 <= i < 2000 {
                blank(self.color)
            } else {
                moved[i]
            });
        }
        self.column_pos = 0;
        assert(self.cells@ =~= scrolled(c0, blank(self.color)));
    }

    /// Blanks one row.
    fn clear_row(&mut self, row: usize)
        requires
            old(self).wf(),
            row < 25,
        ensures
            final(self).wf(),
            final(self).color_code() == old(self).color_code(),
            final(self).column() == old(self).column(),
            forall|i: int|
                0 <= i < 2000 ==> #[trigger] final(self).cells()[i] == if row * 80 <= i < row * 80
                    + 80 {
                    blank(old(self).color_code())
                } else {
                    old(self).cells()[i]
                },
    {
        let blank_cell = ScreenChar { character: 0, color: self.color };
        let mut col: usize = 0;
        while col < BUFFER_WIDTH
            invariant
                row < 25,
                col <= 80,
                self.cells@.len() == 2000,
                self.column_pos == old(self).column_pos,
                self.color == old(self).color,
                blank_cell == blank(self.color),
                forall|i: int|
                    0 <= i < 2000 ==> #[trigger] self.cells@[i] == if row * 80 <= i < row * 80 + col {
                        blank_cell
                    } else {
                        old(self).cells@[i]
                    },
            decreases 80 - col,
        {
            self.cells.set(row * BUFFER_WIDTH + col, blank_cell);
            col = col + 1;
        }
    }
}

} // verus!
