//! The screen as a mathematical value: a grid of cells in row-major order, a
//! cursor column and the active colors, with the rules by which a byte
//! changes them.

use crate::cell::ScreenChar;
use crate::cell::PLACEHOLDER;
use crate::color::ColorCode;
use vstd::prelude::*;

verus! {

/// Number of rows of the VGA buffer.
pub const BUFFER_HEIGHT: usize = 25;

/// Number of columns of the VGA buffer.
pub const BUFFER_WIDTH: usize = 80;

/// Number of cells of the VGA buffer.
pub const BUFFER_SIZE: usize = BUFFER_HEIGHT * BUFFER_WIDTH;

/// The address at which the hardware maps the text-mode buffer.
pub const BUFFER_ADDRESS: usize = 0xb8000;

/// The byte that ends a line.
pub const NEWLINE: u8 = 0x0a;

/// Compute the index of the memory block from row and column indexes
/// according to row-major storage.
pub fn index_memory_block(row_index: usize, column_index: usize) -> (index: usize)
    requires
        row_index < BUFFER_HEIGHT,
        column_index < BUFFER_WIDTH,
    ensures
        index == row_index * BUFFER_WIDTH + column_index,
        index < BUFFER_SIZE,
{
    row_index * BUFFER_WIDTH + column_index
}

/// Whether the hardware has a glyph of its own for the byte: the printable
/// ASCII range.
pub open spec fn spec_is_printable(byte: u8) -> bool {
    0x20 <= byte <= 0x7e
}

/// Whether the hardware has a glyph of its own for the byte: the printable
/// ASCII range.
#[verifier::when_used_as_spec(spec_is_printable)]
pub fn is_printable(byte: u8) -> (printable: bool)
    ensures
        printable == spec_is_printable(byte),
{
    0x20 <= byte && byte <= 0x7e
}

/// The glyph that a byte is shown as: itself where it is printable, the
/// placeholder otherwise.
pub open spec fn spec_glyph(byte: u8) -> u8 {
    if is_printable(byte) {
        byte
    } else {
        PLACEHOLDER
    }
}

/// The glyph that a byte is shown as: itself where it is printable, the
/// placeholder otherwise.
#[verifier::when_used_as_spec(spec_glyph)]
pub fn glyph(byte: u8) -> (shown: u8)
    ensures
        shown == spec_glyph(byte),
{
    if is_printable(byte) {
        byte
    } else {
        PLACEHOLDER
    }
}

/// The cells with rows `row - 1` and `row` exchanged.
pub open spec fn exchange_rows(cells: Seq<ScreenChar>, row: int) -> Seq<ScreenChar> {
    Seq::new(
        cells.len(),
        |i: int|
            if (row - 1) * BUFFER_WIDTH <= i < row * BUFFER_WIDTH {
                cells[i + BUFFER_WIDTH]
            } else if row * BUFFER_WIDTH <= i < (row + 1) * BUFFER_WIDTH {
                cells[i - BUFFER_WIDTH]
            } else {
                cells[i]
            },
    )
}

/// The cells after the exchanges of rows 0 and 1, then 1 and 2, and so on,
/// up to rows `row - 1` and `row`.
pub open spec fn exchanged_through(cells: Seq<ScreenChar>, row: int) -> Seq<ScreenChar>
    decreases row,
{
    if row <= 0 {
        cells
    } else {
        exchange_rows(exchanged_through(cells, row - 1), row)
    }
}

/// The cells with one row blank in the given colors.
pub open spec fn row_cleared(cells: Seq<ScreenChar>, row: int, color: ColorCode) -> Seq<
    ScreenChar,
> {
    Seq::new(
        cells.len(),
        |i: int|
            if row * BUFFER_WIDTH <= i < (row + 1) * BUFFER_WIDTH {
                ScreenChar::blank(color)
            } else {
                cells[i]
            },
    )
}

/// The cells one row further up: each row holds what the row below it held,
/// and the last row is blank in the given colors. What the first row held is
/// gone.
pub open spec fn scrolled(cells: Seq<ScreenChar>, color: ColorCode) -> Seq<ScreenChar> {
    Seq::new(
        BUFFER_SIZE as nat,
        |i: int|
            if i < BUFFER_SIZE - BUFFER_WIDTH {
                cells[i + BUFFER_WIDTH]
            } else {
                ScreenChar::blank(color)
            },
    )
}

/// What the exchanges leave: the rows that were passed hold what the row
/// below them held, row `row` holds what the first row held, and the rows
/// further down are untouched.
pub proof fn lemma_exchanged_through(cells: Seq<ScreenChar>, row: int)
    requires
        cells.len() == BUFFER_SIZE,
        0 <= row < BUFFER_HEIGHT,
    ensures
        exchanged_through(cells, row) == Seq::new(
            BUFFER_SIZE as nat,
            |i: int|
                if i < row * BUFFER_WIDTH {
                    cells[i + BUFFER_WIDTH]
                } else if i < (row + 1) * BUFFER_WIDTH {
                    cells[i - row * BUFFER_WIDTH]
                } else {
                    cells[i]
                },
        ),
    decreases row,
{
    let shifted = Seq::new(
        BUFFER_SIZE as nat,
        |i: int|
            if i < row * BUFFER_WIDTH {
                cells[i + BUFFER_WIDTH]
            } else if i < (row + 1) * BUFFER_WIDTH {
                cells[i - row * BUFFER_WIDTH]
            } else {
                cells[i]
            },
    );
    if row > 0 {
        lemma_exchanged_through(cells, row - 1);
    }
    assert(exchanged_through(cells, row) =~= shifted);
}

/// Exchanging each row with the one above it, from the second row to the
/// last, and then clearing the last row, moves every row up by one: no spare
/// row is needed to scroll.
pub proof fn lemma_exchanges_scroll(cells: Seq<ScreenChar>, color: ColorCode)
    requires
        cells.len() == BUFFER_SIZE,
    ensures
        row_cleared(exchanged_through(cells, BUFFER_HEIGHT - 1), BUFFER_HEIGHT - 1, color)
            == scrolled(cells, color),
{
    lemma_exchanged_through(cells, BUFFER_HEIGHT - 1);
    assert(row_cleared(exchanged_through(cells, BUFFER_HEIGHT - 1), BUFFER_HEIGHT - 1, color)
        =~= scrolled(cells, color));
}

/// What a writer is at one moment: where the next character goes, in which
/// colors, and what every cell of the screen shows.
pub struct WriterState {
    pub column: int,
    pub color: ColorCode,
    pub cells: Seq<ScreenChar>,
}

impl WriterState {
    /// The cursor is inside the row and the grid is complete.
    pub open spec fn wf(self) -> bool {
        &&& 0 <= self.column < BUFFER_WIDTH
        &&& self.cells.len() == BUFFER_SIZE
    }

    /// The cell at a row and a column.
    pub open spec fn cell(self, row: int, column: int) -> ScreenChar {
        self.cells[row * BUFFER_WIDTH + column]
    }

    /// The cells of one row, left to right.
    pub open spec fn row(self, row: int) -> Seq<ScreenChar> {
        self.cells.subrange(row * BUFFER_WIDTH, (row + 1) * BUFFER_WIDTH)
    }

    /// The cell that the active colors give a glyph.
    pub open spec fn colored(self, glyph: u8) -> ScreenChar {
        ScreenChar { ascii_char: glyph, color_code: self.color }
    }

    /// Scroll and reset: every row moves up by one, the last row is blank in
    /// the active colors and the cursor is back at the first column.
    pub open spec fn new_line(self) -> WriterState {
        WriterState { column: 0, color: self.color, cells: scrolled(self.cells, self.color) }
    }

    /// The state in which a glyph is put down: a new line where the cursor
    /// stands on the last column, the state itself otherwise.
    pub open spec fn wrapped(self) -> WriterState {
        if self.column == BUFFER_WIDTH - 1 {
            self.new_line()
        } else {
            self
        }
    }

    /// One glyph put down at the cursor, in the last row, after the line has
    /// wrapped where it was full. The cursor moves right by one.
    pub open spec fn put_glyph(self, glyph: u8) -> WriterState {
        let at = self.wrapped();
        WriterState {
            column: at.column + 1,
            color: at.color,
            cells: at.cells.update(
                (BUFFER_HEIGHT - 1) * BUFFER_WIDTH + at.column,
                at.colored(glyph),
            ),
        }
    }

    /// One byte routed: a newline scrolls, any other byte puts down its glyph.
    pub open spec fn write_byte(self, byte: u8) -> WriterState {
        if byte == NEWLINE {
            self.new_line()
        } else {
            self.put_glyph(glyph(byte))
        }
    }

    /// A sequence of bytes routed one by one, in order.
    pub open spec fn write_bytes(self, bytes: Seq<u8>) -> WriterState
        decreases bytes.len(),
    {
        if bytes.len() == 0 {
            self
        } else {
            self.write_bytes(bytes.drop_last()).write_byte(bytes.last())
        }
    }
}

} // verus!
