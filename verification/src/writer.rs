//! The writer: the cursor, the active colors and the only access to the
//! video memory.

use crate::cell::load;
use crate::cell::shown;
use crate::cell::store;
use crate::cell::ScreenChar;
use crate::cell::VolatileScreenChar;
use crate::color::Color;
use crate::color::ColorCode;
use crate::screen::exchange_rows;
use crate::screen::exchanged_through;
use crate::screen::glyph;
use crate::screen::index_memory_block;
use crate::screen::lemma_exchanges_scroll;
use crate::screen::row_cleared;
use crate::screen::WriterState;
use crate::screen::BUFFER_HEIGHT;
use crate::screen::BUFFER_SIZE;
use crate::screen::BUFFER_WIDTH;
use crate::screen::NEWLINE;
use vstd::prelude::*;
use vstd::string::StringSliceAdditionalSpecFns;

verus! {

/// What the cells of a buffer show, in row-major order.
pub open spec fn shown_cells(buffer: [VolatileScreenChar; BUFFER_SIZE]) -> Seq<ScreenChar> {
    Seq::new(BUFFER_SIZE as nat, |i: int| shown(buffer@[i]))
}

/// Writer to write in VGA buffer.
pub struct Writer {
    column_position: usize,
    color_code: ColorCode,
    buffer: &'static mut [VolatileScreenChar; BUFFER_SIZE],
}

impl View for Writer {
    type V = WriterState;

    closed spec fn view(&self) -> WriterState {
        WriterState {
            column: self.column_position as int,
            color: self.color_code,
            cells: shown_cells(*self.buffer),
        }
    }
}

impl Writer {
    #[verifier::type_invariant]
    spec fn cursor_in_row(self) -> bool {
        self.column_position < BUFFER_WIDTH
    }

    /// Create a VGA buffer writer from foreground and background color of
    /// screen, on the video memory given. The screen stays as the memory
    /// shows it; the cursor stands at the first column.
    pub fn new(
        foreground: Color,
        background: Color,
        buffer: &'static mut [VolatileScreenChar; BUFFER_SIZE],
    ) -> (writer: Writer)
        ensures
            writer@ == (WriterState {
                column: 0,
                color: ColorCode::spec_new(foreground, background),
                cells: shown_cells(*old(buffer)),
            }),
            writer@.wf(),
    {
        Writer { column_position: 0, color_code: ColorCode::new(foreground, background), buffer }
    }

    /// The screen of a writer has a cell for every place of the grid.
    pub proof fn lemma_grid_is_complete(self)
        ensures
            self@.cells.len() == BUFFER_SIZE,
    {
    }

    /// The column at which the next character is written. It lies inside the
    /// row, whatever has been written.
    pub fn column_position(&self) -> (column: usize)
        ensures
            column == self@.column,
            column < BUFFER_WIDTH,
            self@.wf(),
    {
        proof {
            use_type_invariant(self);
        }
        self.column_position
    }

    /// The colors in which the writer writes.
    pub fn color_code(&self) -> (color: ColorCode)
        ensures
            color == self@.color,
    {
        self.color_code
    }

    /// The cell that the screen shows at a row and a column.
    pub fn screen_char(&self, row_index: usize, column_index: usize) -> (cell: ScreenChar)
        requires
            row_index < BUFFER_HEIGHT,
            column_index < BUFFER_WIDTH,
        ensures
            cell == self@.cell(row_index as int, column_index as int),
    {
        self.get(index_memory_block(row_index, column_index))
    }

    fn get(&self, index: usize) -> (cell: ScreenChar)
        requires
            index < BUFFER_SIZE,
        ensures
            cell == self@.cells[index as int],
    {
        ScreenChar::from_bytes(load(&self.buffer[index]))
    }

    fn put(&mut self, index: usize, cell: ScreenChar)
        requires
            index < BUFFER_SIZE,
        ensures
            final(self)@ == (WriterState {
                cells: old(self)@.cells.update(index as int, cell),
                ..old(self)@
            }),
    {
        proof {
            use_type_invariant(&*self);
        }
        store(&mut self.buffer[index], cell.to_bytes());
        assert(self@.cells =~= old(self)@.cells.update(index as int, cell));
    }

    /// Write a byte in VGA buffer with foreground and background color given
    /// at the construction of the Writer: a newline scrolls the screen, any
    /// other byte puts its glyph down at the cursor, on a new line where the
    /// last one was full.
    pub fn write_byte(&mut self, byte: u8)
        ensures
            final(self)@ == old(self)@.write_byte(byte),
            final(self)@.wf(),
    {
        proof {
            use_type_invariant(&*self);
        }
        if byte == NEWLINE {
            self.new_line();
        } else {
            if self.column_position >= BUFFER_WIDTH - 1 {
                // the current line is full
                self.new_line();
            }
            // The writer write always to the last line

            let index_in_buffer: usize = index_memory_block(
                BUFFER_HEIGHT - 1,
                self.column_position,
            );

            self.put(
                index_in_buffer,
                ScreenChar { ascii_char: glyph(byte), color_code: self.color_code },
            );

            self.column_position += 1;
        }
    }

    /// Write a string in VGA buffer with foreground and background color given
    /// at the construction of the Writer: its bytes one by one, in order.
    pub fn write_string(&mut self, string: &str)
        ensures
            final(self)@ == old(self)@.write_bytes(string.spec_bytes()),
            final(self)@.wf(),
    {
        proof {
            use_type_invariant(&*self);
        }
        let bytes = string.as_bytes();
        for position in 0..bytes.len()
            invariant
                bytes@ == string.spec_bytes(),
                self@ == old(self)@.write_bytes(bytes@.take(position as int)),
                self@.wf(),
        {
            assert(bytes@.take(position + 1).drop_last() =~= bytes@.take(position as int));
            self.write_byte(bytes[position]);
        }
        assert(bytes@.take(bytes@.len() as int) =~= bytes@);
    }

    fn new_line(&mut self)
        ensures
            final(self)@ == old(self)@.new_line(),
    {
        // Move all rows up one row
        for row_index in 1..BUFFER_HEIGHT
            invariant
                self@ == (WriterState {
                    cells: exchanged_through(old(self)@.cells, row_index - 1),
                    ..old(self)@
                }),
        {
            // Swap the rows, so current row move up above
            self.swap_rows(row_index);
        }

        self.clear_row(BUFFER_HEIGHT - 1);
        proof {
            lemma_exchanges_scroll(old(self)@.cells, old(self)@.color);
        }
        self.column_position = 0;
    }

    /// Exchange a row with the one above it, cell by cell, through volatile
    /// loads and stores.
    fn swap_rows(&mut self, row_index: usize)
        requires
            1 <= row_index < BUFFER_HEIGHT,
        ensures
            final(self)@ == (WriterState {
                cells: exchange_rows(old(self)@.cells, row_index as int),
                ..old(self)@
            }),
    {
        for column_index in 0..BUFFER_WIDTH
            invariant
                1 <= row_index < BUFFER_HEIGHT,
                self@.column == old(self)@.column,
                self@.color == old(self)@.color,
                self@.cells.len() == BUFFER_SIZE,
                forall|i: int|
                    0 <= i < BUFFER_SIZE ==> #[trigger] self@.cells[i] == if (row_index - 1)
                        * BUFFER_WIDTH <= i < (row_index - 1) * BUFFER_WIDTH + column_index
                        || row_index * BUFFER_WIDTH <= i < row_index * BUFFER_WIDTH
                        + column_index {
                        exchange_rows(old(self)@.cells, row_index as int)[i]
                    } else {
                        old(self)@.cells[i]
                    },
        {
            let upper: usize = index_memory_block(row_index - 1, column_index);
            let lower: usize = index_memory_block(row_index, column_index);
            let above: ScreenChar = self.get(upper);
            let below: ScreenChar = self.get(lower);
            self.put(upper, below);
            self.put(lower, above);
        }
        assert(self@.cells =~= exchange_rows(old(self)@.cells, row_index as int));
    }

    fn clear_row(&mut self, row_index: usize)
        requires
            row_index < BUFFER_HEIGHT,
        ensures
            final(self)@ == (WriterState {
                cells: row_cleared(old(self)@.cells, row_index as int, old(self)@.color),
                ..old(self)@
            }),
    {
        let blank_char = ScreenChar::blank(self.color_code);

        for column_index in 0..BUFFER_WIDTH
            invariant
                row_index < BUFFER_HEIGHT,
                blank_char == ScreenChar::blank(old(self)@.color),
                self@.column == old(self)@.column,
                self@.color == old(self)@.color,
                self@.cells.len() == BUFFER_SIZE,
                forall|i: int|
                    0 <= i < BUFFER_SIZE ==> #[trigger] self@.cells[i] == if row_index
                        * BUFFER_WIDTH <= i < row_index * BUFFER_WIDTH + column_index {
                        blank_char
                    } else {
                        old(self)@.cells[i]
                    },
        {
            self.put(index_memory_block(row_index, column_index), blank_char);
        }
        assert(self@.cells =~= row_cleared(
            old(self)@.cells,
            row_index as int,
            old(self)@.color,
        ));
    }
}

/// `core::fmt::Error`, the error that a formatting sink may answer with. This
/// writer never does.
#[verifier::external_type_specification]
#[verifier::external_body]
pub struct ExFmtError(core::fmt::Error);

impl core::fmt::Write for Writer {
    /// Take a piece of rendered text from a formatter and write it as
    /// [`Writer::write_string`] does. It never fails.
    fn write_str(&mut self, s: &str) -> (result: core::fmt::Result)
        ensures
            result is Ok,
            final(self)@ == old(self)@.write_bytes(s.spec_bytes()),
            final(self)@.wf(),
    {
        self.write_string(s);
        Ok(())
    }
}

} // verus!
