//! What holds of the screen's rules whatever is written.

use crate::cell::ScreenChar;
use crate::cell::PLACEHOLDER;
use crate::screen::glyph;
use crate::screen::is_printable;
use crate::screen::WriterState;
use crate::screen::BUFFER_HEIGHT;
use crate::screen::BUFFER_SIZE;
use crate::screen::BUFFER_WIDTH;
use crate::screen::NEWLINE;
use vstd::prelude::*;

verus! {

/// Routing a byte keeps the cursor inside the row and the colors as they
/// are.
pub proof fn lemma_write_byte_keeps_cursor_in_row(state: WriterState, byte: u8)
    requires
        state.wf(),
    ensures
        state.write_byte(byte).wf(),
        0 <= state.write_byte(byte).column < BUFFER_WIDTH,
        state.write_byte(byte).color == state.color,
{
}

/// Routing any sequence of bytes keeps the cursor inside the row and the
/// colors as they are.
pub proof fn lemma_write_bytes_keeps_cursor_in_row(state: WriterState, bytes: Seq<u8>)
    requires
        state.wf(),
    ensures
        state.write_bytes(bytes).wf(),
        0 <= state.write_bytes(bytes).column < BUFFER_WIDTH,
        state.write_bytes(bytes).color == state.color,
    decreases bytes.len(),
{
    if bytes.len() > 0 {
        lemma_write_bytes_keeps_cursor_in_row(state, bytes.drop_last());
        lemma_write_byte_keeps_cursor_in_row(state.write_bytes(bytes.drop_last()), bytes.last());
    }
}

/// Writing one sequence after another is writing the two as one.
pub proof fn lemma_write_bytes_concat(state: WriterState, front: Seq<u8>, back: Seq<u8>)
    ensures
        state.write_bytes(front + back) == state.write_bytes(front).write_bytes(back),
    decreases back.len(),
{
    if back.len() == 0 {
        assert(front + back =~= front);
    } else {
        lemma_write_bytes_concat(state, front, back.drop_last());
        assert((front + back).drop_last() =~= front + back.drop_last());
        assert((front + back).last() == back.last());
    }
}

/// A newline puts the cursor back at the first column and moves every row
/// up by exactly one; the last row is blank in the active colors.
pub proof fn lemma_newline_moves_rows_up(state: WriterState)
    requires
        state.wf(),
    ensures
        state.write_byte(NEWLINE).wf(),
        state.write_byte(NEWLINE).column == 0,
        state.write_byte(NEWLINE).color == state.color,
        forall|row: int|
            0 <= row < BUFFER_HEIGHT - 1 ==> #[trigger] state.write_byte(NEWLINE).row(row)
                == state.row(row + 1),
        state.write_byte(NEWLINE).row(BUFFER_HEIGHT - 1) == Seq::new(
            BUFFER_WIDTH as nat,
            |column: int| ScreenChar::blank(state.color),
        ),
{
    let after = state.write_byte(NEWLINE);
    assert forall|row: int| 0 <= row < BUFFER_HEIGHT - 1 implies #[trigger] after.row(row)
        == state.row(row + 1) by {
        assert(after.row(row) =~= state.row(row + 1));
    }
    assert(after.row(BUFFER_HEIGHT - 1) =~= Seq::new(
        BUFFER_WIDTH as nat,
        |column: int| ScreenChar::blank(state.color),
    ));
}

/// A newline discards what the first row held: two screens that differ in
/// their first row only, and in where the cursor stands, are the same screen
/// after it.
pub proof fn lemma_newline_discards_first_row(state: WriterState, other: WriterState)
    requires
        state.wf(),
        other.wf(),
        state.color == other.color,
        state.cells.skip(BUFFER_WIDTH as int) == other.cells.skip(BUFFER_WIDTH as int),
    ensures
        state.write_byte(NEWLINE) == other.write_byte(NEWLINE),
{
    let after = state.write_byte(NEWLINE);
    let other_after = other.write_byte(NEWLINE);
    assert forall|i: int| 0 <= i < BUFFER_SIZE implies #[trigger] after.cells[i]
        == other_after.cells[i] by {
        if i < BUFFER_SIZE - BUFFER_WIDTH {
            assert(state.cells.skip(BUFFER_WIDTH as int)[i] == state.cells[i + BUFFER_WIDTH]);
            assert(other.cells.skip(BUFFER_WIDTH as int)[i] == other.cells[i + BUFFER_WIDTH]);
        }
    }
    assert(state.write_byte(NEWLINE).cells =~= other.write_byte(NEWLINE).cells);
}

/// A byte that is neither printable nor a newline is shown as the
/// placeholder glyph in the active colors, at the place where a printable
/// byte would have gone.
pub proof fn lemma_unprintable_shows_placeholder(state: WriterState, byte: u8)
    requires
        state.wf(),
        !is_printable(byte),
        byte != NEWLINE,
    ensures
        state.write_byte(byte) == state.write_byte(PLACEHOLDER),
        state.write_byte(byte).cell(BUFFER_HEIGHT - 1, state.write_byte(byte).column - 1)
            == state.colored(PLACEHOLDER),
{
}

/// Bytes other than a newline fill the last row from the cursor on, as long
/// as they end before the last column: nothing scrolls, and every other cell
/// stays as it was.
pub proof fn lemma_line_fills_without_scroll(state: WriterState, bytes: Seq<u8>)
    requires
        state.wf(),
        state.column + bytes.len() <= BUFFER_WIDTH - 1,
        forall|k: int| 0 <= k < bytes.len() ==> bytes[k] != NEWLINE,
    ensures
        state.write_bytes(bytes).wf(),
        state.write_bytes(bytes).column == state.column + bytes.len(),
        state.write_bytes(bytes).color == state.color,
        forall|i: int|
            0 <= i < BUFFER_SIZE ==> #[trigger] state.write_bytes(bytes).cells[i] == if (
            BUFFER_HEIGHT - 1) * BUFFER_WIDTH + state.column <= i < (BUFFER_HEIGHT - 1)
                * BUFFER_WIDTH + state.column + bytes.len() {
                state.colored(
                    glyph(bytes[i - (BUFFER_HEIGHT - 1) * BUFFER_WIDTH - state.column]),
                )
            } else {
                state.cells[i]
            },
    decreases bytes.len(),
{
    if bytes.len() > 0 {
        lemma_line_fills_without_scroll(state, bytes.drop_last());
    }
}

/// A row that is full up to its last column wraps on the next byte: the
/// screen scrolls exactly once, and then the byte lands at the first column
/// of the last row.
pub proof fn lemma_full_line_wraps_once(state: WriterState, bytes: Seq<u8>, last: u8)
    requires
        state.wf(),
        state.column + bytes.len() == BUFFER_WIDTH - 1,
        forall|k: int| 0 <= k < bytes.len() ==> bytes[k] != NEWLINE,
        last != NEWLINE,
    ensures
        state.write_bytes(bytes).column == BUFFER_WIDTH - 1,
        state.write_bytes(bytes.push(last)) == state.write_bytes(bytes).write_byte(last),
        state.write_bytes(bytes.push(last)).column == 1,
        forall|row: int|
            0 <= row < BUFFER_HEIGHT - 1 ==> #[trigger] state.write_bytes(bytes.push(last)).row(
                row,
            ) == state.write_bytes(bytes).row(row + 1),
        state.write_bytes(bytes.push(last)).row(BUFFER_HEIGHT - 1) == Seq::new(
            BUFFER_WIDTH as nat,
            |column: int|
                if column == 0 {
                    state.colored(glyph(last))
                } else {
                    ScreenChar::blank(state.color)
                },
        ),
{
    lemma_line_fills_without_scroll(state, bytes);
    let filled = state.write_bytes(bytes);
    let after = state.write_bytes(bytes.push(last));
    assert(bytes.push(last).drop_last() =~= bytes);
    assert(after == filled.write_byte(last));
    assert forall|row: int| 0 <= row < BUFFER_HEIGHT - 1 implies #[trigger] after.row(row)
        == filled.row(row + 1) by {
        assert(after.row(row) =~= filled.row(row + 1));
    }
    assert(after.row(BUFFER_HEIGHT - 1) =~= Seq::new(
        BUFFER_WIDTH as nat,
        |column: int|
            if column == 0 {
                state.colored(glyph(last))
            } else {
                ScreenChar::blank(state.color)
            },
    ));
}

/// Whether a sequence of bytes is made of two others, each in its own order
/// and taken in any alternation.
pub open spec fn interleaves(merged: Seq<u8>, first: Seq<u8>, second: Seq<u8>) -> bool
    decreases merged.len(),
{
    if merged.len() == 0 {
        first.len() == 0 && second.len() == 0
    } else {
        ||| first.len() > 0 && first.last() == merged.last() && interleaves(
            merged.drop_last(),
            first.drop_last(),
            second,
        )
        ||| second.len() > 0 && second.last() == merged.last() && interleaves(
            merged.drop_last(),
            first,
            second.drop_last(),
        )
    }
}

/// Whether a cell is the work of one write among the bytes given: the glyph
/// of one byte that is no newline, in the colors given.
pub open spec fn written_by_one_of(cell: ScreenChar, bytes: Seq<u8>, state: WriterState) -> bool {
    exists|k: int|
        0 <= k < bytes.len() && #[trigger] bytes[k] != NEWLINE && cell == state.colored(
            glyph(bytes[k]),
        )
}

/// Whatever bytes are written, every cell of the screen is then a whole
/// cell: one that the screen held before, a blank in the active colors, or
/// the glyph and colors of one single write.
pub proof fn lemma_cells_stay_whole(state: WriterState, bytes: Seq<u8>)
    requires
        state.wf(),
    ensures
        forall|i: int|
            0 <= i < BUFFER_SIZE ==> {
                let cell = #[trigger] state.write_bytes(bytes).cells[i];
                ||| state.cells.contains(cell)
                ||| cell == ScreenChar::blank(state.color)
                ||| written_by_one_of(cell, bytes, state)
            },
    decreases bytes.len(),
{
    if bytes.len() > 0 {
        let front = bytes.drop_last();
        let before = state.write_bytes(front);
        let after = state.write_bytes(bytes);
        lemma_cells_stay_whole(state, front);
        lemma_write_bytes_keeps_cursor_in_row(state, front);
        assert forall|i: int| 0 <= i < BUFFER_SIZE implies {
            let cell = #[trigger] after.cells[i];
            ||| state.cells.contains(cell)
            ||| cell == ScreenChar::blank(state.color)
            ||| written_by_one_of(cell, bytes, state)
        } by {
            let cell = after.cells[i];
            if cell == ScreenChar::blank(state.color) {
            } else if bytes.last() != NEWLINE && cell == state.colored(glyph(bytes.last())) {
                assert(bytes[bytes.len() - 1] != NEWLINE);
            } else {
                let j = choose|j: int| 0 <= j < BUFFER_SIZE && before.cells[j] == cell;
                assert(0 <= j < BUFFER_SIZE && before.cells[j] == cell) by {
                    if bytes.last() == NEWLINE {
                        assert(before.cells[i + BUFFER_WIDTH] == cell);
                    } else if before.column == BUFFER_WIDTH - 1 {
                        assert(before.cells[i + BUFFER_WIDTH] == cell);
                    } else {
                        assert(before.cells[i] == cell);
                    }
                }
                if written_by_one_of(cell, front, state) {
                    let k = choose|k: int|
                        0 <= k < front.len() && #[trigger] front[k] != NEWLINE && cell
                            == state.colored(glyph(front[k]));
                    assert(bytes[k] == front[k]);
                }
            }
        }
    } else {
        assert forall|i: int| 0 <= i < BUFFER_SIZE implies state.cells.contains(
            #[trigger] state.write_bytes(bytes).cells[i],
        ) by {}
    }
}

/// Every byte of an interleaving comes from one of the two sequences.
proof fn lemma_interleaved_byte_has_source(
    merged: Seq<u8>,
    first: Seq<u8>,
    second: Seq<u8>,
    k: int,
)
    requires
        interleaves(merged, first, second),
        0 <= k < merged.len(),
    ensures
        first.contains(merged[k]) || second.contains(merged[k]),
    decreases merged.len(),
{
    if first.len() > 0 && first.last() == merged.last() && interleaves(
        merged.drop_last(),
        first.drop_last(),
        second,
    ) {
        if k == merged.len() - 1 {
            assert(first[first.len() - 1] == merged[k]);
        } else {
            lemma_interleaved_byte_has_source(merged.drop_last(), first.drop_last(), second, k);
            if first.drop_last().contains(merged[k]) {
                let j = choose|j: int|
                    0 <= j < first.drop_last().len() && first.drop_last()[j] == merged[k];
                assert(first[j] == merged[k]);
            }
        }
    } else {
        if k == merged.len() - 1 {
            assert(second[second.len() - 1] == merged[k]);
        } else {
            lemma_interleaved_byte_has_source(merged.drop_last(), first, second.drop_last(), k);
            if second.drop_last().contains(merged[k]) {
                let j = choose|j: int|
                    0 <= j < second.drop_last().len() && second.drop_last()[j] == merged[k];
                assert(second[j] == merged[k]);
            }
        }
    }
}

/// However the output of two contexts is interleaved, no cell of the screen
/// is then put together from two writes: each is a cell that the screen held
/// before, a blank in the active colors, or the glyph and colors of one
/// single write of one of the two.
pub proof fn lemma_interleaved_output_keeps_cells_whole(
    state: WriterState,
    first: Seq<u8>,
    second: Seq<u8>,
    merged: Seq<u8>,
)
    requires
        state.wf(),
        interleaves(merged, first, second),
    ensures
        forall|i: int|
            0 <= i < BUFFER_SIZE ==> {
                let cell = #[trigger] state.write_bytes(merged).cells[i];
                ||| state.cells.contains(cell)
                ||| cell == ScreenChar::blank(state.color)
                ||| written_by_one_of(cell, first, state)
                ||| written_by_one_of(cell, second, state)
            },
{
    lemma_cells_stay_whole(state, merged);
    assert forall|i: int| 0 <= i < BUFFER_SIZE implies {
        let cell = #[trigger] state.write_bytes(merged).cells[i];
        ||| state.cells.contains(cell)
        ||| cell == ScreenChar::blank(state.color)
        ||| written_by_one_of(cell, first, state)
        ||| written_by_one_of(cell, second, state)
    } by {
        let cell = state.write_bytes(merged).cells[i];
        if written_by_one_of(cell, merged, state) {
            let k = choose|k: int|
                0 <= k < merged.len() && #[trigger] merged[k] != NEWLINE && cell == state.colored(
                    glyph(merged[k]),
                );
            lemma_interleaved_byte_has_source(merged, first, second, k);
            if first.contains(merged[k]) {
                let j = choose|j: int| 0 <= j < first.len() && first[j] == merged[k];
                assert(first[j] != NEWLINE);
            } else {
                let j = choose|j: int| 0 <= j < second.len() && second[j] == merged[k];
                assert(second[j] != NEWLINE);
            }
        }
    }
}

} // verus!
