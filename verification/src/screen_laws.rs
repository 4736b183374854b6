//! What a terminal shows once the frames of a pane are written to it.
use crate::bytes::decimal;
use crate::cursor::position;
use crate::line_delta::{compacted, larger, line_or, printable, visible_len, visible_part};
use crate::pane_delta::{
    appended, blank, clear_rest, cursor_row_in_pane, filled_rows, first_shift, moves_to_next_line,
    plain_style, restore, row_by_row, row_start, row_update, row_updates, save_and_hide,
    scroll_sequence, scrolled, scrolled_rows, terminal_row, update, written_line,
};
use crate::pane_laws::found_shift;
use crate::pane_snapshot::{hide_cursor, show_cursor, Snapshot};
use crate::terminal::{
    after_both, after_nothing, fixed_sequences, one_number_is_read, text_is_written,
    two_numbers_are_read, Terminal,
};
use vstd::prelude::*;

verus! {

/// The line is text that fits in the pane: a byte from space to tilde for each cell.
pub open spec fn fits_in(line: Seq<u8>, cols: int) -> bool {
    line.len() <= cols && forall|i: int| 0 <= i < line.len() ==> 0x20 <= #[trigger] line[i] <= 0x7e
}

/// The character of a line in a column, blank behind its end.
pub open spec fn character(line: Seq<u8>, col: int) -> u8 {
    if 0 <= col < line.len() {
        line[col]
    } else {
        0x20
    }
}

/// The character of a snapshot in a cell of the pane, blank where there is no line.
pub open spec fn cell(snapshot: Snapshot, row: int, col: int) -> u8 {
    if 0 <= row < snapshot.lines.len() {
        character(snapshot.lines[row], col)
    } else {
        0x20
    }
}

/// A cell of the terminal belongs to the pane.
pub open spec fn inside(snapshot: Snapshot, row: int, col: int) -> bool {
    snapshot.y <= row < snapshot.y + snapshot.rows && snapshot.x <= col < snapshot.x + snapshot.cols
}

/// The pane lies on the terminal.
pub open spec fn lies_on(snapshot: Snapshot, terminal: Terminal) -> bool {
    &&& terminal.width == snapshot.terminal_cols
    &&& terminal.height == snapshot.terminal_rows
    &&& snapshot.x + snapshot.cols <= terminal.width
    &&& snapshot.y + snapshot.rows <= terminal.height
}

/// The snapshot has a line of text for each of its rows at most.
pub open spec fn textual(snapshot: Snapshot) -> bool {
    &&& snapshot.lines.len() <= snapshot.rows
    &&& forall|row: int|
        0 <= row < snapshot.lines.len() ==> fits_in(
            #[trigger] snapshot.lines[row],
            snapshot.cols as int,
        )
}

/// The cells of the pane show the snapshot.
pub open spec fn shows(terminal: Terminal, snapshot: Snapshot) -> bool {
    forall|row: int, col: int|
        inside(snapshot, row, col) ==> #[trigger] terminal.cells[row][col] == cell(
            snapshot,
            row - snapshot.y,
            col - snapshot.x,
        )
}

/// The cursor of the terminal is where the snapshot has it, and shown where the program
/// shows it.
pub open spec fn shows_cursor(terminal: Terminal, snapshot: Snapshot) -> bool {
    &&& terminal.row == snapshot.cursor_row
    &&& terminal.col == snapshot.cursor_col
    &&& terminal.visible == ((snapshot.mode & 1) != 0)
}

/// The snapshot's cursor sequence names the cell that its cursor is in, and the cell is
/// on the terminal.
pub open spec fn cursor_placed(snapshot: Snapshot) -> bool {
    &&& snapshot.cursor_row < snapshot.terminal_rows
    &&& snapshot.cursor_col < snapshot.terminal_cols
    &&& snapshot.cursor == seq![0x1bu8, 0x5b] + decimal((snapshot.cursor_row + 1) as nat) + seq![
        0x3bu8,
    ] + decimal((snapshot.cursor_col + 1) as nat) + seq![0x48u8]
}

/// The cells that do not belong to the pane are as they were.
pub open spec fn others_untouched(before: Terminal, after: Terminal, snapshot: Snapshot) -> bool {
    forall|row: int, col: int|
        0 <= row < before.height && 0 <= col < before.width && !inside(snapshot, row, col)
            ==> #[trigger] after.cells[row][col] == before.cells[row][col]
}

/// Two terminals of one size.
pub open spec fn same_size(before: Terminal, after: Terminal) -> bool {
    before.width == after.width && before.height == after.height
}

/// A position sequence moves the cursor to the cell it names.
pub proof fn position_moves(terminal: Terminal, row: u16, col: u16)
    requires
        terminal.ready(),
        row < terminal.height <= u16::MAX,
        col < terminal.width <= u16::MAX,
    ensures
        terminal.after(position(row, col)) == terminal.moved(row as int, col as int),
        terminal.moved(row as int, col as int).ready(),
{
    two_numbers_are_read(terminal, (row + 1) as nat, (col + 1) as nat, 0x48);
    assert(position(row, col) =~= seq![0x1bu8, 0x5b] + decimal((row + 1) as nat) + seq![0x3bu8]
        + decimal((col + 1) as nat) + seq![0x48u8]);
}

/// The bytes before a row of the pane move the cursor to its first cell.
pub proof fn row_start_moves(terminal: Terminal, snapshot: Snapshot, row: int)
    requires
        terminal.ready(),
        lies_on(snapshot, terminal),
        0 <= row < snapshot.rows,
        0 < snapshot.cols,
    ensures
        terminal.after(row_start(snapshot, row)) == terminal.moved(
            snapshot.y + row,
            snapshot.x as int,
        ),
        terminal.moved(snapshot.y + row, snapshot.x as int).ready(),
{
    position_moves(terminal, (snapshot.y + row) as u16, snapshot.x);
    let moved = terminal.moved(snapshot.y + row, snapshot.x as int);
    after_both(terminal, position(terminal_row(snapshot, row), snapshot.x), plain_style());
    fixed_sequences(moved);
    assert(plain_style() =~= seq![0x1bu8, 0x5b, 0x30, 0x6d]);
}

/// Writing a line in place of another, from the first cell of its row, makes the row of the
/// pane show it and leaves every other cell alone.
#[verifier::rlimit(40)]
proof fn row_is_written(
    terminal: Terminal,
    snapshot: Snapshot,
    row: int,
    before: Seq<u8>,
    after: Seq<u8>,
    full_width: bool,
)
    requires
        terminal.ready(),
        lies_on(snapshot, terminal),
        0 <= row < snapshot.rows,
        0 < snapshot.cols,
        fits_in(before, snapshot.cols as int),
        fits_in(after, snapshot.cols as int),
        full_width ==> snapshot.x == 0 && snapshot.cols == snapshot.terminal_cols,
        full_width || after.len() == snapshot.cols,
        forall|col: int|
            snapshot.x <= col < snapshot.x + snapshot.cols ==> #[trigger] terminal.cells[snapshot.y
                + row][col] == character(before, col - snapshot.x),
    ensures
        ({
            let end = terminal.after(
                row_start(snapshot, row) + written_line(before, after, full_width),
            );
            &&& end.ready()
            &&& same_size(terminal, end)
            &&& forall|r: int, c: int|
                0 <= r < terminal.height && 0 <= c < terminal.width ==> #[trigger] end.cells[r][c]
                    == (if r == snapshot.y + row && snapshot.x <= c < snapshot.x + snapshot.cols {
                    character(after, c - snapshot.x)
                } else {
                    terminal.cells[r][c]
                })
        }),
{
    let start = terminal.moved(snapshot.y + row, snapshot.x as int);
    row_start_moves(terminal, snapshot, row);
    after_both(terminal, row_start(snapshot, row), written_line(before, after, full_width));
    visible_part(before);
    visible_part(after);
    assert forall|i: int| 0 <= i < before.len() implies printable(#[trigger] before[i]) by {
        assert(0x20 <= before[i] <= 0x7e);
    }
    assert forall|i: int| 0 <= i < after.len() implies printable(#[trigger] after[i]) by {
        assert(0x20 <= after[i] <= 0x7e);
    }
    let text = if compacted(before, after, full_width) is Some {
        after.take(visible_len(after) as int)
    } else {
        after
    };
    assert forall|i: int| 0 <= i < text.len() implies 0x20 <= #[trigger] text[i] <= 0x7e by {
        assert(text[i] == after[i]);
    }
    text_is_written(start, text);
    let written = start.after(text);
    match compacted(before, after, full_width) {
        Some((line, clear)) => {
            after_both(
                start,
                text,
                if clear {
                    clear_rest()
                } else {
                    Seq::empty()
                },
            );
            if clear {
                fixed_sequences(written);
                assert(clear_rest() =~= seq![0x1bu8, 0x5b, 0x4b]);
            }
        },
        None => {},
    }
    let end = start.after(written_line(before, after, full_width));
    assert forall|r: int, c: int|
        0 <= r < terminal.height && 0 <= c < terminal.width implies #[trigger] end.cells[r][c] == (
    if r == snapshot.y + row && snapshot.x <= c < snapshot.x + snapshot.cols {
        character(after, c - snapshot.x)
    } else {
        terminal.cells[r][c]
    }) by {
        assert(start.cells[snapshot.y + row].len() == terminal.width);
        if r == snapshot.y + row && snapshot.x <= c < snapshot.x + snapshot.cols {
            assert(terminal.cells[snapshot.y + row][c] == character(before, c - snapshot.x));
        }
    }
}

/// Every row that is written whole is as wide as the pane: the pane spans the terminal, or
/// each line has a character for every cell.
pub open spec fn writable(snapshot: Snapshot) -> bool {
    snapshot.x == 0 && snapshot.cols == snapshot.terminal_cols || forall|row: int|
        0 <= row < snapshot.lines.len() ==> (#[trigger] snapshot.lines[row]).len() == snapshot.cols
}

/// The two snapshots place the pane alike.
pub open spec fn placed_alike(previous: Snapshot, next: Snapshot) -> bool {
    &&& previous.x == next.x
    &&& previous.y == next.y
    &&& previous.rows == next.rows
    &&& previous.cols == next.cols
    &&& previous.terminal_cols == next.terminal_cols
    &&& previous.terminal_rows == next.terminal_rows
}

/// Updating the first rows one by one makes them show the next snapshot and leaves every
/// other cell alone.
#[verifier::rlimit(40)]
proof fn rows_are_updated(terminal: Terminal, previous: Snapshot, next: Snapshot, count: nat)
    requires
        terminal.ready(),
        lies_on(next, terminal),
        placed_alike(previous, next),
        textual(previous),
        textual(next),
        writable(next),
        shows(terminal, previous),
        count <= next.rows,
    ensures
        ({
            let end = terminal.after(row_updates(previous, next, count));
            &&& end.ready()
            &&& same_size(terminal, end)
            &&& forall|row: int, col: int|
                0 <= row < terminal.height && 0 <= col < terminal.width
                    ==> #[trigger] end.cells[row][col] == (if inside(next, row, col) && row
                    - next.y < count {
                    cell(next, row - next.y, col - next.x)
                } else {
                    terminal.cells[row][col]
                })
        }),
    decreases count,
{
    if count > 0 {
        let row = (count - 1) as int;
        rows_are_updated(terminal, previous, next, (count - 1) as nat);
        let middle = terminal.after(row_updates(previous, next, (count - 1) as nat));
        after_both(
            terminal,
            row_updates(previous, next, (count - 1) as nat),
            row_update(previous, next, row),
        );
        let empty_line = blank(next.cols);
        let before = line_or(previous.lines, row, empty_line);
        let after = line_or(next.lines, row, empty_line);
        assert(fits_in(empty_line, next.cols as int));
        assert(fits_in(before, next.cols as int));
        assert(fits_in(after, next.cols as int));
        assert forall|col: int| next.x <= col < next.x + next.cols implies #[trigger] middle.cells[
        next.y + row][col] == character(before, col - next.x) by {
            assert(inside(previous, next.y + row, col));
            assert(terminal.cells[next.y + row][col] == cell(previous, row, col - next.x));
        }
        if before == after {
            after_nothing(middle);
        } else {
            if next.cols == 0 {
                assert(before =~= after);
            }
            row_is_written(middle, next, row, before, after, next.full_width());
        }
        let end = terminal.after(row_updates(previous, next, count));
        assert forall|r: int, c: int|
            0 <= r < terminal.height && 0 <= c < terminal.width implies #[trigger] end.cells[r][c]
            == (if inside(next, r, c) && r - next.y < count {
            cell(next, r - next.y, c - next.x)
        } else {
            terminal.cells[r][c]
        }) by {
            assert(middle.cells[r][c] == middle.cells[r][c]);
            if r == next.y + row && inside(next, r, c) {
                assert(character(after, c - next.x) == cell(next, row, c - next.x));
            }
        }
    }
}

/// The sequences that end a frame put the cursor where the snapshot has it and show or hide
/// it, and change no cell.
pub proof fn cursor_is_placed(terminal: Terminal, snapshot: Snapshot)
    requires
        terminal.ready(),
        terminal.width == snapshot.terminal_cols,
        terminal.height == snapshot.terminal_rows,
        cursor_placed(snapshot),
    ensures
        terminal.after(snapshot.cursor) == terminal.moved(
            snapshot.cursor_row as int,
            snapshot.cursor_col as int,
        ),
        ({
            let end = terminal.after(snapshot.final_cursor_state());
            &&& end.ready()
            &&& end.cells == terminal.cells
            &&& same_size(terminal, end)
            &&& shows_cursor(end, snapshot)
        }),
{
    let moved = terminal.moved(snapshot.cursor_row as int, snapshot.cursor_col as int);
    two_numbers_are_read(
        terminal,
        (snapshot.cursor_row + 1) as nat,
        (snapshot.cursor_col + 1) as nat,
        0x48,
    );
    after_both(
        terminal,
        snapshot.cursor,
        if snapshot.cursor_visible() {
            show_cursor()
        } else {
            hide_cursor()
        },
    );
    fixed_sequences(moved);
    assert(show_cursor() =~= seq![0x1bu8, 0x5b, 0x3f, 0x32, 0x35, 0x68]);
    assert(hide_cursor() =~= seq![0x1bu8, 0x5b, 0x3f, 0x32, 0x35, 0x6c]);
}

/// Saving and hiding the cursor changes no cell.
pub proof fn frame_is_started(terminal: Terminal)
    requires
        terminal.ready(),
    ensures
        ({
            let end = terminal.after(save_and_hide());
            &&& end.ready()
            &&& end.cells == terminal.cells
            &&& same_size(terminal, end)
        }),
{
    let saved = terminal.after(seq![0x1bu8, 0x5b, 0x73]);
    fixed_sequences(terminal);
    fixed_sequences(saved);
    assert(hide_cursor() =~= seq![0x1bu8, 0x5b, 0x3f, 0x32, 0x35, 0x6c]);
    after_both(terminal, seq![0x1bu8, 0x5b, 0x73], hide_cursor());
    assert(save_and_hide() =~= seq![0x1bu8, 0x5b, 0x73] + hide_cursor());
}

/// Putting the cursor back and then where the snapshot has it changes no cell.
pub proof fn frame_is_ended(terminal: Terminal, snapshot: Snapshot)
    requires
        terminal.ready(),
        terminal.width == snapshot.terminal_cols,
        terminal.height == snapshot.terminal_rows,
        cursor_placed(snapshot),
    ensures
        ({
            let end = terminal.after(restore() + snapshot.final_cursor_state());
            &&& end.ready()
            &&& end.cells == terminal.cells
            &&& same_size(terminal, end)
            &&& shows_cursor(end, snapshot)
        }),
{
    let back = terminal.moved(terminal.saved_row, terminal.saved_col);
    fixed_sequences(terminal);
    assert(plain_style() =~= seq![0x1bu8, 0x5b, 0x30, 0x6d]);
    after_both(terminal, plain_style(), seq![0x1bu8, 0x5b, 0x75]);
    assert(restore() =~= plain_style() + seq![0x1bu8, 0x5b, 0x75]);
    after_both(terminal, restore(), snapshot.final_cursor_state());
    cursor_is_placed(back, snapshot);
}

/// Where the rows of a pane, its scrollbar or its cursor changed, the frame that updates
/// them row by row makes the terminal show the next snapshot.
#[verifier::rlimit(40)]
proof fn row_frames_show_the_next_snapshot(
    terminal: Terminal,
    previous: Snapshot,
    next: Snapshot,
)
    requires
        terminal.ready(),
        lies_on(next, terminal),
        placed_alike(previous, next),
        textual(previous),
        textual(next),
        writable(next),
        cursor_placed(previous),
        cursor_placed(next),
        previous.scrollbar == next.scrollbar,
        shows(terminal, previous),
        shows_cursor(terminal, previous),
    ensures
        ({
            let end = terminal.after(row_by_row(previous, next));
            &&& end.ready()
            &&& shows(end, next)
            &&& shows_cursor(end, next)
            &&& others_untouched(terminal, end, next)
        }),
{
    let count = larger(previous.lines.len(), next.lines.len());
    let updates = row_updates(previous, next, count);
    let end = terminal.after(row_by_row(previous, next));
    if updates.len() > 0 {
        frame_is_started(terminal);
        let started = terminal.after(save_and_hide());
        assert(shows(started, previous));
        rows_are_updated(started, previous, next, count);
        let updated = started.after(updates);
        frame_is_ended(updated, next);
        after_both(terminal, save_and_hide(), updates);
        after_both(
            terminal,
            save_and_hide() + updates,
            restore() + next.final_cursor_state(),
        );
        assert(row_by_row(previous, next) =~= (save_and_hide() + updates) + (restore()
            + next.final_cursor_state()));
        assert forall|row: int, col: int| inside(next, row, col) implies #[trigger] end.cells[row][
        col] == cell(next, row - next.y, col - next.x) by {
            assert(started.cells[row][col] == cell(previous, row - next.y, col - next.x)) by {
                assert(inside(previous, row, col));
            }
            assert(updated.cells[row][col] == updated.cells[row][col]);
        }
        assert forall|row: int, col: int|
            0 <= row < terminal.height && 0 <= col < terminal.width && !inside(
                next,
                row,
                col,
            ) implies #[trigger] end.cells[row][col] == terminal.cells[row][col] by {
            assert(updated.cells[row][col] == started.cells[row][col]);
        }
    } else {
        rows_are_updated(terminal, previous, next, count);
        assert(updates =~= Seq::<u8>::empty());
        after_nothing(terminal);
        cursor_is_placed(terminal, next);
        cursor_is_placed(terminal, previous);
        assert(end.cells == terminal.cells);
        assert forall|row: int, col: int| inside(next, row, col) implies #[trigger] end.cells[row][
        col] == cell(next, row - next.y, col - next.x) by {
            assert(inside(previous, row, col));
            assert(terminal.cells[row][col] == cell(previous, row - next.y, col - next.x));
        }
    }
}

/// Where text was typed behind the text of the cursor's line, the frame that appends it
/// makes the terminal show the next snapshot.
#[verifier::rlimit(40)]
proof fn appended_text_shows_the_next_snapshot(
    terminal: Terminal,
    previous: Snapshot,
    next: Snapshot,
)
    requires
        terminal.ready(),
        lies_on(next, terminal),
        placed_alike(previous, next),
        textual(previous),
        textual(next),
        cursor_placed(previous),
        cursor_placed(next),
        shows(terminal, previous),
        shows_cursor(terminal, previous),
        appended(previous, next) is Some,
    ensures
        ({
            let end = terminal.after(appended(previous, next)->0);
            &&& end.ready()
            &&& shows(end, next)
            &&& shows_cursor(end, next)
            &&& others_untouched(terminal, end, next)
        }),
{
    let row = cursor_row_in_pane(previous);
    let before = previous.lines[row];
    let after = next.lines[row];
    let col = visible_len(before) as int;
    let text = after.subrange(col, visible_len(after) as int);
    let line_end = if moves_to_next_line(previous, next) {
        seq!['\r' as u8, '\n' as u8]
    } else {
        Seq::empty()
    };
    let tail = if previous.cursor_visible() != next.cursor_visible() {
        next.final_cursor_state()
    } else {
        Seq::empty()
    };
    visible_part(before);
    visible_part(after);
    assert forall|i: int| 0 <= i < text.len() implies 0x20 <= #[trigger] text[i] <= 0x7e by {
        assert(fits_in(after, next.cols as int));
        assert(text[i] == after[i + col]);
    }
    text_is_written(terminal, text);
    let written = terminal.after(text);
    after_both(terminal, text, line_end);
    fixed_sequences(written);
    after_nothing(written);
    assert(seq!['\r' as u8, '\n' as u8] =~= seq![0x0du8, 0x0a]);
    let ended = written.after(line_end);
    assert(ended.ready());
    assert(ended.cells == written.cells);
    assert(ended.row == next.cursor_row && ended.col == next.cursor_col);
    after_both(terminal, text + line_end, tail);
    cursor_is_placed(ended, next);
    after_nothing(ended);
    let end = terminal.after(appended(previous, next)->0);
    assert(end.cells == written.cells);
    assert forall|r: int, c: int| inside(next, r, c) implies #[trigger] end.cells[r][c] == cell(
        next,
        r - next.y,
        c - next.x,
    ) by {
        assert(inside(previous, r, c));
        assert(terminal.cells[r][c] == cell(previous, r - next.y, c - next.x));
        if r == next.y + row {
            if c < col {
                assert(before.take(col)[c] == after.take(col)[c]);
            }
        } else {
            let other = r - next.y;
            if 0 <= other < larger(previous.lines.len(), next.lines.len()) {
                assert(line_or(previous.lines, other, Seq::empty()) == line_or(
                    next.lines,
                    other,
                    Seq::empty(),
                ));
            }
        }
    }
}

/// The rows that came in with a scroll are filled.
#[verifier::rlimit(40)]
proof fn rows_are_filled(terminal: Terminal, next: Snapshot, from: int, upto: int)
    requires
        terminal.ready(),
        lies_on(next, terminal),
        textual(next),
        next.full_width(),
        0 <= from,
        upto <= next.lines.len(),
        forall|row: int, col: int|
            next.y + from <= row < next.y + upto && 0 <= col < terminal.width
                ==> #[trigger] terminal.cells[row][col] == 0x20,
    ensures
        ({
            let end = terminal.after(filled_rows(next, from, upto));
            &&& end.ready()
            &&& same_size(terminal, end)
            &&& forall|row: int, col: int|
                0 <= row < terminal.height && 0 <= col < terminal.width
                    ==> #[trigger] end.cells[row][col] == (if next.y + from <= row < next.y + upto {
                    cell(next, row - next.y, col)
                } else {
                    terminal.cells[row][col]
                })
        }),
    decreases upto - from,
{
    if upto <= from {
        after_nothing(terminal);
    } else {
        let row = upto - 1;
        let line = written_line(blank(next.cols), next.lines[row], true);
        rows_are_filled(terminal, next, from, row);
        let middle = terminal.after(filled_rows(next, from, row));
        after_both(terminal, filled_rows(next, from, row), row_start(next, row) + line);
        assert(filled_rows(next, from, upto) =~= filled_rows(next, from, row) + (row_start(
            next,
            row,
        ) + line));
        assert forall|col: int| next.x <= col < next.x + next.cols implies #[trigger] middle.cells[
        next.y + row][col] == character(blank(next.cols), col - next.x) by {
            assert(terminal.cells[next.y + row][col] == 0x20);
        }
        assert(fits_in(next.lines[row], next.cols as int));
        assert(fits_in(blank(next.cols), next.cols as int));
        row_is_written(middle, next, row, blank(next.cols), next.lines[row], true);
        let end = terminal.after(filled_rows(next, from, upto));
        assert forall|r: int, c: int|
            0 <= r < terminal.height && 0 <= c < terminal.width implies #[trigger] end.cells[r][c]
            == (if next.y + from <= r < next.y + upto {
            cell(next, r - next.y, c)
        } else {
            terminal.cells[r][c]
        }) by {
            assert(middle.cells[r][c] == middle.cells[r][c]);
        }
    }
}

/// The scroll sequence moves the rows of the pane up and leaves the other rows alone.
proof fn pane_is_scrolled(terminal: Terminal, next: Snapshot, shift: int)
    requires
        terminal.ready(),
        lies_on(next, terminal),
        0 < next.rows,
        0 < shift,
    ensures
        ({
            let end = terminal.after(scroll_sequence(next, shift));
            &&& end.ready()
            &&& same_size(terminal, end)
            &&& forall|row: int, col: int|
                0 <= row < terminal.height && 0 <= col < terminal.width
                    ==> #[trigger] end.cells[row][col] == (if next.y <= row < next.y + next.rows {
                    if row + shift < next.y + next.rows {
                        terminal.cells[row + shift][col]
                    } else {
                        0x20
                    }
                } else {
                    terminal.cells[row][col]
                })
        }),
{
    let region = seq![0x1bu8, 0x5b] + decimal((next.y + 1) as nat) + seq![0x3bu8] + decimal(
        (next.y + next.rows) as nat,
    ) + seq![0x72u8];
    let up = seq![0x1bu8, 0x5b] + decimal(shift as nat) + seq![0x53u8];
    let reset = seq![0x1bu8, 0x5b, 0x72];
    assert(scroll_sequence(next, shift) =~= region + up + reset);
    two_numbers_are_read(terminal, (next.y + 1) as nat, (next.y + next.rows) as nat, 0x72);
    let limited = terminal.after(region);
    one_number_is_read(limited, shift as nat, 0x53);
    let moved = limited.after(up);
    fixed_sequences(moved);
    after_both(terminal, region, up);
    after_both(terminal, region + up, reset);
}

/// Where the rows of a pane moved up, the frame that scrolls it makes the terminal show the
/// next snapshot.
#[verifier::rlimit(40)]
proof fn scroll_frames_show_the_next_snapshot(
    terminal: Terminal,
    previous: Snapshot,
    next: Snapshot,
)
    requires
        terminal.ready(),
        lies_on(next, terminal),
        placed_alike(previous, next),
        textual(previous),
        textual(next),
        cursor_placed(next),
        shows(terminal, previous),
        scrolled(previous, next) is Some,
    ensures
        ({
            let end = terminal.after(scrolled(previous, next)->0);
            &&& end.ready()
            &&& shows(end, next)
            &&& shows_cursor(end, next)
            &&& others_untouched(terminal, end, next)
        }),
{
    let shift = first_shift(previous, next, 1)->0;
    let rows = scrolled_rows(next);
    found_shift(previous, next, 1);
    let fill = filled_rows(next, rows - shift, rows);
    frame_is_started(terminal);
    let started = terminal.after(save_and_hide());
    pane_is_scrolled(started, next, shift);
    let moved = started.after(scroll_sequence(next, shift));
    assert forall|row: int, col: int|
        next.y + rows - shift <= row < next.y + rows && 0 <= col
            < terminal.width implies #[trigger] moved.cells[row][col] == 0x20 by {
        if row + shift < next.y + next.rows {
            assert(inside(previous, row + shift, col));
            assert(terminal.cells[row + shift][col] == cell(
                previous,
                row + shift - next.y,
                col - next.x,
            ));
        }
    }
    rows_are_filled(moved, next, rows - shift, rows);
    let filled = moved.after(fill);
    frame_is_ended(filled, next);
    after_both(terminal, save_and_hide(), scroll_sequence(next, shift));
    after_both(terminal, save_and_hide() + scroll_sequence(next, shift), fill);
    after_both(
        terminal,
        save_and_hide() + scroll_sequence(next, shift) + fill,
        restore() + next.final_cursor_state(),
    );
    assert(scrolled(previous, next)->0 =~= save_and_hide() + scroll_sequence(next, shift) + fill + (
    restore() + next.final_cursor_state()));
    let end = terminal.after(scrolled(previous, next)->0);
    assert forall|row: int, col: int| inside(next, row, col) implies #[trigger] end.cells[row][col]
        == cell(next, row - next.y, col - next.x) by {
        let r = row - next.y;
        assert(filled.cells[row][col] == filled.cells[row][col]);
        assert(moved.cells[row][col] == moved.cells[row][col]);
        if r < rows - shift {
            assert(inside(previous, row + shift, col));
            assert(terminal.cells[row + shift][col] == cell(previous, r + shift, col - next.x));
            assert(previous.lines.subrange(shift, rows)[r] == next.lines.subrange(
                0,
                rows - shift,
            )[r]);
        } else if r >= rows {
            if row + shift < next.y + next.rows {
                assert(inside(previous, row + shift, col));
                assert(terminal.cells[row + shift][col] == cell(previous, r + shift, col - next.x));
            }
        }
    }
    assert forall|row: int, col: int|
        0 <= row < terminal.height && 0 <= col < terminal.width && !inside(
            next,
            row,
            col,
        ) implies #[trigger] end.cells[row][col] == terminal.cells[row][col] by {
        assert(filled.cells[row][col] == moved.cells[row][col]);
    }
}

/// Whatever way a delta takes, a terminal that shows the previous snapshot shows the next
/// one once the frame is written: every row of the pane, the cursor in its place, and the
/// cursor shown or hidden. No cell outside the pane changes.
pub proof fn deltas_show_the_next_snapshot(
    terminal: Terminal,
    previous: Snapshot,
    next: Snapshot,
)
    requires
        terminal.ready(),
        lies_on(next, terminal),
        placed_alike(previous, next),
        textual(previous),
        textual(next),
        writable(next),
        cursor_placed(previous),
        cursor_placed(next),
        previous.scrollbar == next.scrollbar,
        shows(terminal, previous),
        shows_cursor(terminal, previous),
    ensures
        ({
            let (frame, _) = update(previous, next);
            let end = terminal.after(frame);
            &&& end.ready()
            &&& shows(end, next)
            &&& shows_cursor(end, next)
            &&& others_untouched(terminal, end, next)
        }),
{
    if appended(previous, next) is Some {
        appended_text_shows_the_next_snapshot(terminal, previous, next);
    } else if scrolled(previous, next) is Some {
        scroll_frames_show_the_next_snapshot(terminal, previous, next);
    } else {
        row_frames_show_the_next_snapshot(terminal, previous, next);
    }
}

} // verus!
