//! What a terminal shows once a pane is drawn anew or its program's output is written.
use crate::cursor::{capped_sum, position};
use crate::bytes::decimal;
use crate::line_delta::printable;
use crate::pane_delta::{
    drawn_rows, full, plain_style, restore, row_start, save_and_hide, scrolled_rows,
};
use crate::pane_plain_output::{
    applied, byte_written, bytes_written, echoed, forwardable, full_height, overwritten, positioned,
    run_end, run_end_advances, run_written, runs_written, scrolls_from, writing_to, Writing,
};
use crate::pane_snapshot::{hide_cursor, show_cursor, Snapshot};
use crate::screen_laws::{
    cell, cursor_placed, fits_in, frame_is_ended, frame_is_started, inside, lies_on,
    others_untouched, position_moves, row_start_moves, same_size, shows, shows_cursor, textual,
};
use crate::terminal::{
    after_both, after_nothing, after_push, fixed_sequences, text_is_written, two_numbers_are_read,
    Terminal,
};
use vstd::prelude::*;

verus! {

/// Drawing the first lines puts each of them into its row, from the first cell of the pane
/// on, and leaves every other cell alone.
#[verifier::rlimit(40)]
proof fn rows_are_drawn(terminal: Terminal, snapshot: Snapshot, count: nat)
    requires
        terminal.ready(),
        lies_on(snapshot, terminal),
        textual(snapshot),
        0 < snapshot.cols,
        count <= snapshot.lines.len(),
    ensures
        ({
            let end = terminal.after(drawn_rows(snapshot, count));
            &&& end.ready()
            &&& same_size(terminal, end)
            &&& forall|row: int, col: int|
                0 <= row < terminal.height && 0 <= col < terminal.width
                    ==> #[trigger] end.cells[row][col] == (if inside(snapshot, row, col) && row
                    - snapshot.y < count && col - snapshot.x < snapshot.lines[row
                    - snapshot.y].len() {
                    snapshot.lines[row - snapshot.y][col - snapshot.x]
                } else {
                    terminal.cells[row][col]
                })
        }),
    decreases count,
{
    if count == 0 {
        after_nothing(terminal);
    } else {
        let row = (count - 1) as int;
        let line = snapshot.lines[row];
        let before = drawn_rows(snapshot, (count - 1) as nat);
        rows_are_drawn(terminal, snapshot, (count - 1) as nat);
        let middle = terminal.after(before);
        row_start_moves(middle, snapshot, row);
        let start = middle.moved(snapshot.y + row, snapshot.x as int);
        assert(fits_in(line, snapshot.cols as int));
        text_is_written(start, line);
        after_both(terminal, before, row_start(snapshot, row));
        after_both(terminal, before + row_start(snapshot, row), line);
        let end = terminal.after(drawn_rows(snapshot, count));
        assert forall|r: int, c: int|
            0 <= r < terminal.height && 0 <= c < terminal.width implies #[trigger] end.cells[r][c]
            == (if inside(snapshot, r, c) && r - snapshot.y < count && c - snapshot.x
            < snapshot.lines[r - snapshot.y].len() {
            snapshot.lines[r - snapshot.y][c - snapshot.x]
        } else {
            terminal.cells[r][c]
        }) by {
            assert(middle.cells[r][c] == middle.cells[r][c]);
            assert(middle.cells[r].len() == terminal.width);
        }
    }
}

/// Drawing a pane anew puts every line into its row, from the first cell of the pane on,
/// puts the cursor in its place and shows or hides it. No other cell changes.
pub proof fn full_frames_show_the_snapshot(terminal: Terminal, snapshot: Snapshot)
    requires
        terminal.ready(),
        lies_on(snapshot, terminal),
        textual(snapshot),
        0 < snapshot.cols,
        cursor_placed(snapshot),
        snapshot.scrollbar is None,
    ensures
        ({
            let end = terminal.after(full(snapshot));
            &&& end.ready()
            &&& shows_cursor(end, snapshot)
            &&& others_untouched(terminal, end, snapshot)
            &&& forall|row: int, col: int|
                inside(snapshot, row, col) ==> #[trigger] end.cells[row][col] == (if row
                    - snapshot.y < snapshot.lines.len() && col - snapshot.x < snapshot.lines[row
                    - snapshot.y].len() {
                    snapshot.lines[row - snapshot.y][col - snapshot.x]
                } else {
                    terminal.cells[row][col]
                })
        }),
{
    let count = scrolled_rows(snapshot) as nat;
    let rows = drawn_rows(snapshot, count);
    let tail = restore() + snapshot.final_cursor_state();
    frame_is_started(terminal);
    let started = terminal.after(save_and_hide());
    fixed_sequences(started);
    assert(plain_style() =~= seq![0x1bu8, 0x5b, 0x30, 0x6d]);
    rows_are_drawn(started, snapshot, count);
    let drawn = started.after(rows);
    frame_is_ended(drawn, snapshot);
    after_both(terminal, save_and_hide(), plain_style());
    after_both(terminal, save_and_hide() + plain_style(), rows);
    after_both(terminal, save_and_hide() + plain_style() + rows, tail);
    assert(full(snapshot) =~= save_and_hide() + plain_style() + rows + tail);
    let end = terminal.after(full(snapshot));
    assert forall|row: int, col: int|
        0 <= row < terminal.height && 0 <= col < terminal.width && !inside(
            snapshot,
            row,
            col,
        ) implies #[trigger] end.cells[row][col] == terminal.cells[row][col] by {
        assert(drawn.cells[row][col] == started.cells[row][col]);
    }
    assert forall|row: int, col: int| inside(snapshot, row, col) implies #[trigger] end.cells[row][
    col] == (if row - snapshot.y < snapshot.lines.len() && col - snapshot.x < snapshot.lines[row
        - snapshot.y].len() {
        snapshot.lines[row - snapshot.y][col - snapshot.x]
    } else {
        terminal.cells[row][col]
    }) by {
        assert(drawn.cells[row][col] == drawn.cells[row][col]);
    }
}

/// Writing a run of text into the lines writes it into the cells.
#[verifier::rlimit(40)]
proof fn run_is_shown(
    terminal: Terminal,
    before: Snapshot,
    after: Snapshot,
    row: int,
    col: int,
    run: Seq<u8>,
)
    requires
        terminal.ready(),
        lies_on(before, terminal),
        textual(before),
        shows(terminal, before),
        0 <= row < before.rows,
        0 <= col,
        forall|i: int| 0 <= i < run.len() ==> 0x20 <= #[trigger] run[i] <= 0x7e,
        run_written(before.lines, row, col, run, before.cols as int) is Some,
        after == (Snapshot {
            lines: run_written(before.lines, row, col, run, before.cols as int)->0,
            ..before
        }),
        terminal.row == before.y + row,
        terminal.col == before.x + col,
    ensures
        textual(after),
        ({
            let end = terminal.after(run);
            &&& end.ready()
            &&& same_size(terminal, end)
            &&& shows(end, after)
            &&& others_untouched(terminal, end, after)
            &&& end.row == before.y + row
            &&& end.col == before.x + col + run.len()
            &&& end.visible == terminal.visible
        }),
{
    let cols = before.cols as int;
    let line = before.lines[row];
    let over = overwritten(line, col, run, cols);
    text_is_written(terminal, run);
    let end = terminal.after(run);
    assert(fits_in(line, cols));
    assert(over.len() == cols);
    assert forall|i: int| 0 <= i < over.len() implies 0x20 <= #[trigger] over[i] <= 0x7e by {
        if col <= i < col + run.len() {
            assert(over[i] == run[i - col]);
        } else if i < line.len() {
            assert(over[i] == line[i]);
        }
    }
    assert(fits_in(over, cols));
    assert forall|r: int| 0 <= r < after.lines.len() implies fits_in(
        #[trigger] after.lines[r],
        cols,
    ) by {
        if r != row {
            assert(after.lines[r] == before.lines[r]);
        }
    }
    assert(terminal.cells[terminal.row].len() == terminal.width);
    assert forall|r: int, c: int| inside(after, r, c) implies #[trigger] end.cells[r][c] == cell(
        after,
        r - after.y,
        c - after.x,
    ) by {
        assert(inside(before, r, c));
        assert(terminal.cells[r][c] == cell(before, r - before.y, c - before.x));
        if r == before.y + row {
            assert(after.lines[row] == over);
        }
    }
}

/// A position sequence moves the cursor to the cell it names, or to the last column where
/// it names the one behind it.
proof fn position_is_held(terminal: Terminal, row: u16, col: u16)
    requires
        terminal.ready(),
        row < terminal.height <= u16::MAX,
        col <= terminal.width <= u16::MAX,
    ensures
        terminal.after(position(row, col)) == terminal.moved(
            row as int,
            if col < terminal.width {
                col as int
            } else {
                terminal.width - 1
            },
        ),
{
    two_numbers_are_read(
        terminal,
        capped_sum(row, 1) as nat,
        capped_sum(col, 1) as nat,
        0x48,
    );
    assert(position(row, col) =~= seq![0x1bu8, 0x5b] + decimal(capped_sum(row, 1) as nat) + seq![
        0x3bu8,
    ] + decimal(capped_sum(col, 1) as nat) + seq![0x48u8]);
}

/// The runs of positioned output, each at its own position, are shown where the pane's
/// lines have them.
#[verifier::rlimit(40)]
proof fn runs_are_shown(terminal: Terminal, writing: Writing, bytes: Seq<u8>, from: int)
    requires
        terminal.ready(),
        lies_on(writing.pane, terminal),
        textual(writing.pane),
        shows(terminal, writing.pane),
        writing.row < writing.pane.rows,
        writing.col <= writing.pane.cols,
        0 <= from <= bytes.len(),
        runs_written(writing, bytes, from) is Some,
    ensures
        ({
            let (last, frame) = runs_written(writing, bytes, from)->0;
            let end = terminal.after(frame);
            &&& end.ready()
            &&& same_size(terminal, end)
            &&& textual(last.pane)
            &&& last.pane == (Snapshot { lines: last.pane.lines, ..writing.pane })
            &&& shows(end, last.pane)
            &&& others_untouched(terminal, end, last.pane)
            &&& last.row < last.pane.rows
            &&& last.col <= last.pane.cols
        }),
    decreases bytes.len() - from,
{
    let pane = writing.pane;
    if from >= bytes.len() {
        after_nothing(terminal);
    } else if bytes[from] == '\r' as u8 {
        runs_are_shown(terminal, Writing { col: 0, ..writing }, bytes, from + 1);
    } else if bytes[from] == '\n' as u8 {
        runs_are_shown(
            terminal,
            Writing { row: (writing.row + 1) as u16, ..writing },
            bytes,
            from + 1,
        );
    } else {
        let end = run_end(bytes, from);
        run_end_advances(bytes, from);
        let run = bytes.subrange(from, end);
        let lines = run_written(
            pane.lines,
            writing.row as int,
            writing.col as int,
            run,
            pane.cols as int,
        )->0;
        let after = Writing {
            pane: Snapshot { lines, ..pane },
            row: writing.row,
            col: (writing.col + run.len()) as u16,
            touched: writing.touched.insert(writing.row as int),
        };
        let place = position(capped_sum(pane.y, writing.row), capped_sum(pane.x, writing.col));
        position_moves(terminal, (pane.y + writing.row) as u16, (pane.x + writing.col) as u16);
        let start = terminal.after(place);
        assert(shows(start, pane));
        assert forall|i: int| 0 <= i < run.len() implies 0x20 <= #[trigger] run[i] <= 0x7e by {
            assert(printable(bytes[from + i]));
        }
        run_is_shown(start, pane, after.pane, writing.row as int, writing.col as int, run);
        let written = start.after(run);
        runs_are_shown(written, after, bytes, end);
        let (last, frame) = runs_written(after, bytes, end)->0;
        after_both(terminal, place, run);
        after_both(terminal, place + run, frame);
        let finish = terminal.after(place + run + frame);
        assert forall|r: int, c: int|
            0 <= r < terminal.height && 0 <= c < terminal.width && !inside(
                last.pane,
                r,
                c,
            ) implies #[trigger] finish.cells[r][c] == terminal.cells[r][c] by {
            assert(!inside(after.pane, r, c));
            assert(written.cells[r][c] == start.cells[r][c]);
        }
    }
}

/// Output of a pane beside others, written run by run, makes the terminal show the pane
/// with that output applied, and leaves the other panes alone. The cursor stands where the
/// pane has it, or in the last column where that is behind it.
#[verifier::rlimit(40)]
pub proof fn positioned_output_is_shown(terminal: Terminal, snapshot: Snapshot, bytes: Seq<u8>)
    requires
        terminal.ready(),
        lies_on(snapshot, terminal),
        textual(snapshot),
        shows(terminal, snapshot),
        positioned(snapshot, bytes) is Some,
    ensures
        ({
            let (after, frame) = positioned(snapshot, bytes)->0;
            let end = terminal.after(frame);
            &&& end.ready()
            &&& shows(end, after)
            &&& others_untouched(terminal, end, after)
            &&& end.row == after.cursor_row
            &&& end.col == (if after.cursor_col < terminal.width {
                after.cursor_col as int
            } else {
                terminal.width - 1
            })
            &&& end.visible == ((after.mode & 1) != 0)
        }),
{
    let (after, frame) = positioned(snapshot, bytes)->0;
    let (last, runs) = runs_written(writing_to(snapshot), bytes, 0)->0;
    frame_is_started(terminal);
    let started = terminal.after(save_and_hide());
    fixed_sequences(started);
    assert(plain_style() =~= seq![0x1bu8, 0x5b, 0x30, 0x6d]);
    assert(shows(started, snapshot));
    runs_are_shown(started, writing_to(snapshot), bytes, 0);
    let written = started.after(runs);
    fixed_sequences(written);
    let back = written.moved(written.saved_row, written.saved_col);
    position_is_held(back, after.cursor_row, after.cursor_col);
    let placed = back.after(after.cursor);
    fixed_sequences(placed);
    let shown = if after.cursor_visible() {
        show_cursor()
    } else {
        hide_cursor()
    };
    assert(show_cursor() =~= seq![0x1bu8, 0x5b, 0x3f, 0x32, 0x35, 0x68]);
    assert(hide_cursor() =~= seq![0x1bu8, 0x5b, 0x3f, 0x32, 0x35, 0x6c]);
    let leave = seq![0x1bu8, 0x5b, 0x75];
    let head = save_and_hide() + plain_style();
    after_both(terminal, save_and_hide(), plain_style());
    after_both(terminal, head, runs);
    after_both(terminal, head + runs, plain_style());
    after_both(terminal, head + runs + plain_style(), leave);
    after_both(terminal, head + runs + plain_style() + leave, after.cursor);
    after_both(terminal, head + runs + plain_style() + leave + after.cursor, shown);
    assert(frame =~= head + runs + plain_style() + leave + after.cursor + shown);
    let end = terminal.after(frame);
    assert(end.cells == written.cells);
    assert forall|row: int, col: int| inside(after, row, col) implies #[trigger] end.cells[row][col]
        == cell(after, row - after.y, col - after.x) by {
        assert(inside(last.pane, row, col));
        assert(written.cells[row][col] == cell(last.pane, row - after.y, col - after.x));
    }
    assert forall|row: int, col: int|
        0 <= row < terminal.height && 0 <= col < terminal.width && !inside(
            after,
            row,
            col,
        ) implies #[trigger] end.cells[row][col] == terminal.cells[row][col] by {
        assert(!inside(last.pane, row, col));
        assert(written.cells[row][col] == started.cells[row][col]);
    }
}

/// Plain bytes written to the terminal itself are shown as the pane's lines have them.
#[verifier::rlimit(40)]
proof fn bytes_are_shown(terminal: Terminal, writing: Writing, bytes: Seq<u8>)
    requires
        terminal.ready(),
        lies_on(writing.pane, terminal),
        textual(writing.pane),
        writing.pane.lines.len() == writing.pane.rows,
        shows(terminal, writing.pane),
        writing.pane.full_width(),
        writing.row < writing.pane.rows,
        writing.col <= writing.pane.cols,
        terminal.row == writing.pane.y + writing.row,
        terminal.col == writing.col,
        ({
            let scrolls = scrolls_from(
                writing.row as int,
                writing.col as int,
                writing.pane.rows as int,
                writing.pane.cols as int,
                bytes,
            );
            scrolls is Some && (scrolls->0 ==> full_height(writing.pane))
        }),
    ensures
        ({
            let (last, complete) = bytes_written(writing, bytes);
            let end = terminal.after(bytes);
            &&& complete
            &&& end.ready()
            &&& same_size(terminal, end)
            &&& shows(end, last.pane)
            &&& others_untouched(terminal, end, writing.pane)
            &&& end.row == last.pane.y + last.row
            &&& end.col == last.col
            &&& end.visible == terminal.visible
            &&& last.pane == (Snapshot {
                lines: last.pane.lines,
                line_revisions: last.pane.line_revisions,
                ..writing.pane
            })
            &&& last.row < last.pane.rows
            &&& last.col <= last.pane.cols
        }),
    decreases bytes.len(),
{
    let pane = writing.pane;
    if bytes.len() == 0 {
        after_nothing(terminal);
    } else {
        let byte = bytes[0];
        let rest = bytes.skip(1);
        let after = byte_written(writing, byte)->0;
        let step = terminal.fed(byte);
        assert(bytes =~= seq![byte] + rest);
        after_both(terminal, seq![byte], rest);
        after_nothing(terminal);
        after_push(terminal, Seq::empty(), byte);
        assert(seq![byte] =~= Seq::empty().push(byte));
        if byte == '\r' as u8 {
            assert(shows(step, after.pane));
        } else if byte == '\n' as u8 {
            if writing.row + 1 >= pane.rows {
                assert(step == terminal.scrolled(1));
                assert forall|r: int, c: int| inside(after.pane, r, c) implies #[trigger] step.cells[
                r][c] == cell(after.pane, r - pane.y, c - pane.x) by {
                    if r + 1 < terminal.height {
                        assert(inside(pane, r + 1, c));
                        assert(terminal.cells[r + 1][c] == cell(pane, r + 1 - pane.y, c - pane.x));
                    }
                }
                assert forall|r: int| 0 <= r < after.pane.lines.len() implies fits_in(
                    #[trigger] after.pane.lines[r],
                    pane.cols as int,
                ) by {
                    if r + 1 < pane.lines.len() {
                        assert(after.pane.lines[r] == pane.lines[r + 1]);
                    }
                }
                assert forall|r: int| 0 <= r < step.height implies (#[trigger] step.cells[r]).len()
                    == step.width by {
                    if r + 1 < terminal.height {
                        assert(terminal.cells[r + 1].len() == terminal.width);
                    }
                }
            } else {
                assert(shows(step, after.pane));
            }
        } else {
            run_is_shown(
                terminal,
                pane,
                after.pane,
                writing.row as int,
                writing.col as int,
                seq![byte],
            );
        }
        assert(step.ready());
        bytes_are_shown(step, after, rest);
        let end = terminal.after(bytes);
        assert forall|r: int, c: int|
            0 <= r < terminal.height && 0 <= c < terminal.width && !inside(
                pane,
                r,
                c,
            ) implies #[trigger] end.cells[r][c] == terminal.cells[r][c] by {
            assert(!inside(after.pane, r, c));
            assert(end.cells[r][c] == step.cells[r][c]);
        }
    }
}

/// Output that is forwarded to the terminal as it is makes the terminal show the pane with
/// that output applied, the cursor where the pane has it, and leaves every cell outside
/// the pane alone.
pub proof fn forwarded_output_is_shown(terminal: Terminal, snapshot: Snapshot, bytes: Seq<u8>)
    requires
        terminal.ready(),
        lies_on(snapshot, terminal),
        textual(snapshot),
        snapshot.lines.len() == snapshot.rows,
        snapshot.y <= snapshot.cursor_row,
        shows(terminal, snapshot),
        shows_cursor(terminal, snapshot),
        forwardable(snapshot, bytes),
    ensures
        ({
            let (after, complete) = applied(snapshot, bytes);
            let end = terminal.after(bytes);
            &&& complete
            &&& end.ready()
            &&& shows(end, after)
            &&& shows_cursor(end, after)
            &&& others_untouched(terminal, end, snapshot)
        }),
{
    bytes_are_shown(terminal, writing_to(snapshot), bytes);
    let (last, _) = bytes_written(writing_to(snapshot), bytes);
    let (after, _) = applied(snapshot, bytes);
    let end = terminal.after(bytes);
    assert forall|row: int, col: int| inside(after, row, col) implies #[trigger] end.cells[row][col]
        == cell(after, row - after.y, col - after.x) by {
        assert(inside(last.pane, row, col));
        assert(end.cells[row][col] == cell(last.pane, row - after.y, col - after.x));
    }
}

/// Echoed text stands in the cells from the cursor on, with the cursor behind it, or in the
/// last column where that is behind it. Nothing else changes.
pub proof fn echoed_text_is_shown(terminal: Terminal, snapshot: Snapshot, bytes: Seq<u8>)
    requires
        terminal.ready(),
        lies_on(snapshot, terminal),
        echoed(snapshot, bytes) is Some,
    ensures
        ({
            let end = terminal.after(echoed(snapshot, bytes)->0);
            &&& end.ready()
            &&& forall|row: int, col: int|
                0 <= row < terminal.height && 0 <= col < terminal.width
                    ==> #[trigger] end.cells[row][col] == (if row == snapshot.cursor_row
                    && snapshot.cursor_col <= col < snapshot.cursor_col + bytes.len() {
                    bytes[col - snapshot.cursor_col]
                } else {
                    terminal.cells[row][col]
                })
            &&& end.row == snapshot.cursor_row
            &&& end.col == (if snapshot.cursor_col + bytes.len() < terminal.width {
                snapshot.cursor_col + bytes.len()
            } else {
                terminal.width - 1
            })
            &&& end.visible == terminal.visible
            &&& inside(snapshot, snapshot.cursor_row as int, snapshot.cursor_col as int)
            &&& inside(
                snapshot,
                snapshot.cursor_row as int,
                snapshot.cursor_col + bytes.len() - 1,
            )
        }),
{
    let place = position(snapshot.cursor_row, snapshot.cursor_col);
    let leave = position(snapshot.cursor_row, (snapshot.cursor_col + bytes.len()) as u16);
    position_moves(terminal, snapshot.cursor_row, snapshot.cursor_col);
    let start = terminal.after(place);
    assert forall|i: int| 0 <= i < bytes.len() implies 0x20 <= #[trigger] bytes[i] <= 0x7e by {
        assert(printable(bytes[i]));
    }
    text_is_written(start, bytes);
    let written = start.after(bytes);
    assert(terminal.cells[terminal.row].len() == terminal.width);
    position_is_held(
        written,
        snapshot.cursor_row,
        (snapshot.cursor_col + bytes.len()) as u16,
    );
    after_both(terminal, place, bytes);
    after_both(terminal, place + bytes, leave);
}

} // verus!
