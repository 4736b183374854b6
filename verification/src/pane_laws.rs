//! What holds of pane snapshots and their deltas as a whole.
use crate::cursor::{capped_sum, position};
use crate::line_delta::{
    compacted, fresh_revision_is_fresh, larger, largest_id, line_or, plain_line, printable,
    visible_len, visible_part, LINE_REVISION_GENERATION_MASK, LINE_REVISION_ID_MASK,
};
use crate::pane_delta::{
    appended, blank, changed_style, clear_rest, cursor_row_in_pane, drawn_rows, filled_rows,
    first_shift, full, restore, revisions_known, row_by_row, row_start, row_update, row_updates,
    save_and_hide, scroll_sequence, scrolled, scrolled_rows, shifted_up, update, written_line,
};
use crate::pane_plain_output::{
    applied, byte_written, bytes_written, forwardable, next_generation, overwritten, padded,
    positioned, run_end, run_end_advances, run_written, runs_written, scrolled_up, scrolls_from,
    would_scroll, writing_to, Writing,
};
use crate::pane_snapshot::{snapshot_of, PaneGeometry, ScreenState, Snapshot, StatusGeometry};
use vstd::prelude::*;

verus! {

/// The frame ends in `tail`.
pub open spec fn ends_in(frame: Seq<u8>, tail: Seq<u8>) -> bool {
    frame.len() >= tail.len() && frame.skip(frame.len() - tail.len()) == tail
}

/// What is appended last is what the frame ends in.
proof fn appending_ends(start: Seq<u8>, tail: Seq<u8>)
    ensures
        ends_in(start + tail, tail),
{
    assert((start + tail).skip(start.len() as int) =~= tail);
}

/// A frame that rewrites rows or the scrollbar puts the cursor in its place and
/// shows or hides it after the cursor was put back, so that what the terminal had
/// saved never decides.
pub proof fn row_frames_reassert_the_cursor(previous: Snapshot, next: Snapshot)
    requires
        row_updates(previous, next, larger(previous.lines.len(), next.lines.len())).len() > 0
            || previous.scrollbar != next.scrollbar,
    ensures
        ends_in(row_by_row(previous, next), restore() + next.final_cursor_state()),
{
    let updates = row_updates(previous, next, larger(previous.lines.len(), next.lines.len()));
    let scrollbar = if previous.scrollbar != next.scrollbar && next.scrollbar is Some {
        next.scrollbar->0
    } else {
        Seq::empty()
    };
    let start = save_and_hide() + updates + scrollbar;
    assert(row_by_row(previous, next) =~= start + (restore() + next.final_cursor_state()));
    appending_ends(start, restore() + next.final_cursor_state());
}

/// A frame that scrolls the pane puts the cursor in its place and shows or hides it
/// last.
pub proof fn scroll_frames_reassert_the_cursor(previous: Snapshot, next: Snapshot)
    requires
        scrolled(previous, next) is Some,
    ensures
        ends_in(scrolled(previous, next)->0, restore() + next.final_cursor_state()),
{
    let frame = scrolled(previous, next)->0;
    let tail = restore() + next.final_cursor_state();
    let shift = first_shift(previous, next, 1)->0;
    let rows = scrolled_rows(next);
    let start = save_and_hide() + scroll_sequence(next, shift) + filled_rows(
        next,
        rows - shift,
        rows,
    );
    assert(frame =~= start + tail);
    appending_ends(start, tail);
}

/// A frame that draws the pane anew puts the cursor in its place and shows or hides
/// it last.
pub proof fn full_frames_reassert_the_cursor(snapshot: Snapshot)
    ensures
        ends_in(full(snapshot), restore() + snapshot.final_cursor_state()),
{
    let tail = restore() + snapshot.final_cursor_state();
    let frame = full(snapshot);
    assert(frame.skip(frame.len() - tail.len()) =~= tail);
}

/// A frame of positioned output puts the cursor in its new place and shows or hides
/// it last.
pub proof fn positioned_frames_reassert_the_cursor(snapshot: Snapshot, bytes: Seq<u8>)
    requires
        positioned(snapshot, bytes) is Some,
    ensures
        ({
            let (after, frame) = positioned(snapshot, bytes)->0;
            ends_in(frame, restore() + after.final_cursor_state())
        }),
{
    let (after, frame) = positioned(snapshot, bytes)->0;
    let tail = restore() + after.final_cursor_state();
    assert(frame.skip(frame.len() - tail.len()) =~= tail);
}

/// Rows that are equal need no update.
proof fn equal_rows_need_no_update(previous: Snapshot, next: Snapshot, count: nat)
    requires
        previous.lines == next.lines,
    ensures
        row_updates(previous, next, count).len() == 0,
    decreases count,
{
    if count > 0 {
        equal_rows_need_no_update(previous, next, (count - 1) as nat);
    }
}

/// A pane that shows what it showed before, and whose rows do not pass for a scroll
/// of themselves, has nothing written.
pub proof fn unchanged_pane_writes_nothing(snapshot: Snapshot)
    requires
        scrolled(snapshot, snapshot) is None,
    ensures
        update(snapshot, snapshot) == (Seq::<u8>::empty(), None::<u32>),
{
    equal_rows_need_no_update(
        snapshot,
        snapshot,
        larger(snapshot.lines.len(), snapshot.lines.len()),
    );
}

/// Rows whose revisions tell them apart never pass for a scroll of themselves.
pub proof fn distinct_rows_do_not_scroll(snapshot: Snapshot)
    requires
        scrolled_rows(snapshot) <= snapshot.line_revisions.len(),
        forall|row: int|
            0 < row < scrolled_rows(snapshot) ==> snapshot.line_revisions[0]
                != #[trigger] snapshot.line_revisions[row],
    ensures
        scrolled(snapshot, snapshot) is None,
{
    no_shift_from(snapshot, 1);
}

/// With revisions that differ from the first, no shift is found.
proof fn no_shift_from(snapshot: Snapshot, from: int)
    requires
        1 <= from,
        scrolled_rows(snapshot) <= snapshot.line_revisions.len(),
        forall|row: int|
            0 < row < scrolled_rows(snapshot) ==> snapshot.line_revisions[0]
                != #[trigger] snapshot.line_revisions[row],
    ensures
        first_shift(snapshot, snapshot, from) is None,
    decreases scrolled_rows(snapshot) - from,
{
    let rows = scrolled_rows(snapshot);
    if from < rows {
        let moved = snapshot.line_revisions.subrange(from, rows);
        let stayed = snapshot.line_revisions.subrange(0, rows - from);
        assert(moved[0] == snapshot.line_revisions[from]);
        assert(stayed[0] == snapshot.line_revisions[0]);
        no_shift_from(snapshot, from + 1);
    }
}

/// A snapshot under another title and path.
pub open spec fn retitled(snapshot: Snapshot, title: Seq<char>, path: Seq<char>) -> Snapshot {
    Snapshot { title, path, ..snapshot }
}

/// Titles and paths are not drawn: a delta is the same whatever they are.
pub proof fn titles_do_not_matter(
    previous: Snapshot,
    next: Snapshot,
    old_title: Seq<char>,
    old_path: Seq<char>,
    title: Seq<char>,
    path: Seq<char>,
)
    ensures
        update(retitled(previous, old_title, old_path), retitled(next, title, path)) == update(
            previous,
            next,
        ),
        full(retitled(next, title, path)) == full(next),
{
    let before = retitled(previous, old_title, old_path);
    let after = retitled(next, title, path);
    rows_ignore_titles(
        previous,
        next,
        before,
        after,
        larger(previous.lines.len(), next.lines.len()),
    );
    shifts_ignore_titles(previous, next, before, after, 1);
    drawn_rows_ignore_titles(next, after, scrolled_rows(next) as nat);
    if first_shift(previous, next, 1) is Some {
        let shift = first_shift(previous, next, 1)->0;
        filled_rows_ignore_titles(
            next,
            after,
            scrolled_rows(next) - shift,
            scrolled_rows(next),
        );
    }
}

/// Row updates do not depend on titles and paths.
proof fn rows_ignore_titles(
    previous: Snapshot,
    next: Snapshot,
    before: Snapshot,
    after: Snapshot,
    count: nat,
)
    requires
        before == retitled(previous, before.title, before.path),
        after == retitled(next, after.title, after.path),
    ensures
        row_updates(before, after, count) == row_updates(previous, next, count),
    decreases count,
{
    if count > 0 {
        rows_ignore_titles(previous, next, before, after, (count - 1) as nat);
    }
}

/// Shifts do not depend on titles and paths.
proof fn shifts_ignore_titles(
    previous: Snapshot,
    next: Snapshot,
    before: Snapshot,
    after: Snapshot,
    from: int,
)
    requires
        before == retitled(previous, before.title, before.path),
        after == retitled(next, after.title, after.path),
    ensures
        first_shift(before, after, from) == first_shift(previous, next, from),
    decreases scrolled_rows(next) - from,
{
    if from < scrolled_rows(next) {
        assert(before.lines == previous.lines && after.lines == next.lines);
        assert(shifted_up(before, after, from) == shifted_up(previous, next, from));
        shifts_ignore_titles(previous, next, before, after, from + 1);
    }
}

/// The rows filled after a scroll do not depend on titles and paths.
proof fn filled_rows_ignore_titles(next: Snapshot, after: Snapshot, from: int, upto: int)
    requires
        after == retitled(next, after.title, after.path),
    ensures
        filled_rows(after, from, upto) == filled_rows(next, from, upto),
    decreases upto - from,
{
    if from < upto {
        filled_rows_ignore_titles(next, after, from, upto - 1);
    }
}

/// The rows drawn do not depend on titles and paths.
proof fn drawn_rows_ignore_titles(next: Snapshot, after: Snapshot, count: nat)
    requires
        after == retitled(next, after.title, after.path),
    ensures
        drawn_rows(after, count) == drawn_rows(next, count),
    decreases count,
{
    if count > 0 {
        drawn_rows_ignore_titles(next, after, (count - 1) as nat);
    }
}

/// A delta names a cursor shape exactly when it changes, and then the new one.
pub proof fn cursor_shape_is_set_when_it_changes(previous: Snapshot, next: Snapshot)
    ensures
        ({
            let (_, style) = update(previous, next);
            style == changed_style(previous, next)
        }),
{
}

/// The line is printable text, as wide as the pane at most.
pub open spec fn text_line(line: Seq<u8>, cols: int) -> bool {
    line.len() <= cols && forall|i: int| 0 <= i < line.len() ==> printable(#[trigger] line[i])
}

/// A row of the terminal after `text` is written at a column and the rest is cleared
/// where `clear` says so.
pub open spec fn row_after(row: Seq<u8>, col: int, text: Seq<u8>, clear: bool, cols: int) -> Seq<
    u8,
> {
    let over = overwritten(row, col, text, cols);
    if clear {
        padded(over.take(col + text.len()), cols)
    } else {
        over
    }
}

/// What is written in place of a line of text makes the row show the new line; the
/// rest of the row is cleared only in a pane as wide as the terminal.
pub proof fn compacted_line_shows_the_new_line(
    previous: Seq<u8>,
    next: Seq<u8>,
    full_width: bool,
    cols: int,
)
    requires
        text_line(previous, cols),
        text_line(next, cols),
        compacted(previous, next, full_width) is Some,
    ensures
        ({
            let (text, clear) = compacted(previous, next, full_width)->0;
            &&& row_after(previous, 0, text, clear, cols) == padded(next, cols)
            &&& clear ==> full_width
        }),
{
    let (text, clear) = compacted(previous, next, full_width)->0;
    visible_part(previous);
    visible_part(next);
    assert(row_after(previous, 0, text, clear, cols) =~= padded(next, cols));
}

/// A line as wide as the pane makes the row show it when it is written whole.
pub proof fn whole_line_shows_the_new_line(previous: Seq<u8>, next: Seq<u8>, cols: int)
    requires
        previous.len() <= cols,
        next.len() == cols,
    ensures
        row_after(previous, 0, next, false, cols) == padded(next, cols),
{
    assert(row_after(previous, 0, next, false, cols) =~= padded(next, cols));
}

/// What is written from the start of a row makes it show another line.
pub open spec fn makes_row_show(
    written: Seq<u8>,
    before: Seq<u8>,
    after: Seq<u8>,
    cols: int,
) -> bool {
    exists|text: Seq<u8>, clear: bool|
        #![trigger row_after(before, 0, text, clear, cols)]
        {
            &&& written == text + if clear {
                clear_rest()
            } else {
                Seq::empty()
            }
            &&& row_after(before, 0, text, clear, cols) == padded(after, cols)
        }
}

/// The bytes that put a line of text in place of another make the row show it. In a
/// pane beside others the new line has to be as wide as the pane, as captured lines
/// are.
proof fn written_line_shows_the_new_line(
    before: Seq<u8>,
    after: Seq<u8>,
    full_width: bool,
    cols: int,
)
    requires
        text_line(before, cols),
        text_line(after, cols),
        full_width || after.len() == cols,
    ensures
        makes_row_show(written_line(before, after, full_width), before, after, cols),
{
    if full_width {
        text_lines_compact_at_full_width(before, after, cols);
    }
    if compacted(before, after, full_width) is Some {
        let (text, clear) = compacted(before, after, full_width)->0;
        compacted_line_shows_the_new_line(before, after, full_width, cols);
        assert(row_after(before, 0, text, clear, cols) == padded(after, cols));
    } else {
        whole_line_shows_the_new_line(before, after, cols);
        assert(written_line(before, after, full_width) =~= after + Seq::<u8>::empty());
        assert(row_after(before, 0, after, false, cols) == padded(after, cols));
    }
}

/// Updating the rows one by one makes every row of text show its new line, an absent
/// line showing as blank: a row that is equal in both is left alone, and any other is
/// written from its start.
pub proof fn updated_row_shows_the_new_line(previous: Snapshot, next: Snapshot, row: int)
    requires
        text_line(line_or(previous.lines, row, blank(next.cols)), next.cols as int),
        text_line(line_or(next.lines, row, blank(next.cols)), next.cols as int),
        next.full_width() || line_or(next.lines, row, blank(next.cols)).len() == next.cols,
    ensures
        ({
            let before = line_or(previous.lines, row, blank(next.cols));
            let after = line_or(next.lines, row, blank(next.cols));
            let written = written_line(before, after, next.full_width());
            &&& before == after ==> row_update(previous, next, row).len() == 0
            &&& before != after ==> row_update(previous, next, row) == row_start(next, row) + written
                && makes_row_show(written, before, after, next.cols as int)
        }),
{
    written_line_shows_the_new_line(
        line_or(previous.lines, row, blank(next.cols)),
        line_or(next.lines, row, blank(next.cols)),
        next.full_width(),
        next.cols as int,
    );
}

/// After a scroll, every row of text that came in shows its new line.
pub proof fn filled_row_shows_the_new_line(next: Snapshot, from: int, row: int)
    requires
        0 <= from <= row < next.lines.len(),
        text_line(next.lines[row], next.cols as int),
    ensures
        ({
            let written = written_line(blank(next.cols), next.lines[row], true);
            &&& filled_rows(next, from, row + 1) == filled_rows(next, from, row) + row_start(
                next,
                row,
            ) + written
            &&& makes_row_show(written, blank(next.cols), next.lines[row], next.cols as int)
        }),
{
    written_line_shows_the_new_line(blank(next.cols), next.lines[row], true, next.cols as int);
}

/// Text lines always compact in a pane as wide as the terminal.
pub proof fn text_lines_compact_at_full_width(previous: Seq<u8>, next: Seq<u8>, cols: int)
    requires
        text_line(previous, cols),
        text_line(next, cols),
    ensures
        compacted(previous, next, true) is Some,
{
    assert(plain_line(previous));
    assert(plain_line(next));
}

/// Appended text makes the row of the cursor show the new line.
pub proof fn appended_text_shows_the_new_line(previous: Snapshot, next: Snapshot)
    requires
        appended(previous, next) is Some,
        text_line(previous.lines[cursor_row_in_pane(previous)], next.cols as int),
        text_line(next.lines[cursor_row_in_pane(previous)], next.cols as int),
    ensures
        ({
            let row = cursor_row_in_pane(previous);
            let col = visible_len(previous.lines[row]) as int;
            let text = next.lines[row].subrange(col, visible_len(next.lines[row]) as int);
            &&& previous.cursor_col == col
            &&& appended(previous, next)->0.take(text.len() as int) == text
            &&& overwritten(previous.lines[row], col, text, next.cols as int) == padded(
                next.lines[row],
                next.cols as int,
            )
        }),
{
    let row = cursor_row_in_pane(previous);
    let before = previous.lines[row];
    let after = next.lines[row];
    let cols = next.cols as int;
    let col = visible_len(before) as int;
    let text = after.subrange(col, visible_len(after) as int);
    visible_part(before);
    visible_part(after);
    assert(appended(previous, next)->0.take(text.len() as int) =~= text);
    assert forall|i: int| 0 <= i < col implies before[i] == after[i] by {
        assert(before.take(col)[i] == after.take(col)[i]);
    }
    assert(overwritten(before, col, text, cols) =~= padded(after, cols));
}

/// A pane beside others is neither scrolled, as that would move the other panes too,
/// nor cleared past its edge: the rows that changed are written in place.
pub proof fn narrow_panes_are_written_in_place(previous: Snapshot, next: Snapshot)
    requires
        !next.full_width(),
    ensures
        update(previous, next) == (row_by_row(previous, next), changed_style(previous, next)),
        forall|before: Seq<u8>, after: Seq<u8>|
            #![trigger compacted(before, after, next.full_width())]
            compacted(before, after, next.full_width()) is Some ==> compacted(
                before,
                after,
                next.full_width(),
            ) == Some((after.take(visible_len(after) as int), false)),
{
}

/// A scroll is by at least one row and less than all, and every row above those that
/// came in is the row that was that far below it.
pub proof fn scrolled_rows_moved_up(previous: Snapshot, next: Snapshot, row: int)
    requires
        scrolled(previous, next) is Some,
        revisions_known(previous, next),
        0 <= row < scrolled_rows(next) - first_shift(previous, next, 1)->0,
    ensures
        1 <= first_shift(previous, next, 1)->0 < scrolled_rows(next),
        next.lines[row] == previous.lines[row + first_shift(previous, next, 1)->0],
        next.line_revisions[row] == previous.line_revisions[row + first_shift(
            previous,
            next,
            1,
        )->0],
{
    found_shift(previous, next, 1);
    let shift = first_shift(previous, next, 1)->0;
    let rows = scrolled_rows(next);
    assert(previous.lines.subrange(shift, rows)[row] == next.lines.subrange(0, rows - shift)[row]);
    assert(previous.line_revisions.subrange(shift, rows)[row] == next.line_revisions.subrange(
        0,
        rows - shift,
    )[row]);
}

/// A shift that was found is one.
pub proof fn found_shift(previous: Snapshot, next: Snapshot, from: int)
    requires
        first_shift(previous, next, from) is Some,
    ensures
        from <= first_shift(previous, next, from)->0 < scrolled_rows(next),
        shifted_up(previous, next, first_shift(previous, next, from)->0),
    decreases scrolled_rows(next) - from,
{
    if from < scrolled_rows(next) && !shifted_up(previous, next, from) {
        found_shift(previous, next, from + 1);
    }
}

/// Every row that a scroll is looked for in has a revision.
pub open spec fn revisions_cover(snapshot: Snapshot) -> bool {
    scrolled_rows(snapshot) <= snapshot.line_revisions.len()
}

/// A snapshot whose revisions cover its rows can be compared with any other.
pub proof fn covered_snapshots_compare(previous: Snapshot, next: Snapshot)
    requires
        revisions_cover(next),
    ensures
        revisions_known(previous, next),
{
}

/// Captured snapshots have their rows covered: from a screen with a revision for
/// each row of the pane, from a transcript with one for each line.
pub proof fn captured_snapshots_are_covered(
    pane: PaneGeometry,
    terminal: StatusGeometry,
    lines: Seq<Seq<u8>>,
    revisions: Seq<u64>,
    screen: ScreenState,
    scrollbar: Option<Seq<u8>>,
)
    requires
        revisions.len() == pane.rows || revisions.len() == lines.len(),
    ensures
        revisions_cover(snapshot_of(pane, terminal, lines, revisions, screen, scrollbar)),
{
}

/// The captured cursor lies in the pane, as far as the terminal can count.
pub proof fn captured_cursor_is_in_the_pane(
    pane: PaneGeometry,
    terminal: StatusGeometry,
    lines: Seq<Seq<u8>>,
    revisions: Seq<u64>,
    screen: ScreenState,
    scrollbar: Option<Seq<u8>>,
)
    requires
        pane.rows > 0,
        pane.cols > 0,
    ensures
        ({
            let snapshot = snapshot_of(pane, terminal, lines, revisions, screen, scrollbar);
            &&& snapshot.y <= snapshot.cursor_row < snapshot.y + snapshot.rows
            &&& snapshot.x <= snapshot.cursor_col < snapshot.x + snapshot.cols
            &&& snapshot.cursor == position(snapshot.cursor_row, snapshot.cursor_col)
        }),
{
}

/// What plain output leaves alone: the place of the pane, its modes and names, and
/// how many lines and revisions there are.
pub open spec fn same_frame(before: Snapshot, after: Snapshot) -> bool {
    &&& !before.placed_unlike(after)
    &&& before.terminal_cols == after.terminal_cols
    &&& before.terminal_rows == after.terminal_rows
    &&& before.cursor_style == after.cursor_style
    &&& before.title == after.title
    &&& before.path == after.path
    &&& before.mode == after.mode
    &&& before.scrollbar == after.scrollbar
    &&& before.lines.len() == after.lines.len()
    &&& before.line_revisions.len() == after.line_revisions.len()
}

/// Writing bytes keeps the frame of the pane, and the cursor stays in its rows.
proof fn writing_keeps_the_frame(writing: Writing, bytes: Seq<u8>)
    requires
        writing.row < writing.pane.rows,
    ensures
        ({
            let (after, _) = bytes_written(writing, bytes);
            &&& same_frame(writing.pane, after.pane)
            &&& after.row < after.pane.rows
        }),
    decreases bytes.len(),
{
    if bytes.len() > 0 && byte_written(writing, bytes[0]) is Some {
        writing_keeps_the_frame(byte_written(writing, bytes[0])->0, bytes.skip(1));
    }
}

/// Applying plain output keeps the place of the pane, its modes and names, and the
/// number of its lines and revisions.
pub proof fn applied_output_keeps_the_frame(snapshot: Snapshot, bytes: Seq<u8>)
    ensures
        ({
            let (after, _) = applied(snapshot, bytes);
            &&& same_frame(snapshot, after)
            &&& revisions_cover(snapshot) ==> revisions_cover(after)
        }),
{
    if would_scroll(snapshot, bytes) is Some {
        writing_keeps_the_frame(writing_to(snapshot), bytes);
    }
}

/// Positioned output keeps the place of the pane, its modes and names, and the
/// number of its lines and revisions.
pub proof fn positioned_output_keeps_the_frame(snapshot: Snapshot, bytes: Seq<u8>)
    requires
        positioned(snapshot, bytes) is Some,
    ensures
        ({
            let (after, _) = positioned(snapshot, bytes)->0;
            &&& same_frame(snapshot, after)
            &&& revisions_cover(snapshot) ==> revisions_cover(after)
        }),
{
    positioned_output_applies_the_bytes(snapshot, bytes);
    applied_output_keeps_the_frame(snapshot, bytes);
}

/// Plain bytes can all be written where every row has a line.
proof fn plain_bytes_can_be_written(writing: Writing, bytes: Seq<u8>)
    requires
        writing.row < writing.pane.rows <= writing.pane.lines.len(),
        writing.col <= writing.pane.cols,
        scrolls_from(
            writing.row as int,
            writing.col as int,
            writing.pane.rows as int,
            writing.pane.cols as int,
            bytes,
        ) is Some,
    ensures
        ({
            let (after, complete) = bytes_written(writing, bytes);
            &&& complete
            &&& after.col <= after.pane.cols
        }),
    decreases bytes.len(),
{
    if bytes.len() > 0 {
        let after = byte_written(writing, bytes[0])->0;
        assert(byte_written(writing, bytes[0]) is Some);
        plain_bytes_can_be_written(after, bytes.skip(1));
    }
}

/// Plain output is applied as a whole to a snapshot that has a line for every row,
/// and the cursor stays in the pane or right behind it.
pub proof fn plain_output_is_applied(snapshot: Snapshot, bytes: Seq<u8>)
    requires
        would_scroll(snapshot, bytes) is Some,
        snapshot.rows <= snapshot.lines.len(),
    ensures
        ({
            let (after, complete) = applied(snapshot, bytes);
            &&& complete
            &&& snapshot.y <= after.cursor_row
            &&& after.cursor_row <= capped_sum(snapshot.y, (snapshot.rows - 1) as u16)
            &&& snapshot.x <= after.cursor_col
            &&& after.cursor_col <= capped_sum(snapshot.x, snapshot.cols)
            &&& after.cursor == position(after.cursor_row, after.cursor_col)
        }),
{
    plain_bytes_can_be_written(writing_to(snapshot), bytes);
    writing_keeps_the_frame(writing_to(snapshot), bytes);
}

/// Forwarded output is applied as a whole to a snapshot that has a line for every row.
pub proof fn forwarded_output_is_applied(snapshot: Snapshot, bytes: Seq<u8>)
    requires
        forwardable(snapshot, bytes),
        snapshot.rows <= snapshot.lines.len(),
    ensures
        ({
            let (_, complete) = applied(snapshot, bytes);
            complete
        }),
{
    plain_output_is_applied(snapshot, bytes);
}

/// Without a scroll, every line that differs from what it was is among the rows
/// written to.
proof fn changed_lines_are_touched(
    start: Snapshot,
    writing: Writing,
    bytes: Seq<u8>,
    row: int,
)
    requires
        scrolls_from(
            writing.row as int,
            writing.col as int,
            writing.pane.rows as int,
            writing.pane.cols as int,
            bytes,
        ) == Some(false),
        start.lines.len() == writing.pane.lines.len(),
        0 <= row < start.lines.len(),
        start.lines[row] != writing.pane.lines[row] ==> writing.touched.contains(row),
        start.line_revisions == writing.pane.line_revisions,
    ensures
        ({
            let (after, _) = bytes_written(writing, bytes);
            &&& start.lines.len() == after.pane.lines.len()
            &&& start.lines[row] != after.pane.lines[row] ==> after.touched.contains(row)
            &&& start.line_revisions == after.pane.line_revisions
        }),
    decreases bytes.len(),
{
    if bytes.len() > 0 && byte_written(writing, bytes[0]) is Some {
        let after = byte_written(writing, bytes[0])->0;
        changed_lines_are_touched(start, after, bytes.skip(1), row);
    }
}

/// Output that does not scroll counts one change for every line that it changes, and
/// at most one for any line.
pub proof fn changed_lines_count_one_change(snapshot: Snapshot, bytes: Seq<u8>, row: int)
    requires
        would_scroll(snapshot, bytes) == Some(false),
        snapshot.rows <= snapshot.lines.len(),
        0 <= row < snapshot.lines.len(),
        row < snapshot.line_revisions.len(),
    ensures
        ({
            let (after, _) = applied(snapshot, bytes);
            let old_revision = snapshot.line_revisions[row];
            let revision = after.line_revisions[row];
            &&& revision == old_revision || revision == next_generation(old_revision)
            &&& after.lines[row] != snapshot.lines[row] ==> revision == next_generation(old_revision)
        }),
{
    plain_bytes_can_be_written(writing_to(snapshot), bytes);
    changed_lines_are_touched(snapshot, writing_to(snapshot), bytes, row);
}

/// A scroll by one keeps the other lines and their revisions, moved up by one, and
/// brings in an empty line whose revision identifies none of them, as long as the
/// identities are not used up.
pub proof fn scroll_brings_in_a_fresh_line(snapshot: Snapshot, row: int)
    requires
        snapshot.lines.len() == snapshot.line_revisions.len(),
        0 <= row < snapshot.lines.len() - 1,
        largest_id(snapshot.line_revisions.skip(1)) < LINE_REVISION_ID_MASK,
    ensures
        ({
            let after = scrolled_up(snapshot);
            let last = after.line_revisions.last();
            &&& after.lines.len() == snapshot.lines.len()
            &&& after.line_revisions.len() == snapshot.line_revisions.len()
            &&& after.lines[row] == snapshot.lines[row + 1]
            &&& after.line_revisions[row] == snapshot.line_revisions[row + 1]
            &&& after.lines.last().len() == 0
            &&& (last & LINE_REVISION_ID_MASK) != (after.line_revisions[row]
                & LINE_REVISION_ID_MASK)
            &&& (last & LINE_REVISION_GENERATION_MASK) == 0
        }),
{
    fresh_revision_is_fresh(snapshot.line_revisions.skip(1), row);
}

/// Writing a run of text in one go is writing its bytes one by one.
pub proof fn run_is_its_bytes(writing: Writing, bytes: Seq<u8>, from: int, end: int)
    requires
        0 <= from < end <= bytes.len(),
        forall|i: int| from <= i < end ==> printable(#[trigger] bytes[i]),
        run_written(
            writing.pane.lines,
            writing.row as int,
            writing.col as int,
            bytes.subrange(from, end),
            writing.pane.cols as int,
        ) is Some,
    ensures
        ({
            let lines = run_written(
                writing.pane.lines,
                writing.row as int,
                writing.col as int,
                bytes.subrange(from, end),
                writing.pane.cols as int,
            )->0;
            bytes_written(writing, bytes.skip(from)) == bytes_written(
                Writing {
                    pane: Snapshot { lines, ..writing.pane },
                    row: writing.row,
                    col: (writing.col + (end - from)) as u16,
                    touched: writing.touched.insert(writing.row as int),
                },
                bytes.skip(end),
            )
        }),
    decreases end - from,
{
    let cols = writing.pane.cols as int;
    let row = writing.row as int;
    let col = writing.col as int;
    let lines = writing.pane.lines;
    let rest = bytes.skip(from);
    assert(rest[0] == bytes[from]);
    assert(rest.skip(1) =~= bytes.skip(from + 1));
    let first = byte_written(writing, bytes[from])->0;
    let whole = run_written(lines, row, col, bytes.subrange(from, end), cols)->0;
    if end == from + 1 {
        assert(bytes.subrange(from, end) =~= seq![bytes[from]]);
    } else {
        let tail = bytes.subrange(from + 1, end);
        run_is_its_bytes(first, bytes, from + 1, end);
        let stepped = run_written(first.pane.lines, row, col + 1, tail, cols)->0;
        assert(overwritten(
            overwritten(lines[row], col, seq![bytes[from]], cols),
            col + 1,
            tail,
            cols,
        ) =~= overwritten(lines[row], col, bytes.subrange(from, end), cols));
        assert(stepped =~= whole);
        assert(first.touched.insert(row) =~= writing.touched.insert(row));
    }
}

/// A run of text that fits in its line does not scroll the pane.
proof fn runs_do_not_scroll(
    row: int,
    col: int,
    rows: int,
    cols: int,
    bytes: Seq<u8>,
    from: int,
    end: int,
)
    requires
        0 <= from <= end <= bytes.len(),
        forall|i: int| from <= i < end ==> printable(#[trigger] bytes[i]),
        col + (end - from) <= cols,
    ensures
        scrolls_from(row, col, rows, cols, bytes.skip(from)) == scrolls_from(
            row,
            col + (end - from),
            rows,
            cols,
            bytes.skip(end),
        ),
    decreases end - from,
{
    if from < end {
        assert(printable(bytes[from]));
        assert(bytes.skip(from)[0] == bytes[from]);
        assert(bytes.skip(from).skip(1) =~= bytes.skip(from + 1));
        runs_do_not_scroll(row, col + 1, rows, cols, bytes, from + 1, end);
    }
}

/// Output that is written in runs does not scroll the pane.
proof fn written_runs_do_not_scroll(writing: Writing, bytes: Seq<u8>, from: int)
    requires
        0 <= from <= bytes.len(),
        runs_written(writing, bytes, from) is Some,
    ensures
        scrolls_from(
            writing.row as int,
            writing.col as int,
            writing.pane.rows as int,
            writing.pane.cols as int,
            bytes.skip(from),
        ) == Some(false),
    decreases bytes.len() - from,
{
    let rest = bytes.skip(from);
    if from < bytes.len() {
        assert(rest[0] == bytes[from]);
        assert(rest.skip(1) =~= bytes.skip(from + 1));
        if bytes[from] == '\r' as u8 {
            written_runs_do_not_scroll(Writing { col: 0, ..writing }, bytes, from + 1);
        } else if bytes[from] == '\n' as u8 {
            written_runs_do_not_scroll(
                Writing { row: (writing.row + 1) as u16, ..writing },
                bytes,
                from + 1,
            );
        } else {
            let end = run_end(bytes, from);
            run_end_advances(bytes, from);
            let run = bytes.subrange(from, end);
            let lines = run_written(
                writing.pane.lines,
                writing.row as int,
                writing.col as int,
                run,
                writing.pane.cols as int,
            )->0;
            let after = Writing {
                pane: Snapshot { lines, ..writing.pane },
                row: writing.row,
                col: (writing.col + run.len()) as u16,
                touched: writing.touched.insert(writing.row as int),
            };
            runs_do_not_scroll(
                writing.row as int,
                writing.col as int,
                writing.pane.rows as int,
                writing.pane.cols as int,
                bytes,
                from,
                end,
            );
            written_runs_do_not_scroll(after, bytes, end);
        }
    }
}

/// Output that would scroll a pane beside others is never positioned.
pub proof fn positioned_output_never_scrolls(snapshot: Snapshot, bytes: Seq<u8>)
    requires
        positioned(snapshot, bytes) is Some,
    ensures
        would_scroll(snapshot, bytes) == Some(false),
        !snapshot.full_width(),
{
    assert(bytes.skip(0) =~= bytes);
    written_runs_do_not_scroll(writing_to(snapshot), bytes, 0);
}

/// Runs of text written each in one go leave the pane as the same bytes do one by one.
proof fn runs_are_their_bytes(writing: Writing, bytes: Seq<u8>, from: int)
    requires
        0 <= from <= bytes.len(),
        runs_written(writing, bytes, from) is Some,
    ensures
        ({
            let (after, _) = runs_written(writing, bytes, from)->0;
            bytes_written(writing, bytes.skip(from)) == (after, true)
        }),
    decreases bytes.len() - from,
{
    let rest = bytes.skip(from);
    if from < bytes.len() {
        assert(rest[0] == bytes[from]);
        assert(rest.skip(1) =~= bytes.skip(from + 1));
        if bytes[from] == '\r' as u8 {
            runs_are_their_bytes(Writing { col: 0, ..writing }, bytes, from + 1);
        } else if bytes[from] == '\n' as u8 {
            runs_are_their_bytes(
                Writing { row: (writing.row + 1) as u16, ..writing },
                bytes,
                from + 1,
            );
        } else {
            let end = run_end(bytes, from);
            run_end_advances(bytes, from);
            let run = bytes.subrange(from, end);
            let lines = run_written(
                writing.pane.lines,
                writing.row as int,
                writing.col as int,
                run,
                writing.pane.cols as int,
            )->0;
            let after = Writing {
                pane: Snapshot { lines, ..writing.pane },
                row: writing.row,
                col: (writing.col + run.len()) as u16,
                touched: writing.touched.insert(writing.row as int),
            };
            run_is_its_bytes(writing, bytes, from, end);
            runs_are_their_bytes(after, bytes, end);
        }
    }
}

/// Positioned output leaves the snapshot that forwarding the same bytes would.
pub proof fn positioned_output_applies_the_bytes(snapshot: Snapshot, bytes: Seq<u8>)
    requires
        positioned(snapshot, bytes) is Some,
    ensures
        ({
            let (after, _) = positioned(snapshot, bytes)->0;
            applied(snapshot, bytes) == (after, true)
        }),
{
    assert(bytes.skip(0) =~= bytes);
    runs_are_their_bytes(writing_to(snapshot), bytes, 0);
}

} // verus!
