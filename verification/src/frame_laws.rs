//! Which rows a frame writes, and where, whatever the lines hold.
use crate::bytes::decimal;
use crate::cursor::{capped_sum, position};
use crate::line_delta::{
    compacted, larger, line_or, plain_line, printable, visible_len, visible_part,
};
use crate::pane_delta::{
    appended, blank, drawn_rows, filled_rows, first_shift, full, plain_style, restore, row_by_row,
    row_start, row_update, row_updates, save_and_hide, scroll_sequence, scrolled, scrolled_rows,
    shifted_up, update, written_line,
};
use crate::pane_laws::found_shift;
use crate::pane_snapshot::Snapshot;
use vstd::prelude::*;

verus! {

/// The bytes that go to a cell, counted from zero, and turn every style off.
pub open spec fn go_to(row: int, col: int) -> Seq<u8> {
    seq![0x1bu8, 0x5b] + decimal((row + 1) as nat) + seq![0x3bu8] + decimal((col + 1) as nat)
        + seq![0x48u8, 0x1b, 0x5b, 0x30, 0x6d]
}

/// The bytes that scroll the rows from `top` up to `bottom`, and no others, up by `shift`.
pub open spec fn scroll_by(top: int, bottom: int, shift: int) -> Seq<u8> {
    seq![0x1bu8, 0x5b] + decimal((top + 1) as nat) + seq![0x3bu8] + decimal(bottom as nat) + seq![
        0x72u8,
        0x1b,
        0x5b,
    ] + decimal(shift as nat) + seq![0x53u8, 0x1b, 0x5b, 0x72]
}

/// The line of a row, or `absent` where there is none.
pub open spec fn line_at(snapshot: Snapshot, row: int, absent: Seq<u8>) -> Seq<u8> {
    if row < snapshot.lines.len() {
        snapshot.lines[row]
    } else {
        absent
    }
}

/// As many spaces as the pane has columns.
pub open spec fn spaces(snapshot: Snapshot) -> Seq<u8> {
    Seq::new(snapshot.cols as nat, |i: int| 0x20u8)
}

/// The bytes occur in the frame.
pub open spec fn occurs_in(bytes: Seq<u8>, frame: Seq<u8>) -> bool {
    exists|start: Seq<u8>, end: Seq<u8>| frame == #[trigger] (start + bytes + end)
}

/// A line that holds nothing but printable characters and tabs.
pub open spec fn unstyled(line: Seq<u8>) -> bool {
    forall|i: int|
        0 <= i < line.len() ==> 0x20 <= #[trigger] line[i] <= 0x7e || line[i] == 0x09
}

/// The bytes put one line in place of another: the whole new line, or for two lines without
/// styles the new line up to where both are blank, or up to where it is blank itself with
/// the rest of the row cleared in a pane that spans the terminal.
pub open spec fn replaces(
    bytes: Seq<u8>,
    before: Seq<u8>,
    after: Seq<u8>,
    full_width: bool,
) -> bool {
    ||| bytes == after
    ||| {
        &&& unstyled(before)
        &&& unstyled(after)
        &&& exists|kept: int|
            {
                &&& 0 <= kept <= after.len()
                &&& forall|i: int| kept <= i < after.len() ==> after[i] == 0x20
                &&& {
                    ||| bytes == #[trigger] after.take(kept) && forall|i: int|
                        kept <= i < before.len() ==> before[i] == 0x20
                    ||| full_width && bytes == after.take(kept) + seq![0x1bu8, 0x5b, 0x4b]
                }
            }
    }
}

/// The bytes before a row go to its first cell.
proof fn row_start_is_its_first_cell(snapshot: Snapshot, row: int)
    requires
        0 <= row,
        snapshot.y + row < u16::MAX,
        snapshot.x < u16::MAX,
    ensures
        row_start(snapshot, row) == go_to(snapshot.y + row, snapshot.x as int),
{
    assert(row_start(snapshot, row) =~= go_to(snapshot.y + row, snapshot.x as int));
}

/// What is written in place of a line replaces it.
proof fn written_line_replaces(before: Seq<u8>, after: Seq<u8>, full_width: bool)
    ensures
        replaces(written_line(before, after, full_width), before, after, full_width),
        !unstyled(before) || !unstyled(after) ==> written_line(before, after, full_width) == after,
{
    let kept = visible_len(after) as int;
    visible_part(before);
    visible_part(after);
    assert(unstyled(before) == plain_line(before)) by {
        assert(forall|i: int|
            0 <= i < before.len() ==> (printable(#[trigger] before[i]) <==> 0x20 <= before[i]
                <= 0x7e));
    }
    assert(unstyled(after) == plain_line(after)) by {
        assert(forall|i: int|
            0 <= i < after.len() ==> (printable(#[trigger] after[i]) <==> 0x20 <= after[i]
                <= 0x7e));
    }
    if compacted(before, after, full_width) is Some {
        let (_, clear) = compacted(before, after, full_width)->0;
        if clear {
            assert(written_line(before, after, full_width) =~= after.take(kept) + seq![
                0x1bu8,
                0x5b,
                0x4b,
            ]);
        } else {
            assert(written_line(before, after, full_width) =~= after.take(kept));
        }
        assert(after.take(kept) == after.take(kept));
    }
}

/// The rows updated later come behind those updated before.
proof fn updates_hold_each_row(previous: Snapshot, next: Snapshot, count: nat, row: int)
    requires
        0 <= row < count,
    ensures
        occurs_in(row_update(previous, next, row), row_updates(previous, next, count)),
    decreases count,
{
    let update = row_update(previous, next, row);
    if row == count - 1 {
        let start = row_updates(previous, next, (count - 1) as nat);
        assert(row_updates(previous, next, count) =~= start + update + Seq::<u8>::empty());
    } else {
        updates_hold_each_row(previous, next, (count - 1) as nat, row);
        let shorter = row_updates(previous, next, (count - 1) as nat);
        let (start, end) = choose|start: Seq<u8>, end: Seq<u8>|
            shorter == #[trigger] (start + update + end);
        let last = row_update(previous, next, (count - 1) as int);
        assert(row_updates(previous, next, count) =~= start + update + (end + last));
    }
}

/// The rows filled later come behind those filled before.
proof fn fills_hold_each_row(next: Snapshot, from: int, upto: int, row: int)
    requires
        from <= row < upto,
    ensures
        occurs_in(
            row_start(next, row) + written_line(blank(next.cols), next.lines[row], true),
            filled_rows(next, from, upto),
        ),
    decreases upto - from,
{
    let fill = row_start(next, row) + written_line(blank(next.cols), next.lines[row], true);
    if row == upto - 1 {
        let start = filled_rows(next, from, upto - 1);
        assert(filled_rows(next, from, upto) =~= start + fill + Seq::<u8>::empty());
    } else {
        fills_hold_each_row(next, from, upto - 1, row);
        let shorter = filled_rows(next, from, upto - 1);
        let (start, end) = choose|start: Seq<u8>, end: Seq<u8>|
            shorter == #[trigger] (start + fill + end);
        let last = row_start(next, upto - 1) + written_line(
            blank(next.cols),
            next.lines[upto - 1],
            true,
        );
        assert(filled_rows(next, from, upto) =~= start + fill + (end + last));
    }
}

/// What occurs in a part of a frame occurs in the frame.
proof fn parts_occur(bytes: Seq<u8>, start: Seq<u8>, part: Seq<u8>, end: Seq<u8>)
    requires
        occurs_in(bytes, part),
    ensures
        occurs_in(bytes, start + part + end),
{
    let (before, after) = choose|before: Seq<u8>, after: Seq<u8>|
        part == #[trigger] (before + bytes + after);
    assert(start + part + end =~= (start + before) + bytes + (after + end));
}

/// Rows updated one by one: a row whose lines differ is written, at its own place.
proof fn changed_row_is_updated(previous: Snapshot, next: Snapshot, row: int)
    requires
        0 <= row < larger(previous.lines.len(), next.lines.len()),
        next.y + row < u16::MAX,
        next.x < u16::MAX,
        line_or(previous.lines, row, blank(next.cols)) != line_or(
            next.lines,
            row,
            blank(next.cols),
        ),
    ensures
        exists|written: Seq<u8>|
            {
                &&& replaces(
                    written,
                    line_or(previous.lines, row, blank(next.cols)),
                    line_or(next.lines, row, blank(next.cols)),
                    next.full_width(),
                )
                &&& #[trigger] occurs_in(
                    go_to(next.y + row, next.x as int) + written,
                    row_by_row(previous, next),
                )
            },
{
    let count = larger(previous.lines.len(), next.lines.len());
    let before = line_or(previous.lines, row, blank(next.cols));
    let after = line_or(next.lines, row, blank(next.cols));
    let written = written_line(before, after, next.full_width());
    let updates = row_updates(previous, next, count);
    let scrollbar = if previous.scrollbar != next.scrollbar && next.scrollbar is Some {
        next.scrollbar->0
    } else {
        Seq::empty()
    };
    written_line_replaces(before, after, next.full_width());
    row_start_is_its_first_cell(next, row);
    updates_hold_each_row(previous, next, count, row);
    let update = row_update(previous, next, row);
    let (start, end) = choose|start: Seq<u8>, end: Seq<u8>|
        updates == #[trigger] (start + update + end);
    assert(update.len() > 0);
    assert(updates.len() > 0);
    let tail = scrollbar + restore() + next.final_cursor_state();
    parts_occur(update, save_and_hide(), updates, tail);
    assert(row_by_row(previous, next) =~= save_and_hide() + updates + tail);
}

/// Whatever way a delta takes, a row whose line changed is brought up to date, whether
/// an absent line counts as blank or as empty. Either the frame goes to the first cell of the row, at the
/// pane's own row and column on the terminal, and puts the new line in place of the old
/// one; or the frame scrolls the pane and the row is one that moved up; or the frame only
/// appends text at the cursor and the row is the cursor's.
#[verifier::rlimit(40)]
pub proof fn changed_rows_are_written(previous: Snapshot, next: Snapshot, row: int)
    requires
        0 <= row < next.lines.len() || 0 <= row < previous.lines.len(),
        next.y + row < u16::MAX,
        next.x < u16::MAX,
        next.y + next.rows <= u16::MAX,
        line_at(previous, row, spaces(next)) != line_at(next, row, spaces(next)),
        line_at(previous, row, Seq::empty()) != line_at(next, row, Seq::empty()),
        next.lines.len() <= next.rows,
    ensures
        ({
            let (frame, _) = update(previous, next);
            let before = line_at(previous, row, spaces(next));
            let after = line_at(next, row, spaces(next));
            let full_width = next.x == 0 && next.cols == next.terminal_cols;
            ||| appended(previous, next) == Some(frame) && row == previous.cursor_row - previous.y
            ||| exists|written: Seq<u8>|
                {
                    &&& replaces(written, before, after, full_width) || replaces(
                        written,
                        spaces(next),
                        after,
                        full_width,
                    ) && scrolled(previous, next) == Some(frame)
                    &&& #[trigger] occurs_in(
                        go_to(next.y + row, next.x as int) + written,
                        frame,
                    )
                }
            ||| exists|shift: int|
                {
                    &&& 0 < shift
                    &&& row + shift < previous.lines.len()
                    &&& row < next.lines.len()
                    &&& next.lines[row] == previous.lines[row + shift]
                    &&& #[trigger] occurs_in(
                        scroll_by(next.y as int, next.y + next.rows, shift),
                        frame,
                    )
                }
        }),
{
    let (frame, _) = update(previous, next);
    assert(blank(next.cols) =~= spaces(next));
    if appended(previous, next) is Some {
        if row != previous.cursor_row - previous.y {
            append_leaves_other_rows(previous, next, row);
        }
    } else if scrolled(previous, next) is Some {
        let shift = first_shift(previous, next, 1)->0;
        let rows = scrolled_rows(next);
        found_shift(previous, next, 1);
        let fill = filled_rows(next, rows - shift, rows);
        let sequence = scroll_sequence(next, shift);
        let tail = restore() + next.final_cursor_state();
        if row < rows - shift {
            assert(previous.lines.subrange(shift, rows)[row] == next.lines.subrange(
                0,
                rows - shift,
            )[row]);
            let literal = scroll_by(next.y as int, next.y + next.rows, shift);
            assert(sequence =~= literal);
            assert(frame =~= save_and_hide() + literal + (fill + tail));
            assert(occurs_in(literal, frame));
        } else {
            let written = written_line(blank(next.cols), next.lines[row], true);
            written_line_replaces(blank(next.cols), next.lines[row], true);
            row_start_is_its_first_cell(next, row);
            fills_hold_each_row(next, rows - shift, rows, row);
            parts_occur(row_start(next, row) + written, save_and_hide() + sequence, fill, tail);
            assert(frame =~= save_and_hide() + sequence + fill + tail);
            assert(occurs_in(go_to(next.y + row, next.x as int) + written, frame));
        }
    } else {
        changed_row_is_updated(previous, next, row);
    }
}

/// Where a frame only appends text at the cursor, every other row is the same in both
/// snapshots, an absent line counting as empty.
pub proof fn append_leaves_other_rows(previous: Snapshot, next: Snapshot, row: int)
    requires
        appended(previous, next) is Some,
        0 <= row,
        row != previous.cursor_row - previous.y,
    ensures
        line_at(previous, row, Seq::empty()) == line_at(next, row, Seq::empty()),
{
    if row < previous.lines.len() || row < next.lines.len() {
        assert(line_or(previous.lines, row, Seq::empty()) == line_or(
            next.lines,
            row,
            Seq::empty(),
        ));
    }
}

/// Drawn rows hold each line.
proof fn drawn_rows_hold_each_line(snapshot: Snapshot, count: nat, row: int)
    requires
        0 <= row < count,
    ensures
        occurs_in(row_start(snapshot, row) + snapshot.lines[row], drawn_rows(snapshot, count)),
    decreases count,
{
    let drawn = row_start(snapshot, row) + snapshot.lines[row];
    if row == count - 1 {
        let start = drawn_rows(snapshot, (count - 1) as nat);
        assert(drawn_rows(snapshot, count) =~= start + drawn + Seq::<u8>::empty());
    } else {
        drawn_rows_hold_each_line(snapshot, (count - 1) as nat, row);
        let shorter = drawn_rows(snapshot, (count - 1) as nat);
        let (start, end) = choose|start: Seq<u8>, end: Seq<u8>|
            shorter == #[trigger] (start + drawn + end);
        let last = row_start(snapshot, count - 1) + snapshot.lines[count - 1];
        assert(drawn_rows(snapshot, count) =~= start + drawn + (end + last));
    }
}

/// A frame that draws the pane anew goes, for each line that the pane has a row for, to the
/// first cell of the row, at the pane's own row and column on the terminal, and writes the
/// line there. It draws the scrollbar too, and ends with the cursor in its place, shown or
/// hidden.
pub proof fn full_frames_write_every_row(snapshot: Snapshot, row: int)
    requires
        0 <= row < snapshot.lines.len(),
        row < snapshot.rows,
        snapshot.y + row < u16::MAX,
        snapshot.x < u16::MAX,
    ensures
        occurs_in(
            go_to(snapshot.y + row, snapshot.x as int) + snapshot.lines[row],
            full(snapshot),
        ),
        snapshot.scrollbar is Some ==> occurs_in(snapshot.scrollbar->0, full(snapshot)),
{
    let count = scrolled_rows(snapshot) as nat;
    let rows = drawn_rows(snapshot, count);
    let scrollbar = if snapshot.scrollbar is Some {
        snapshot.scrollbar->0
    } else {
        Seq::empty()
    };
    let tail = scrollbar + restore() + snapshot.final_cursor_state();
    row_start_is_its_first_cell(snapshot, row);
    drawn_rows_hold_each_line(snapshot, count, row);
    parts_occur(
        row_start(snapshot, row) + snapshot.lines[row],
        save_and_hide() + plain_style(),
        rows,
        tail,
    );
    assert(full(snapshot) =~= (save_and_hide() + plain_style()) + rows + tail);
    assert(full(snapshot) =~= (save_and_hide() + plain_style() + rows) + scrollbar + (restore()
        + snapshot.final_cursor_state()));
}

/// The bytes that every frame with rows starts with: the cursor is saved and hidden.
pub open spec fn frame_head() -> Seq<u8> {
    seq![0x1bu8, 0x5b, 0x73, 0x1b, 0x5b, 0x3f, 0x32, 0x35, 0x6c]
}

/// The bytes that put the cursor of a snapshot in its place and show or hide it.
pub open spec fn cursor_bytes(snapshot: Snapshot) -> Seq<u8> {
    snapshot.cursor + (if (snapshot.mode & 1) != 0 {
        seq![0x1bu8, 0x5b, 0x3f, 0x32, 0x35, 0x68]
    } else {
        seq![0x1bu8, 0x5b, 0x3f, 0x32, 0x35, 0x6c]
    })
}

/// The bytes that every frame with rows ends with: styles are off, the cursor is put back,
/// then put in its place and shown or hidden.
pub open spec fn frame_tail(snapshot: Snapshot) -> Seq<u8> {
    seq![0x1bu8, 0x5b, 0x30, 0x6d, 0x1b, 0x5b, 0x75] + cursor_bytes(snapshot)
}

/// The bytes start and end the frame, without overlap.
pub open spec fn enclose(start: Seq<u8>, end: Seq<u8>, frame: Seq<u8>) -> bool {
    &&& start.len() + end.len() <= frame.len()
    &&& frame.take(start.len() as int) == start
    &&& frame.skip(frame.len() - end.len()) == end
}

/// The library's own names for what starts and ends a frame.
proof fn heads_and_tails(snapshot: Snapshot)
    ensures
        save_and_hide() == frame_head(),
        restore() + snapshot.final_cursor_state() == frame_tail(snapshot),
        snapshot.final_cursor_state() == cursor_bytes(snapshot),
{
    assert(save_and_hide() =~= frame_head());
    assert(snapshot.final_cursor_state() =~= cursor_bytes(snapshot));
    assert(restore() + snapshot.final_cursor_state() =~= frame_tail(snapshot));
}

/// What stands between the start and the end of a frame does not matter to them.
proof fn enclosing(start: Seq<u8>, middle: Seq<u8>, end: Seq<u8>)
    ensures
        enclose(start, end, start + middle + end),
{
    let frame = start + middle + end;
    assert(frame.take(start.len() as int) =~= start);
    assert(frame.skip(frame.len() - end.len()) =~= end);
}

/// A frame that draws the pane anew saves and hides the cursor first; it ends with the
/// scrollbar, the styles turned off, and the cursor in its place, shown or hidden.
pub proof fn full_frames_are_enclosed(snapshot: Snapshot)
    ensures
        enclose(
            frame_head() + seq![0x1bu8, 0x5b, 0x30, 0x6d],
            (if snapshot.scrollbar is Some {
                snapshot.scrollbar->0
            } else {
                Seq::empty()
            }) + frame_tail(snapshot),
            full(snapshot),
        ),
{
    let start = frame_head() + seq![0x1bu8, 0x5b, 0x30, 0x6d];
    let rows = drawn_rows(snapshot, scrolled_rows(snapshot) as nat);
    let end = (if snapshot.scrollbar is Some {
        snapshot.scrollbar->0
    } else {
        Seq::empty()
    }) + frame_tail(snapshot);
    heads_and_tails(snapshot);
    enclosing(start, rows, end);
    assert(full(snapshot) =~= start + rows + end);
}

/// A delta that neither appends nor scrolls: with equal lines and scrollbar it moves, shows
/// or hides the cursor as far as that changed, and is empty otherwise; with equal lines and
/// another scrollbar it draws the scrollbar alone; and where a line differs it saves and
/// hides the cursor first and ends with the scrollbar, if that changed, and the cursor.
pub proof fn row_frames_by_change(previous: Snapshot, next: Snapshot)
    requires
        appended(previous, next) is None,
        scrolled(previous, next) is None,
    ensures
        ({
            let (frame, style) = update(previous, next);
            let scrollbar = if previous.scrollbar != next.scrollbar && next.scrollbar is Some {
                next.scrollbar->0
            } else {
                Seq::empty()
            };
            &&& previous.lines == next.lines && previous.scrollbar == next.scrollbar ==> frame == (
            if ((previous.mode & 1) != 0) != ((next.mode & 1) != 0) {
                cursor_bytes(next)
            } else if previous.cursor != next.cursor {
                next.cursor
            } else {
                Seq::empty()
            })
            &&& previous.lines == next.lines && previous.scrollbar != next.scrollbar ==> frame
                == frame_head() + scrollbar + frame_tail(next)
            &&& previous.scrollbar != next.scrollbar || (exists|row: int|
                0 <= row < next.lines.len() && row < previous.lines.len()
                    && #[trigger] next.lines[row] != previous.lines[row]) ==> enclose(
                frame_head(),
                scrollbar + frame_tail(next),
                frame,
            )
            &&& style == (if previous.cursor_style != next.cursor_style {
                Some(next.cursor_style)
            } else {
                None
            })
        }),
{
    let count = larger(previous.lines.len(), next.lines.len());
    let updates = row_updates(previous, next, count);
    let (frame, _) = update(previous, next);
    let scrollbar = if previous.scrollbar != next.scrollbar && next.scrollbar is Some {
        next.scrollbar->0
    } else {
        Seq::empty()
    };
    heads_and_tails(next);
    if previous.lines == next.lines {
        equal_lines_have_no_updates(previous, next, count);
        assert(updates =~= Seq::empty());
    } else if exists|row: int|
        0 <= row < next.lines.len() && row < previous.lines.len() && #[trigger] next.lines[row]
            != previous.lines[row] {
        let row = choose|row: int|
            0 <= row < next.lines.len() && row < previous.lines.len() && #[trigger] next.lines[row]
                != previous.lines[row];
        updates_hold_each_row(previous, next, count, row);
        let update = row_update(previous, next, row);
        let (start, end) = choose|start: Seq<u8>, end: Seq<u8>|
            updates == #[trigger] (start + update + end);
        assert(update.len() > 0);
        assert(updates.len() > 0);
    }
    if updates.len() > 0 || previous.scrollbar != next.scrollbar {
        assert(frame =~= frame_head() + updates + (scrollbar + frame_tail(next)));
        enclosing(frame_head(), updates, scrollbar + frame_tail(next));
        if previous.lines == next.lines {
            assert(frame =~= frame_head() + scrollbar + frame_tail(next));
        }
    }
}

/// Equal lines need no update.
proof fn equal_lines_have_no_updates(previous: Snapshot, next: Snapshot, count: nat)
    requires
        previous.lines == next.lines,
    ensures
        row_updates(previous, next, count).len() == 0,
    decreases count,
{
    if count > 0 {
        equal_lines_have_no_updates(previous, next, (count - 1) as nat);
    }
}

/// A delta that scrolls saves and hides the cursor, scrolls the rows of the pane, and ends
/// with the cursor in its place. It is taken only in a pane that spans the terminal, by at
/// least one row, where every row that stays is the one that was as far below, with its
/// revision, and one of them shows text; and only where a row that came in is not empty or
/// the cursor moved.
#[verifier::rlimit(40)]
pub proof fn scroll_frames_are_due(previous: Snapshot, next: Snapshot)
    requires
        scrolled(previous, next) is Some,
        next.y + next.rows <= u16::MAX,
        next.lines.len() <= next.rows,
        next.lines.len() <= next.line_revisions.len(),
    ensures
        ({
            let frame = scrolled(previous, next)->0;
            let rows = next.lines.len() as int;
            &&& previous.x == 0 && next.x == 0 && next.cols == next.terminal_cols
            &&& previous.rows != 0
            &&& previous.lines.len() == rows
            &&& previous.line_revisions.len() == next.line_revisions.len()
            &&& exists|shift: int|
                {
                    &&& 0 < shift < rows
                    &&& enclose(
                        frame_head() + #[trigger] scroll_by(
                            next.y as int,
                            next.y + next.rows,
                            shift,
                        ),
                        frame_tail(next),
                        frame,
                    )
                    &&& forall|row: int|
                        0 <= row < rows - shift ==> #[trigger] next.lines[row]
                            == previous.lines[row + shift]
                    &&& forall|row: int|
                        0 <= row < rows - shift ==> #[trigger] next.line_revisions[row]
                            == previous.line_revisions[row + shift]
                    &&& exists|row: int, col: int|
                        shift <= row < rows && 0 <= col < previous.lines[row].len()
                            && #[trigger] previous.lines[row][col] != 0x20
                    &&& previous.cursor != next.cursor || exists|row: int|
                        rows - shift <= row < rows && (#[trigger] next.lines[row]).len() > 0
                }
        }),
{
    let frame = scrolled(previous, next)->0;
    let shift = first_shift(previous, next, 1)->0;
    let rows = scrolled_rows(next);
    found_shift(previous, next, 1);
    heads_and_tails(next);
    let fill = filled_rows(next, rows - shift, rows);
    let literal = scroll_by(next.y as int, next.y + next.rows, shift);
    assert(scroll_sequence(next, shift) =~= literal);
    assert(frame =~= (frame_head() + literal) + fill + frame_tail(next));
    enclosing(frame_head() + literal, fill, frame_tail(next));
    assert forall|row: int| 0 <= row < rows - shift implies #[trigger] next.lines[row]
        == previous.lines[row + shift] by {
        assert(previous.lines.subrange(shift, rows)[row] == next.lines.subrange(
            0,
            rows - shift,
        )[row]);
    }
    assert forall|row: int| 0 <= row < rows - shift implies #[trigger] next.line_revisions[row]
        == previous.line_revisions[row + shift] by {
        assert(previous.line_revisions.subrange(shift, rows)[row] == next.line_revisions.subrange(
            0,
            rows - shift,
        )[row]);
    }
    let text = choose|row: int|
        shift <= row < rows && visible_len(#[trigger] previous.lines[row]) > 0;
    visible_part(previous.lines[text]);
    assert(previous.lines[text][visible_len(previous.lines[text]) - 1] != 0x20);
}

/// A scroll is found where there is one: the rows of a pane that spans the terminal moved up
/// by some distance, one of them shows text, and the last row is not empty or the cursor
/// moved. The smallest such distance is taken.
pub proof fn scrolls_are_found(previous: Snapshot, next: Snapshot, shift: int, shown: int)
    requires
        previous.x == 0,
        next.x == 0,
        next.cols == next.terminal_cols,
        previous.rows != 0,
        next.lines.len() <= next.rows,
        previous.lines.len() == next.lines.len(),
        next.lines.len() <= next.line_revisions.len(),
        previous.line_revisions.len() == next.line_revisions.len(),
        0 < shift <= shown < next.lines.len(),
        forall|row: int|
            0 <= row < next.lines.len() - shift ==> #[trigger] next.lines[row]
                == previous.lines[row + shift],
        forall|row: int|
            0 <= row < next.lines.len() - shift ==> #[trigger] next.line_revisions[row]
                == previous.line_revisions[row + shift],
        exists|col: int|
            0 <= col < previous.lines[shown].len() && #[trigger] previous.lines[shown][col] != 0x20,
        previous.cursor != next.cursor || next.lines.last().len() > 0,
    ensures
        scrolled(previous, next) is Some,
        appended(previous, next) is None ==> update(previous, next).0 == scrolled(previous, next)->0,
{
    let rows = scrolled_rows(next);
    visible_part(previous.lines[shown]);
    assert(previous.lines.subrange(shift, rows) =~= next.lines.subrange(0, rows - shift));
    assert(previous.line_revisions.subrange(shift, rows) =~= next.line_revisions.subrange(
        0,
        rows - shift,
    ));
    assert(visible_len(previous.lines[shown]) > 0);
    assert(shifted_up(previous, next, shift));
    shift_is_found(previous, next, 1, shift);
    found_shift(previous, next, 1);
    assert(next.lines[rows - 1] == next.lines.last());
}

/// The search for a shift passes none by.
proof fn shift_is_found(previous: Snapshot, next: Snapshot, from: int, shift: int)
    requires
        from <= shift < scrolled_rows(next),
        shifted_up(previous, next, shift),
    ensures
        first_shift(previous, next, from) is Some,
        first_shift(previous, next, from)->0 <= shift,
    decreases shift - from,
{
    if !shifted_up(previous, next, from) {
        shift_is_found(previous, next, from + 1, shift);
    }
}

/// A delta that appends writes the text that the cursor's line gained behind the text that
/// it had, a line end where the cursor went to the start of the row below, and the cursor
/// state where its visibility changed, and names no cursor shape.
#[verifier::rlimit(40)]
pub proof fn append_frames_by_change(previous: Snapshot, next: Snapshot)
    requires
        appended(previous, next) is Some,
        previous.y == next.y,
        next.cursor_row < u16::MAX,
        previous.cursor_row < u16::MAX,
    ensures
        ({
            let row = previous.cursor_row - previous.y;
            let before = previous.lines[row];
            let after = next.lines[row];
            let start = previous.cursor_col as int;
            let (frame, style) = update(previous, next);
            &&& style is None
            &&& previous.cursor_style == next.cursor_style
            &&& 0 <= row < next.rows
            &&& row < previous.lines.len()
            &&& row < next.lines.len()
            &&& previous.x == 0 && next.x == 0 && next.cols == next.terminal_cols
            &&& unstyled(before)
            &&& unstyled(after)
            &&& start <= before.len()
            &&& start < after.len()
            &&& before.take(start) == after.take(start)
            &&& forall|i: int| start <= i < before.len() ==> before[i] == 0x20
            &&& next.cursor_row == previous.cursor_row || next.cursor_row == previous.cursor_row
                + 1 && next.cursor_col == 0 && row + 1 < next.rows
            &&& exists|end: int|
                {
                    &&& start < end <= after.len()
                    &&& after[end - 1] != 0x20
                    &&& forall|i: int| end <= i < after.len() ==> after[i] == 0x20
                    &&& next.cursor_row == previous.cursor_row ==> next.cursor_col == end
                    &&& frame == #[trigger] after.subrange(start, end) + (if next.cursor_row
                        == previous.cursor_row {
                        Seq::empty()
                    } else {
                        seq![0x0du8, 0x0a]
                    }) + (if ((previous.mode & 1) != 0) != ((next.mode & 1) != 0) {
                        cursor_bytes(next)
                    } else {
                        Seq::empty()
                    })
                }
        }),
{
    let row = previous.cursor_row - previous.y;
    let before = previous.lines[row];
    let after = next.lines[row];
    visible_part(before);
    visible_part(after);
    heads_and_tails(next);
    assert(seq!['\r' as u8, '\n' as u8] =~= seq![0x0du8, 0x0a]);
    assert(unstyled(before)) by {
        assert(forall|i: int|
            0 <= i < before.len() ==> (printable(#[trigger] before[i]) <==> 0x20 <= before[i]
                <= 0x7e));
    }
    assert(unstyled(after)) by {
        assert(forall|i: int|
            0 <= i < after.len() ==> (printable(#[trigger] after[i]) <==> 0x20 <= after[i]
                <= 0x7e));
    }
    let (frame, _) = update(previous, next);
    let end = visible_len(after) as int;
    assert(after.subrange(previous.cursor_col as int, end) == after.subrange(
        visible_len(before) as int,
        end,
    ));
}

/// A position sequence names the row and the column counted from one, as far as they can be
/// counted.
pub proof fn positions_count_from_one(row: u16, col: u16)
    ensures
        row < u16::MAX && col < u16::MAX ==> position(row, col) == seq![0x1bu8, 0x5b] + decimal(
            (row + 1) as nat,
        ) + seq![0x3bu8] + decimal((col + 1) as nat) + seq![0x48u8],
        row == u16::MAX ==> position(row, col) == position((u16::MAX - 1) as u16, col),
        col == u16::MAX ==> position(row, col) == position(row, (u16::MAX - 1) as u16),
        capped_sum(row, col) == (if row + col < u16::MAX {
            row + col
        } else {
            u16::MAX as int
        }),
{
    assert(row < u16::MAX && col < u16::MAX ==> position(row, col) =~= seq![0x1bu8, 0x5b]
        + decimal((row + 1) as nat) + seq![0x3bu8] + decimal((col + 1) as nat) + seq![0x48u8]);
}

} // verus!
