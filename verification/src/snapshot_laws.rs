//! What a capture holds, and what plain output makes of it.
use crate::bytes::decimal;
use crate::cursor::position;
use crate::frame_laws::{frame_head, frame_tail, unstyled};
use crate::line_delta::{
    differs_elsewhere, fresh_revision, largest_id, largest_id_is_an_id, largest_id_is_largest,
    line_or, plain_line, printable, visible_len, visible_part, LINE_REVISION_ID_MASK,
};
use crate::pane_delta::{appended, capacity, capped, line_bytes};
use crate::pane_laws::run_is_its_bytes;
use crate::pane_plain_output::{
    applied, byte_written, bytes_written, echoed, forwardable, next_generation, positioned, run_end,
    run_end_advances, run_written, runs_written, scrolls_from, settled, would_scroll, writing_to,
    Writing,
};
use crate::pane_snapshot::{
    changed_line, present, reported_revision, reusable, reusable_lines, showable, shown_lines,
    snapshot_of, LineChange, PaneGeometry, PaneRenderSnapshot, ScreenState, Snapshot,
    StatusGeometry,
};
use crate::screen_laws::cursor_placed;
use vstd::prelude::*;

verus! {

/// A capture holds the pane as it lies on the terminal, below the status bar, with what
/// the screen reports; the cursor is where the screen has it, held inside the pane, and the
/// cursor sequence goes there.
pub proof fn captures_hold_the_pane(
    pane: PaneGeometry,
    terminal: StatusGeometry,
    lines: Seq<Seq<u8>>,
    revisions: Seq<u64>,
    screen: ScreenState,
    scrollbar: Option<Seq<u8>>,
)
    requires
        0 < pane.rows,
        0 < pane.cols,
        pane.y + terminal.content_y_offset + pane.rows <= terminal.terminal_rows,
        pane.x + pane.cols <= terminal.terminal_cols,
    ensures
        ({
            let snapshot = snapshot_of(pane, terminal, lines, revisions, screen, scrollbar);
            &&& snapshot.x == pane.x
            &&& snapshot.y == pane.y + terminal.content_y_offset
            &&& snapshot.rows == pane.rows
            &&& snapshot.cols == pane.cols
            &&& snapshot.terminal_cols == terminal.terminal_cols
            &&& snapshot.terminal_rows == terminal.terminal_rows
            &&& snapshot.lines == lines
            &&& snapshot.line_revisions == revisions
            &&& snapshot.cursor_row == snapshot.y + (if screen.cursor_y < pane.rows {
                screen.cursor_y as int
            } else {
                pane.rows - 1
            })
            &&& snapshot.cursor_col == snapshot.x + (if screen.cursor_x < pane.cols {
                screen.cursor_x as int
            } else {
                pane.cols - 1
            })
            &&& snapshot.cursor_style == screen.cursor_style
            &&& snapshot.title == screen.title@
            &&& snapshot.path == screen.path@
            &&& snapshot.mode == screen.mode
            &&& snapshot.scrollbar == scrollbar
            &&& cursor_placed(snapshot)
        }),
{
    let snapshot = snapshot_of(pane, terminal, lines, revisions, screen, scrollbar);
    assert(snapshot.cursor =~= seq![0x1bu8, 0x5b] + decimal((snapshot.cursor_row + 1) as nat)
        + seq![0x3bu8] + decimal((snapshot.cursor_col + 1) as nat) + seq![0x48u8]);
}

/// Only a pane that is visible and has cells is captured.
pub proof fn empty_panes_are_not_captured(pane: PaneGeometry)
    ensures
        !showable(None),
        showable(Some(pane)) <==> pane.cols > 0 && pane.rows > 0,
{
}

/// A row has the revision that is reported for it, and zero where none is.
pub proof fn revisions_are_as_reported(reported: Seq<Option<u64>>, row: int, revision: u64)
    requires
        0 <= row,
    ensures
        row < reported.len() && reported[row] == Some(revision) ==> reported_revision(reported, row)
            == revision,
        row >= reported.len() || reported[row] is None ==> reported_revision(reported, row) == 0,
{
}

/// Of a list of rows, those that could be rendered are shown, in their order.
pub proof fn rendered_rows_are_shown(first: Option<Vec<u8>>, rest: Seq<Option<Vec<u8>>>)
    ensures
        present(Seq::empty()) == Seq::<Seq<u8>>::empty(),
        present(seq![first] + rest) == (match first {
            Some(line) => seq![line@] + present(rest),
            None => present(rest),
        }),
    decreases rest.len(),
{
    let whole = seq![first] + rest;
    if rest.len() == 0 {
        assert(whole =~= seq![first]);
        assert(whole.drop_last() =~= Seq::empty());
        assert(rest =~= Seq::empty());
        match first {
            Some(line) => {
                assert(present(whole) =~= seq![line@] + present(rest));
            },
            None => {},
        }
    } else {
        rendered_rows_are_shown(first, rest.drop_last());
        assert(whole.drop_last() =~= seq![first] + rest.drop_last());
        assert(whole.last() == rest.last());
        match first {
            Some(line) => {
                assert(present(whole) =~= seq![line@] + present(rest));
            },
            None => {},
        }
    }
}

/// A line rendered anew is taken as it is; one that was not is taken from the row it had
/// before, if there is such a row, else from its own row before, else it is empty.
pub proof fn lines_are_taken_over(change: LineChange, row: int, before: Seq<Seq<u8>>)
    requires
        0 <= row,
    ensures
        ({
            let line = changed_line(change, row, before);
            let known = change.previous_row is Some && change.previous_row->0 < before.len();
            &&& change.rendered is Some ==> line == change.rendered->0@
            &&& change.rendered is None && known ==> line == before[change.previous_row->0 as int]
            &&& change.rendered is None && !known && row < before.len() ==> line == before[row]
            &&& change.rendered is None && !known && row >= before.len() ==> line.len() == 0
        }),
{
}

/// The lines of a capture before are reused only where the pane has not moved, below the
/// status bar, and has not changed its size.
pub proof fn lines_are_reused_in_place(
    previous: PaneRenderSnapshot,
    pane: PaneGeometry,
    terminal: StatusGeometry,
)
    requires
        pane.y + terminal.content_y_offset <= u16::MAX,
    ensures
        reusable(previous@, pane, terminal) <==> previous.x == pane.x && previous.y == pane.y
            + terminal.content_y_offset && previous.rows == pane.rows && previous.cols == pane.cols,
        reusable(previous@, pane, terminal) ==> reusable_lines(Some(&previous), pane, terminal)
            == previous@.lines,
        !reusable(previous@, pane, terminal) ==> reusable_lines(
            Some(&previous),
            pane,
            terminal,
        ).len() == 0,
        reusable_lines(None, pane, terminal).len() == 0,
{
}

/// A pane is drawn anew exactly where its place or its size changed.
pub proof fn moved_panes_are_drawn_anew(previous: Snapshot, next: Snapshot)
    ensures
        previous.x != next.x ==> previous.placed_unlike(next),
        previous.y != next.y ==> previous.placed_unlike(next),
        previous.rows != next.rows ==> previous.placed_unlike(next),
        previous.cols != next.cols ==> previous.placed_unlike(next),
        previous.placed_unlike(next) ==> previous.x != next.x || previous.y != next.y
            || previous.rows != next.rows || previous.cols != next.cols,
{
}

/// A fresh revision has the identity after the largest one in use, and no change counted.
/// The identity is what a revision holds above its lower half, where changes are counted.
pub proof fn fresh_revisions_follow_the_largest(revisions: Seq<u64>, index: int)
    requires
        0 <= index < revisions.len(),
        forall|i: int| 0 <= i < revisions.len() ==> #[trigger] revisions[i] < 0xffff_ffff_0000_0000,
    ensures
        fresh_revision(Seq::empty()) == 0x1_0000_0000,
        fresh_revision(revisions) % 0x1_0000_0000 == 0,
        fresh_revision(revisions) / 0x1_0000_0000 > revisions[index] / 0x1_0000_0000,
        exists|i: int|
            0 <= i < revisions.len() && fresh_revision(revisions) / 0x1_0000_0000
                == #[trigger] revisions[i] / 0x1_0000_0000 + 1 || fresh_revision(revisions)
                == 0x1_0000_0000,
{
    let largest = largest_id(revisions);
    let revision = revisions[index];
    largest_id_is_largest(revisions, index);
    largest_id_is_an_id(revisions);
    largest_id_is_in_use(revisions);
    let witness = if largest == 0 {
        0
    } else {
        choose|i: int|
            0 <= i < revisions.len() && (#[trigger] revisions[i] & LINE_REVISION_ID_MASK) == largest
    };
    let holder = revisions[witness];
    let raised = fresh_revision(revisions);
    assert(holder < 0xffff_ffff_0000_0000);
    assert({
        &&& (largest == 0 || (holder & LINE_REVISION_ID_MASK) == largest) && holder
            < 0xffff_ffff_0000_0000 ==> largest < 0xffff_ffff_0000_0000
        &&& (holder & LINE_REVISION_ID_MASK) == largest ==> largest / 0x1_0000_0000 == holder
            / 0x1_0000_0000
        &&& largest / 0x1_0000_0000 >= revision / 0x1_0000_0000
        &&& largest % 0x1_0000_0000 == 0
        &&& largest < 0xffff_ffff_0000_0000 ==> (((largest + 0x1_0000_0000) as u64)
            & LINE_REVISION_ID_MASK) == largest + 0x1_0000_0000
        &&& (0x1_0000_0000u64 & LINE_REVISION_ID_MASK) == 0x1_0000_0000
    }) by (bit_vector)
        requires
            (largest & LINE_REVISION_ID_MASK) == largest,
            (revision & LINE_REVISION_ID_MASK) <= largest,
    ;
    assert(largest_id(Seq::<u64>::empty()) == 0);
    assert(revisions[witness] / 0x1_0000_0000 == holder / 0x1_0000_0000);
}

/// The largest identity is that of some revision, or zero.
proof fn largest_id_is_in_use(revisions: Seq<u64>)
    ensures
        largest_id(revisions) == 0 || exists|i: int|
            0 <= i < revisions.len() && (#[trigger] revisions[i] & LINE_REVISION_ID_MASK)
                == largest_id(revisions),
    decreases revisions.len(),
{
    if revisions.len() > 0 {
        let shorter = revisions.drop_last();
        largest_id_is_in_use(shorter);
        if largest_id(revisions) == largest_id(shorter) && largest_id(shorter) != 0 {
            let i = choose|i: int|
                0 <= i < shorter.len() && (#[trigger] shorter[i] & LINE_REVISION_ID_MASK)
                    == largest_id(shorter);
            assert((revisions[i] & LINE_REVISION_ID_MASK) == largest_id(revisions));
        } else {
            assert((revisions[revisions.len() - 1] & LINE_REVISION_ID_MASK) == largest_id(
                revisions,
            ) || largest_id(revisions) == 0);
        }
    }
}

/// How plain output is walked: text that fits moves on in its row, a carriage return goes to
/// the first column, and a line feed to the row below, or scrolls in the last row.
pub proof fn plain_output_by_byte(
    row: int,
    col: int,
    rows: int,
    cols: int,
    byte: u8,
    rest: Seq<u8>,
)
    ensures
        ({
            let scrolls = scrolls_from(row, col, rows, cols, seq![byte] + rest);
            &&& scrolls_from(row, col, rows, cols, Seq::empty()) == Some(false)
            &&& byte == 0x0d ==> scrolls == scrolls_from(row, 0, rows, cols, rest)
            &&& byte == 0x0a && row + 1 < rows ==> scrolls == scrolls_from(
                row + 1,
                col,
                rows,
                cols,
                rest,
            )
            &&& byte == 0x0a && row + 1 >= rows ==> scrolls == (match scrolls_from(
                row,
                col,
                rows,
                cols,
                rest,
            ) {
                Some(_) => Some(true),
                None => None,
            })
            &&& 0x20 <= byte <= 0x7e && col < cols ==> scrolls == scrolls_from(
                row,
                col + 1,
                rows,
                cols,
                rest,
            )
            &&& 0x20 <= byte <= 0x7e && col >= cols ==> scrolls is None
            &&& byte > 0x7e || byte < 0x20 && byte != 0x0d && byte != 0x0a ==> scrolls is None
        }),
{
    let bytes = seq![byte] + rest;
    assert(bytes[0] == byte);
    assert(bytes.skip(1) =~= rest);
}

/// Plain output starts at the cursor, which has to be inside the pane; one that stands above
/// or left of the pane counts as in its first row or column.
pub proof fn plain_output_starts_at_the_cursor(snapshot: Snapshot, bytes: Seq<u8>)
    ensures
        ({
            let row: int = if snapshot.cursor_row < snapshot.y {
                0
            } else {
                snapshot.cursor_row - snapshot.y
            };
            let col: int = if snapshot.cursor_col < snapshot.x {
                0
            } else {
                snapshot.cursor_col - snapshot.x
            };
            would_scroll(snapshot, bytes) == (if row < snapshot.rows && col < snapshot.cols {
                scrolls_from(row, col, snapshot.rows as int, snapshot.cols as int, bytes)
            } else {
                None
            })
        }),
{
}

/// Output is forwarded where the pane spans the width of its terminal, the output is plain,
/// and a scroll would not move other rows: the pane spans the height too.
pub proof fn output_is_forwarded_where_it_may(snapshot: Snapshot, bytes: Seq<u8>)
    ensures
        forwardable(snapshot, bytes) <==> {
            &&& snapshot.x == 0
            &&& snapshot.cols == snapshot.terminal_cols
            &&& {
                ||| would_scroll(snapshot, bytes) == Some(false)
                ||| would_scroll(snapshot, bytes) == Some(true) && snapshot.y == 0 && snapshot.rows
                    == snapshot.terminal_rows
            }
        },
{
}

/// A run of text is written over the line of its row where the row is there and the run
/// ends inside the pane: the line is filled up with spaces to the width of the pane first,
/// and no other line changes.
pub proof fn runs_are_written_over_their_line(
    lines: Seq<Seq<u8>>,
    row: int,
    col: int,
    run: Seq<u8>,
    cols: int,
    other: int,
    place: int,
)
    requires
        0 <= row,
        0 <= col,
        0 <= other < lines.len(),
        0 <= place < cols,
    ensures
        run_written(lines, row, col, run, cols) is Some <==> row < lines.len() && col + run.len()
            <= cols,
        run_written(lines, row, col, run, cols) is Some ==> {
            let after = run_written(lines, row, col, run, cols)->0;
            &&& after.len() == lines.len()
            &&& other != row ==> after[other] == lines[other]
            &&& after[row].len() == (if lines[row].len() < cols {
                cols as nat
            } else {
                lines[row].len()
            })
            &&& after[row][place] == (if col <= place < col + run.len() {
                run[place - col]
            } else if place < lines[row].len() {
                lines[row][place]
            } else {
                0x20
            })
        },
{
}

/// A change counts one, up to the largest number that can be counted.
pub proof fn changes_count_one(revision: u64)
    ensures
        revision < u64::MAX ==> next_generation(revision) == revision + 1,
        next_generation(u64::MAX) == u64::MAX,
{
}

/// Text is typed at the cursor of a pane with a line and a revision for each row, and fits
/// in the cursor's line.
pub open spec fn typed_in_line(snapshot: Snapshot, bytes: Seq<u8>) -> bool {
    &&& bytes.len() > 0
    &&& forall|i: int| 0 <= i < bytes.len() ==> 0x20 <= #[trigger] bytes[i] <= 0x7e
    &&& snapshot.y <= snapshot.cursor_row < snapshot.y + snapshot.rows
    &&& snapshot.x <= snapshot.cursor_col
    &&& snapshot.cursor_col + bytes.len() <= snapshot.x + snapshot.cols
    &&& snapshot.x + snapshot.cols < u16::MAX
    &&& snapshot.cursor_row < u16::MAX
    &&& snapshot.lines.len() == snapshot.rows
    &&& snapshot.line_revisions.len() == snapshot.rows
}

/// The pane once a text is typed in the cursor's line.
spec fn after_typing(snapshot: Snapshot, bytes: Seq<u8>) -> Writing {
    let row = snapshot.cursor_row - snapshot.y;
    let col = snapshot.cursor_col - snapshot.x;
    Writing {
        pane: Snapshot {
            lines: run_written(snapshot.lines, row, col, bytes, snapshot.cols as int)->0,
            ..snapshot
        },
        row: row as u16,
        col: (col + bytes.len()) as u16,
        touched: Set::<int>::empty().insert(row),
    }
}

/// Typed text is written in one run.
#[verifier::rlimit(40)]
proof fn typed_text_is_one_run(snapshot: Snapshot, bytes: Seq<u8>)
    requires
        typed_in_line(snapshot, bytes),
    ensures
        would_scroll(snapshot, bytes) == Some(false),
        bytes_written(writing_to(snapshot), bytes) == (after_typing(snapshot, bytes), true),
        applied(snapshot, bytes) == (settled(after_typing(snapshot, bytes)), true),
        forall|i: int| 0 <= i < bytes.len() ==> printable(#[trigger] bytes[i]),
{
    let row = snapshot.cursor_row - snapshot.y;
    let col = snapshot.cursor_col - snapshot.x;
    let count = bytes.len() as int;
    let writing = writing_to(snapshot);
    assert forall|i: int| 0 <= i < count implies printable(#[trigger] bytes[i]) by {
        assert(0x20 <= bytes[i] <= 0x7e);
    }
    text_does_not_scroll(row, col, snapshot.rows as int, snapshot.cols as int, bytes);
    assert(bytes.subrange(0, count) =~= bytes);
    assert(bytes.skip(0) =~= bytes);
    run_is_its_bytes(writing, bytes, 0, count);
    assert(bytes.skip(count) =~= Seq::empty());
}

/// Typed text that fits in the cursor's line is written over it there, one change is counted
/// for the line, and the cursor moves behind the text. No other line and no other revision
/// changes.
#[verifier::rlimit(40)]
pub proof fn typed_text_changes_one_line(snapshot: Snapshot, bytes: Seq<u8>, other: int)
    requires
        typed_in_line(snapshot, bytes),
        0 <= other < snapshot.rows,
    ensures
        ({
            let row = snapshot.cursor_row - snapshot.y;
            let col = snapshot.cursor_col - snapshot.x;
            let (after, complete) = applied(snapshot, bytes);
            &&& complete
            &&& would_scroll(snapshot, bytes) == Some(false)
            &&& other != row ==> after.lines[other] == snapshot.lines[other]
            &&& other != row ==> after.line_revisions[other] == snapshot.line_revisions[other]
            &&& snapshot.line_revisions[row] < u64::MAX ==> after.line_revisions[row]
                == snapshot.line_revisions[row] + 1
            &&& forall|place: int|
                0 <= place < snapshot.cols ==> #[trigger] after.lines[row][place] == (if col
                    <= place < col + bytes.len() {
                    bytes[place - col]
                } else if place < snapshot.lines[row].len() {
                    snapshot.lines[row][place]
                } else {
                    0x20
                })
            &&& after.cursor_row == snapshot.cursor_row
            &&& after.cursor_col == snapshot.cursor_col + bytes.len()
            &&& after.cursor == seq![0x1bu8, 0x5b] + decimal((after.cursor_row + 1) as nat) + seq![
                0x3bu8,
            ] + decimal((after.cursor_col + 1) as nat) + seq![0x48u8]
        }),
{
    typed_text_is_one_run(snapshot, bytes);
    let (after, _) = applied(snapshot, bytes);
    assert(after.cursor =~= seq![0x1bu8, 0x5b] + decimal((after.cursor_row + 1) as nat) + seq![
        0x3bu8,
    ] + decimal((after.cursor_col + 1) as nat) + seq![0x48u8]);
}

/// Text typed in a pane beside others that shows plain lines is positioned: the frame goes
/// to the cursor and writes the text there.
#[verifier::rlimit(40)]
pub proof fn typed_text_is_positioned(snapshot: Snapshot, bytes: Seq<u8>)
    requires
        typed_in_line(snapshot, bytes),
        snapshot.x != 0 || snapshot.cols != snapshot.terminal_cols,
        forall|r: int| 0 <= r < snapshot.lines.len() ==> unstyled(#[trigger] snapshot.lines[r]),
    ensures
        ({
            let (after, _) = applied(snapshot, bytes);
            positioned(snapshot, bytes) == Some(
                (
                    after,
                    frame_head() + seq![0x1bu8, 0x5b, 0x30, 0x6d] + (seq![0x1bu8, 0x5b] + decimal(
                        (snapshot.cursor_row + 1) as nat,
                    ) + seq![0x3bu8] + decimal((snapshot.cursor_col + 1) as nat) + seq![0x48u8])
                        + bytes + frame_tail(after),
                ),
            )
        }),
{
    let count = bytes.len() as int;
    let last = after_typing(snapshot, bytes);
    let (after, _) = applied(snapshot, bytes);
    typed_text_is_one_run(snapshot, bytes);
    assert forall|r: int| 0 <= r < snapshot.lines.len() implies plain_line(
        #[trigger] snapshot.lines[r],
    ) by {
        let line = snapshot.lines[r];
        assert(unstyled(line));
        assert forall|i: int| 0 <= i < line.len() implies printable(#[trigger] line[i]) || line[i]
            == '\t' as u8 by {
            assert(0x20 <= line[i] <= 0x7e || line[i] == 0x09);
        }
    }
    typed_text_is_written_once(snapshot, bytes);
    let place = position(snapshot.cursor_row, snapshot.cursor_col);
    assert(place =~= seq![0x1bu8, 0x5b] + decimal((snapshot.cursor_row + 1) as nat) + seq![0x3bu8]
        + decimal((snapshot.cursor_col + 1) as nat) + seq![0x48u8]);
    let (_, frame) = positioned(snapshot, bytes)->0;
    assert(frame =~= frame_head() + seq![0x1bu8, 0x5b, 0x30, 0x6d] + place + bytes + frame_tail(
        after,
    ));
}

/// Typed text is positioned as one run at the cursor.
proof fn typed_text_is_written_once(snapshot: Snapshot, bytes: Seq<u8>)
    requires
        typed_in_line(snapshot, bytes),
    ensures
        runs_written(writing_to(snapshot), bytes, 0) == Some(
            (
                after_typing(snapshot, bytes),
                position(snapshot.cursor_row, snapshot.cursor_col) + bytes,
            ),
        ),
{
    let count = bytes.len() as int;
    let last = after_typing(snapshot, bytes);
    let place = position(snapshot.cursor_row, snapshot.cursor_col);
    typed_text_is_one_run(snapshot, bytes);
    run_end_advances(bytes, 0);
    assert(run_end(bytes, 0) == count);
    assert(bytes.subrange(0, count) =~= bytes);
    assert(runs_written(last, bytes, count) == Some((last, Seq::<u8>::empty())));
    assert(printable(bytes[0]));
    assert(place + bytes + Seq::empty() =~= place + bytes);
}

/// Text that fits in its row does not scroll.
proof fn text_does_not_scroll(row: int, col: int, rows: int, cols: int, bytes: Seq<u8>)
    requires
        forall|i: int| 0 <= i < bytes.len() ==> printable(#[trigger] bytes[i]),
        col + bytes.len() <= cols,
    ensures
        scrolls_from(row, col, rows, cols, bytes) == Some(false),
    decreases bytes.len(),
{
    if bytes.len() > 0 {
        assert(printable(bytes[0]));
        assert forall|i: int| 0 <= i < bytes.skip(1).len() implies printable(
            #[trigger] bytes.skip(1)[i],
        ) by {
            assert(printable(bytes[i + 1]));
        }
        text_does_not_scroll(row, col + 1, rows, cols, bytes.skip(1));
    }
}

/// A line feed moves the cursor down in its column; in the last row it scrolls the snapshot
/// up by one, the line that comes in being empty. No change is counted for any line.
pub proof fn line_feeds_move_down(snapshot: Snapshot, other: int)
    requires
        snapshot.y <= snapshot.cursor_row < snapshot.y + snapshot.rows,
        snapshot.x <= snapshot.cursor_col < snapshot.x + snapshot.cols,
        snapshot.y + snapshot.rows <= u16::MAX,
        snapshot.lines.len() == snapshot.rows,
        snapshot.line_revisions.len() == snapshot.rows,
        0 <= other < snapshot.rows - 1,
    ensures
        ({
            let (after, complete) = applied(snapshot, seq![0x0au8]);
            let last = snapshot.cursor_row + 1 == snapshot.y + snapshot.rows;
            &&& complete
            &&& after.cursor_col == snapshot.cursor_col
            &&& !last ==> after.cursor_row == snapshot.cursor_row + 1
            &&& !last ==> after.lines == snapshot.lines
            &&& !last ==> after.line_revisions == snapshot.line_revisions
            &&& last ==> after.cursor_row == snapshot.cursor_row
            &&& last ==> after.lines.len() == snapshot.lines.len()
            &&& last ==> after.lines[other] == snapshot.lines[other + 1]
            &&& last ==> after.lines.last().len() == 0
            &&& last ==> after.line_revisions.len() == snapshot.line_revisions.len()
            &&& last ==> after.line_revisions[other] == snapshot.line_revisions[other + 1]
        }),
{
    let bytes = seq![0x0au8];
    assert(bytes.skip(1) =~= Seq::empty());
    let writing = writing_to(snapshot);
    let next = byte_written(writing, 0x0a)->0;
    assert(bytes_written(next, Seq::empty()) == (next, true));
    assert(scrolls_from(
        snapshot.cursor_row - snapshot.y,
        snapshot.cursor_col - snapshot.x,
        snapshot.rows as int,
        snapshot.cols as int,
        Seq::empty(),
    ) == Some(false));
    assert(scrolls_from(
        snapshot.cursor_row - snapshot.y + 1,
        snapshot.cursor_col - snapshot.x,
        snapshot.rows as int,
        snapshot.cols as int,
        Seq::empty(),
    ) == Some(false));
    let (after, _) = applied(snapshot, bytes);
    assert(after == settled(next));
    assert(after.line_revisions =~= next.pane.line_revisions);
}

/// Text typed behind the text of the cursor's line, in a pane that spans its terminal and
/// with nothing else changed, is appended where the cursor follows it.
pub proof fn typing_appends(previous: Snapshot, next: Snapshot, row: int, start: int, end: int)
    requires
        previous.x == 0,
        next.x == 0,
        next.cols == next.terminal_cols,
        previous.cursor_style == next.cursor_style,
        row == previous.cursor_row - previous.y,
        0 <= row < next.rows,
        row < previous.lines.len(),
        row < next.lines.len(),
        unstyled(previous.lines[row]),
        unstyled(next.lines[row]),
        previous.cursor_col == start,
        0 <= start <= previous.lines[row].len(),
        start > 0 ==> previous.lines[row][start - 1] != 0x20,
        forall|i: int| start <= i < previous.lines[row].len() ==> previous.lines[row][i] == 0x20,
        start < end <= next.lines[row].len(),
        next.lines[row][end - 1] != 0x20,
        forall|i: int| end <= i < next.lines[row].len() ==> next.lines[row][i] == 0x20,
        next.lines[row].take(start) == previous.lines[row].take(start),
        next.lines == previous.lines.update(row, next.lines[row]),
        next.cursor_row == previous.cursor_row,
        next.cursor_col == end,
    ensures
        appended(previous, next) is Some,
{
    let before = previous.lines[row];
    let after = next.lines[row];
    visible_part(before);
    visible_part(after);
    assert(plain_line(before)) by {
        assert forall|i: int| 0 <= i < before.len() implies printable(#[trigger] before[i])
            || before[i] == '\t' as u8 by {
            assert(0x20 <= before[i] <= 0x7e || before[i] == 0x09);
        }
    }
    assert(plain_line(after)) by {
        assert forall|i: int| 0 <= i < after.len() implies printable(#[trigger] after[i])
            || after[i] == '\t' as u8 by {
            assert(0x20 <= after[i] <= 0x7e || after[i] == 0x09);
        }
    }
    assert(visible_len(before) == start);
    assert(visible_len(after) == end);
    assert(!differs_elsewhere(previous.lines, next.lines, row)) by {
        assert forall|r: int| r != row implies #[trigger] line_or(previous.lines, r, Seq::empty())
            == line_or(next.lines, r, Seq::empty()) by {
            if 0 <= r < previous.lines.len() {
                assert(next.lines[r] == previous.lines[r]);
            }
        }
    }
}

/// The bytes in the lines are those of each line, whatever the order they are counted in.
pub proof fn line_bytes_add_up(first: Seq<u8>, rest: Seq<Seq<u8>>)
    ensures
        line_bytes(Seq::empty(), 0) == 0,
        line_bytes(seq![first] + rest, (rest.len() + 1) as nat) == first.len() + line_bytes(
            rest,
            rest.len(),
        ),
        forall|value: int| #[trigger] capped(value) <= value && capped(value) <= usize::MAX,
        forall|value: int| value <= usize::MAX ==> #[trigger] capped(value) == value,
{
    line_bytes_behind(first, rest, rest.len());
}

/// The bytes in the lines behind the first.
proof fn line_bytes_behind(first: Seq<u8>, rest: Seq<Seq<u8>>, count: nat)
    requires
        count <= rest.len(),
    ensures
        line_bytes(seq![first] + rest, (count + 1) as nat) == first.len() + line_bytes(rest, count),
    decreases count,
{
    let whole = seq![first] + rest;
    if count == 0 {
        assert(whole[0] == first);
        assert(line_bytes(whole, 0) == 0);
    } else {
        line_bytes_behind(first, rest, (count - 1) as nat);
        assert(whole[count as int] == rest[count - 1]);
    }
}

/// Output is positioned only in a pane beside others whose lines are all plain, with the
/// cursor inside it, and only where there is some output, all of it plain.
pub proof fn positioned_output_is_plain(snapshot: Snapshot, bytes: Seq<u8>, row: int)
    requires
        positioned(snapshot, bytes) is Some,
        0 <= row < snapshot.lines.len(),
    ensures
        bytes.len() > 0,
        snapshot.x != 0 || snapshot.cols != snapshot.terminal_cols,
        unstyled(snapshot.lines[row]),
        snapshot.y <= snapshot.cursor_row < snapshot.y + snapshot.rows,
        snapshot.x <= snapshot.cursor_col < snapshot.x + snapshot.cols,
        would_scroll(snapshot, bytes) is Some,
{
    let line = snapshot.lines[row];
    assert(plain_line(line));
    assert forall|i: int| 0 <= i < line.len() implies 0x20 <= #[trigger] line[i] <= 0x7e || line[i]
        == 0x09 by {
        assert(printable(line[i]) || line[i] == '\t' as u8);
    }
}

/// Typed text is echoed where it is printable, fits in the cursor's line, and the line is
/// plain, and nowhere else.
pub proof fn typed_text_is_echoed(snapshot: Snapshot, bytes: Seq<u8>)
    requires
        snapshot.y <= snapshot.cursor_row,
        snapshot.x <= snapshot.cursor_col,
    ensures
        echoed(snapshot, bytes) is Some <==> {
            &&& bytes.len() > 0
            &&& forall|i: int| 0 <= i < bytes.len() ==> 0x20 <= #[trigger] bytes[i] <= 0x7e
            &&& snapshot.cursor_row < snapshot.y + snapshot.rows
            &&& snapshot.cursor_row < snapshot.y + snapshot.lines.len()
            &&& snapshot.cursor_col + bytes.len() <= snapshot.x + snapshot.cols
            &&& unstyled(snapshot.lines[snapshot.cursor_row - snapshot.y])
        },
{
    let line = snapshot.lines[snapshot.cursor_row - snapshot.y];
    assert(forall|i: int|
        0 <= i < bytes.len() ==> (printable(#[trigger] bytes[i]) <==> 0x20 <= bytes[i] <= 0x7e));
    assert(unstyled(line) == plain_line(line)) by {
        assert(forall|i: int|
            0 <= i < line.len() ==> (printable(#[trigger] line[i]) <==> 0x20 <= line[i] <= 0x7e));
    }
}

/// Plain output that comes to a row without a line stops there: what was written before it
/// stays written, and the cursor and the revisions stay as they were.
#[verifier::rlimit(40)]
pub proof fn output_stops_at_an_absent_row(
    snapshot: Snapshot,
    start: Seq<u8>,
    byte: u8,
    rest: Seq<u8>,
)
    requires
        typed_in_line(
            Snapshot {
                lines: snapshot.lines + seq![Seq::<u8>::empty()],
                line_revisions: snapshot.line_revisions,
                ..snapshot
            },
            start,
        ),
        snapshot.cursor_row + 2 == snapshot.y + snapshot.rows,
        0x20 <= byte <= 0x7e,
        would_scroll(snapshot, start + seq![0x0du8, 0x0a, byte] + rest) is Some,
    ensures
        ({
            let (after, complete) = applied(snapshot, start + seq![0x0du8, 0x0a, byte] + rest);
            let (typed, _) = applied(snapshot, start);
            &&& !complete
            &&& after.lines == typed.lines
            &&& after.line_revisions == snapshot.line_revisions
            &&& after.cursor_row == snapshot.cursor_row
            &&& after.cursor_col == snapshot.cursor_col
            &&& after.cursor == snapshot.cursor
        }),
{
    let bytes = start + seq![0x0du8, 0x0a, byte] + rest;
    let row = snapshot.cursor_row - snapshot.y;
    let col = snapshot.cursor_col - snapshot.x;
    let count = start.len() as int;
    let writing = writing_to(snapshot);
    let lines = run_written(snapshot.lines, row, col, start, snapshot.cols as int)->0;
    let typed = Writing {
        pane: Snapshot { lines, ..snapshot },
        row: row as u16,
        col: (col + count) as u16,
        touched: Set::<int>::empty().insert(row),
    };
    assert forall|i: int| 0 <= i < count implies printable(#[trigger] start[i]) by {
        assert(0x20 <= start[i] <= 0x7e);
    }
    assert forall|i: int| 0 <= i < count implies printable(#[trigger] bytes[i]) by {
        assert(bytes[i] == start[i]);
    }
    assert(bytes.subrange(0, count) =~= start);
    assert(bytes.skip(0) =~= bytes);
    run_is_its_bytes(writing, bytes, 0, count);
    assert(start.subrange(0, count) =~= start);
    assert(start.skip(0) =~= start);
    run_is_its_bytes(writing, start, 0, count);
    assert(start.skip(count) =~= Seq::empty());
    assert(bytes_written(typed, Seq::empty()) == (typed, true));
    text_does_not_scroll(row, col, snapshot.rows as int, snapshot.cols as int, start);
    let tail = bytes.skip(count);
    assert(tail[0] == 0x0d && tail[1] == 0x0a && tail[2] == byte);
    let returned = Writing { col: 0, ..typed };
    let fed = Writing { row: (row + 1) as u16, ..returned };
    assert(tail.skip(1)[0] == 0x0a && tail.skip(1).skip(1)[0] == byte);
    assert(byte_written(typed, 0x0d) == Some(returned));
    assert(byte_written(returned, 0x0a) == Some(fed));
    assert(byte_written(fed, byte) is None);
    assert(bytes_written(fed, tail.skip(1).skip(1)) == (fed, false));
    assert(bytes_written(returned, tail.skip(1)) == (fed, false));
    assert(bytes_written(typed, tail) == (fed, false));
}

/// Output that is not plain changes nothing.
pub proof fn other_output_is_not_applied(snapshot: Snapshot, bytes: Seq<u8>)
    requires
        would_scroll(snapshot, bytes) is None,
    ensures
        applied(snapshot, bytes) == (snapshot, false),
        positioned(snapshot, bytes) is None,
        !forwardable(snapshot, bytes),
{
}

/// Where cells are selected and the screen has a style for them, the capture shows the first
/// lines of the styled screen; otherwise it shows the first visible rows that could be
/// rendered. It never shows more lines than there are rows.
pub proof fn captures_show_the_first_rows(
    selection: Seq<Seq<u8>>,
    visible: Seq<Option<Vec<u8>>>,
    rows: u16,
    row: int,
)
    requires
        0 <= row < rows,
    ensures
        ({
            let styled = shown_lines(true, Some(selection), visible, rows);
            &&& styled.len() == (if selection.len() < rows {
                selection.len()
            } else {
                rows as nat
            })
            &&& row < selection.len() ==> styled[row] == selection[row]
        }),
        shown_lines(false, Some(selection), visible, rows) == shown_lines(
            false,
            None,
            visible,
            rows,
        ),
        shown_lines(true, None, visible, rows) == shown_lines(false, None, visible, rows),
        visible.len() <= rows ==> shown_lines(false, None, visible, rows) == present(visible),
        visible.len() > rows ==> shown_lines(false, None, visible, rows) == present(
            visible.take(rows as int),
        ),
{
}

/// The room for a frame grows with what is drawn: it is that of the lines and the
/// scrollbar, sixteen bytes for each row, and thirty-two more.
pub proof fn room_grows_with_the_pane(snapshot: Snapshot, scrollbar: Seq<u8>, rows: u16)
    requires
        line_bytes(snapshot.lines, snapshot.lines.len()) + 16 * rows + scrollbar.len() + 32
            <= usize::MAX,
    ensures
        ({
            let bare = Snapshot { scrollbar: None, rows, ..snapshot };
            let barred = Snapshot { scrollbar: Some(scrollbar), rows, ..snapshot };
            let none = Snapshot { scrollbar: None, rows: 0, lines: Seq::empty(), ..snapshot };
            &&& capacity(barred) == capacity(bare) + scrollbar.len()
            &&& capacity(none) == 32
            &&& capacity(bare) == 32 + 16 * rows + line_bytes(
                snapshot.lines,
                snapshot.lines.len(),
            )
        }),
{
}

} // verus!
