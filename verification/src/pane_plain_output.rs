//! Plain output: text without sequences that a pane's program writes, applied to a
//! snapshot without capturing the pane anew.
use crate::bytes::push_bytes;
use crate::cursor::{capped_sum, position, push_cursor_position, replace_cursor_position_bytes};
use crate::line_delta::{
    fresh_revision, is_plain_ascii_render_line, is_printable, next_synthetic_line_revision,
    plain_line, printable,
};
use crate::pane_delta::{plain_style, push_frame_start, push_restore, restore, save_and_hide};
use crate::pane_snapshot::{PaneRenderSnapshot, Snapshot};
use std::sync::Arc;
use vstd::prelude::*;

verus! {

/// The difference of two coordinates, held at zero.
pub open spec fn floored_difference(left: u16, right: u16) -> u16 {
    if left < right {
        0
    } else {
        (left - right) as u16
    }
}

/// The row of the pane that the cursor is in.
pub open spec fn cursor_row_within(snapshot: Snapshot) -> u16 {
    floored_difference(snapshot.cursor_row, snapshot.y)
}

/// The column of the pane that the cursor is in.
pub open spec fn cursor_col_within(snapshot: Snapshot) -> u16 {
    floored_difference(snapshot.cursor_col, snapshot.x)
}

/// Whether writing `bytes` from a cell scrolls the pane; none where they hold
/// anything but printable text and line ends, or overrun a line.
pub open spec fn scrolls_from(row: int, col: int, rows: int, cols: int, bytes: Seq<u8>) -> Option<
    bool,
>
    decreases bytes.len(),
{
    if bytes.len() == 0 {
        Some(false)
    } else {
        let rest = bytes.skip(1);
        if bytes[0] == '\r' as u8 {
            scrolls_from(row, 0, rows, cols, rest)
        } else if bytes[0] == '\n' as u8 {
            if row + 1 < rows {
                scrolls_from(row + 1, col, rows, cols, rest)
            } else if scrolls_from(row, col, rows, cols, rest) is Some {
                Some(true)
            } else {
                None
            }
        } else if printable(bytes[0]) && col < cols {
            scrolls_from(row, col + 1, rows, cols, rest)
        } else {
            None
        }
    }
}

/// Whether writing `bytes` to the pane scrolls it; none where they are not plain or
/// the cursor is outside the pane.
pub open spec fn would_scroll(snapshot: Snapshot, bytes: Seq<u8>) -> Option<bool> {
    let row = cursor_row_within(snapshot);
    let col = cursor_col_within(snapshot);
    if row < snapshot.rows && col < snapshot.cols {
        scrolls_from(
            row as int,
            col as int,
            snapshot.rows as int,
            snapshot.cols as int,
            bytes,
        )
    } else {
        None
    }
}

/// The pane spans the height of its terminal.
pub open spec fn full_height(snapshot: Snapshot) -> bool {
    snapshot.y == 0 && snapshot.rows == snapshot.terminal_rows
}

/// Writing `bytes` to the terminal itself has the effect of writing them to the pane.
pub open spec fn forwardable(snapshot: Snapshot, bytes: Seq<u8>) -> bool {
    &&& snapshot.full_width()
    &&& would_scroll(snapshot, bytes) is Some
    &&& would_scroll(snapshot, bytes)->0 ==> full_height(snapshot)
}

/// The line with spaces appended up to the width of the pane.
pub open spec fn padded(line: Seq<u8>, cols: int) -> Seq<u8> {
    if line.len() < cols {
        line + Seq::new((cols - line.len()) as nat, |i: int| ' ' as u8)
    } else {
        line
    }
}

/// The line with `run` written over it from a column on.
pub open spec fn overwritten(line: Seq<u8>, col: int, run: Seq<u8>, cols: int) -> Seq<u8> {
    let whole = padded(line, cols);
    Seq::new(
        whole.len(),
        |i: int|
            if col <= i < col + run.len() {
                run[i - col]
            } else {
                whole[i]
            },
    )
}

/// The lines with `run` written from a cell on; none where the row is absent or the
/// run does not fit.
pub open spec fn run_written(
    lines: Seq<Seq<u8>>,
    row: int,
    col: int,
    run: Seq<u8>,
    cols: int,
) -> Option<Seq<Seq<u8>>> {
    if row < lines.len() && col + run.len() <= cols {
        Some(lines.update(row, overwritten(lines[row], col, run, cols)))
    } else {
        None
    }
}

/// The lines after a scroll by one: the first is gone and an empty one comes in.
pub open spec fn scrolled_lines(lines: Seq<Seq<u8>>) -> Seq<Seq<u8>> {
    if lines.len() == 0 {
        lines
    } else {
        lines.skip(1).push(Seq::empty())
    }
}

/// The revisions after a scroll by one: the first is gone and a fresh one comes in.
pub open spec fn scrolled_revisions(lines: Seq<Seq<u8>>, revisions: Seq<u64>) -> Seq<u64> {
    if lines.len() == 0 || revisions.len() == 0 {
        revisions
    } else {
        revisions.skip(1).push(fresh_revision(revisions.skip(1)))
    }
}

/// The snapshot after a scroll by one.
pub open spec fn scrolled_up(snapshot: Snapshot) -> Snapshot {
    Snapshot {
        lines: scrolled_lines(snapshot.lines),
        line_revisions: scrolled_revisions(snapshot.lines, snapshot.line_revisions),
        ..snapshot
    }
}

/// A pane while plain output is written to it.
#[verifier::ext_equal]
pub struct Writing {
    /// The snapshot so far.
    pub pane: Snapshot,
    /// The row of the pane that the cursor is in.
    pub row: u16,
    /// The column of the pane that the cursor is in.
    pub col: u16,
    /// The rows that were written to.
    pub touched: Set<int>,
}

/// The pane before plain output is written.
pub open spec fn writing_to(snapshot: Snapshot) -> Writing {
    Writing {
        pane: snapshot,
        row: cursor_row_within(snapshot),
        col: cursor_col_within(snapshot),
        touched: Set::empty(),
    }
}

/// The pane after one more byte; none where the byte cannot be written.
pub open spec fn byte_written(writing: Writing, byte: u8) -> Option<Writing> {
    let pane = writing.pane;
    if byte == '\r' as u8 {
        Some(Writing { col: 0, ..writing })
    } else if byte == '\n' as u8 {
        if writing.row + 1 >= pane.rows {
            Some(
                Writing {
                    pane: scrolled_up(pane),
                    row: floored_difference(pane.rows, 1),
                    ..writing
                },
            )
        } else {
            Some(Writing { row: (writing.row + 1) as u16, ..writing })
        }
    } else if printable(byte) {
        match run_written(
            pane.lines,
            writing.row as int,
            writing.col as int,
            seq![byte],
            pane.cols as int,
        ) {
            Some(lines) => Some(
                Writing {
                    pane: Snapshot { lines, ..pane },
                    row: writing.row,
                    col: (writing.col + 1) as u16,
                    touched: writing.touched.insert(writing.row as int),
                },
            ),
            None => None,
        }
    } else {
        None
    }
}

/// The pane after as many of `bytes` as can be written, and whether all could.
pub open spec fn bytes_written(writing: Writing, bytes: Seq<u8>) -> (Writing, bool)
    decreases bytes.len(),
{
    if bytes.len() == 0 {
        (writing, true)
    } else {
        match byte_written(writing, bytes[0]) {
            Some(after) => bytes_written(after, bytes.skip(1)),
            None => (writing, false),
        }
    }
}

/// A revision with one more change counted.
pub open spec fn next_generation(revision: u64) -> u64 {
    if revision == u64::MAX {
        revision
    } else {
        (revision + 1) as u64
    }
}

/// The revisions with one change counted for every row that was written to.
pub open spec fn bumped(revisions: Seq<u64>, touched: Set<int>) -> Seq<u64> {
    Seq::new(
        revisions.len(),
        |row: int|
            if touched.contains(row) {
                next_generation(revisions[row])
            } else {
                revisions[row]
            },
    )
}

/// The snapshot once all output is written: revisions counted, cursor moved.
pub open spec fn settled(writing: Writing) -> Snapshot {
    let pane = writing.pane;
    let cursor_row = capped_sum(pane.y, writing.row);
    let cursor_col = capped_sum(pane.x, writing.col);
    Snapshot {
        line_revisions: bumped(pane.line_revisions, writing.touched),
        cursor_row,
        cursor_col,
        cursor: position(cursor_row, cursor_col),
        ..pane
    }
}

/// The snapshot after plain output, and whether all of it was applied. Output that
/// is not plain changes nothing; where a row is absent, what came before it stays
/// written.
pub open spec fn applied(snapshot: Snapshot, bytes: Seq<u8>) -> (Snapshot, bool) {
    if would_scroll(snapshot, bytes) is None {
        (snapshot, false)
    } else {
        let (writing, complete) = bytes_written(writing_to(snapshot), bytes);
        if complete {
            (settled(writing), true)
        } else {
            (writing.pane, false)
        }
    }
}

/// The number of printable bytes from `from` on.
pub open spec fn run_end(bytes: Seq<u8>, from: int) -> int
    decreases bytes.len() - from,
{
    if from < 0 || from >= bytes.len() || !printable(bytes[from]) {
        from
    } else {
        run_end(bytes, from + 1)
    }
}

/// The pane after `bytes` are written from `from` on and the bytes that write them
/// to the terminal, each run of text at its own position; none where they scroll
/// the pane or cannot be written.
pub open spec fn runs_written(writing: Writing, bytes: Seq<u8>, from: int) -> Option<
    (Writing, Seq<u8>),
>
    decreases bytes.len() - from,
    via runs_shrink
{
    let pane = writing.pane;
    if from < 0 || from >= bytes.len() {
        Some((writing, Seq::empty()))
    } else if bytes[from] == '\r' as u8 {
        runs_written(Writing { col: 0, ..writing }, bytes, from + 1)
    } else if bytes[from] == '\n' as u8 {
        if writing.row + 1 >= pane.rows {
            None
        } else {
            runs_written(Writing { row: (writing.row + 1) as u16, ..writing }, bytes, from + 1)
        }
    } else if printable(bytes[from]) {
        let end = run_end(bytes, from);
        let run = bytes.subrange(from, end);
        match run_written(
            pane.lines,
            writing.row as int,
            writing.col as int,
            run,
            pane.cols as int,
        ) {
            Some(lines) => {
                let after = Writing {
                    pane: Snapshot { lines, ..pane },
                    row: writing.row,
                    col: (writing.col + run.len()) as u16,
                    touched: writing.touched.insert(writing.row as int),
                };
                match runs_written(after, bytes, end) {
                    Some((last, frame)) => Some(
                        (
                            last,
                            position(
                                capped_sum(pane.y, writing.row),
                                capped_sum(pane.x, writing.col),
                            ) + run + frame,
                        ),
                    ),
                    None => None,
                }
            },
            None => None,
        }
    } else {
        None
    }
}

#[via_fn]
proof fn runs_shrink(writing: Writing, bytes: Seq<u8>, from: int) {
    if 0 <= from < bytes.len() && printable(bytes[from]) {
        run_end_advances(bytes, from);
    }
}

/// A run covers printable bytes only and stops at the first other one.
pub proof fn run_end_advances(bytes: Seq<u8>, from: int)
    requires
        0 <= from <= bytes.len(),
    ensures
        from <= run_end(bytes, from) <= bytes.len(),
        from < bytes.len() && printable(bytes[from]) ==> from < run_end(bytes, from),
        forall|i: int| from <= i < run_end(bytes, from) ==> printable(#[trigger] bytes[i]),
        run_end(bytes, from) < bytes.len() ==> !printable(bytes[run_end(bytes, from)]),
    decreases bytes.len() - from,
{
    if from < bytes.len() && printable(bytes[from]) {
        run_end_advances(bytes, from + 1);
    }
}

/// The text of a pane beside others can be positioned: there is some, it is plain,
/// and so is all that the pane shows.
pub open spec fn positionable(snapshot: Snapshot, bytes: Seq<u8>) -> bool {
    &&& bytes.len() > 0
    &&& !snapshot.full_width()
    &&& would_scroll(snapshot, bytes) is Some
    &&& forall|row: int|
        0 <= row < snapshot.lines.len() ==> plain_line(#[trigger] snapshot.lines[row])
    &&& snapshot.cursor_row >= snapshot.y
    &&& snapshot.cursor_col >= snapshot.x
}

/// The snapshot after positioned output and the frame that writes it; none where it
/// cannot be positioned.
pub open spec fn positioned(snapshot: Snapshot, bytes: Seq<u8>) -> Option<(Snapshot, Seq<u8>)> {
    if !positionable(snapshot, bytes) {
        None
    } else {
        match runs_written(writing_to(snapshot), bytes, 0) {
            Some((writing, runs)) => Some(
                (
                    settled(writing),
                    save_and_hide() + plain_style() + runs + restore() + settled(
                        writing,
                    ).final_cursor_state(),
                ),
            ),
            None => None,
        }
    }
}

/// Typed text can be echoed at the cursor: it is printable, fits in the line, and
/// the line is plain.
pub open spec fn echoable(snapshot: Snapshot, bytes: Seq<u8>) -> bool {
    let row = snapshot.cursor_row - snapshot.y;
    let col = snapshot.cursor_col - snapshot.x;
    &&& bytes.len() > 0
    &&& forall|i: int| 0 <= i < bytes.len() ==> printable(#[trigger] bytes[i])
    &&& 0 <= row < snapshot.rows
    &&& 0 <= col < snapshot.cols
    &&& col + bytes.len() <= snapshot.cols
    &&& row < snapshot.lines.len()
    &&& plain_line(snapshot.lines[row])
}

/// The frame that echoes typed text at the cursor and leaves the cursor behind it; none
/// where it cannot be echoed.
pub open spec fn echoed(snapshot: Snapshot, bytes: Seq<u8>) -> Option<Seq<u8>> {
    if echoable(snapshot, bytes) {
        Some(
            position(snapshot.cursor_row, snapshot.cursor_col) + bytes + position(
                snapshot.cursor_row,
                (snapshot.cursor_col + bytes.len()) as u16,
            ),
        )
    } else {
        None
    }
}

/// The rows that a list names.
pub open spec fn rows_named(touched: Seq<usize>) -> Set<int> {
    Set::new(|row: int| exists|i: int| 0 <= i < touched.len() && #[trigger] touched[i] == row)
}

/// The list names no row twice.
pub open spec fn names_once(touched: Seq<usize>) -> bool {
    forall|i: int, j: int| 0 <= i < j < touched.len() ==> touched[i] != touched[j]
}

/// The list with a row named in it, once.
pub open spec fn with_row(touched: Seq<usize>, row: usize) -> Seq<usize> {
    if rows_named(touched).contains(row as int) {
        touched
    } else {
        touched.push(row)
    }
}

/// Naming a row adds it to the rows named and names no row twice.
proof fn naming_a_row(touched: Seq<usize>, row: usize)
    requires
        names_once(touched),
    ensures
        names_once(with_row(touched, row)),
        rows_named(with_row(touched, row)) == rows_named(touched).insert(row as int),
{
    let named = with_row(touched, row);
    assert forall|other: int| rows_named(named).contains(other) == rows_named(touched).insert(
        row as int,
    ).contains(other) by {
        if rows_named(touched).contains(other) {
            let i = choose|i: int| 0 <= i < touched.len() && #[trigger] touched[i] == other;
            assert(named[i] == other);
        } else if other == row {
            assert(named[touched.len() as int] == other);
        }
    }
    assert(rows_named(named) =~= rows_named(touched).insert(row as int));
    assert forall|i: int, j: int| 0 <= i < j < named.len() implies named[i] != named[j] by {
        if j == touched.len() {
            assert(touched[i] == named[i]);
        }
    }
}

/// Whether the list names a row.
fn names_row(touched: &Vec<usize>, row: usize) -> (found: bool)
    ensures
        found == rows_named(touched@).contains(row as int),
{
    let mut index: usize = 0;
    while index < touched.len()
        invariant
            index <= touched@.len(),
            forall|i: int| 0 <= i < index ==> touched@[i] != row,
        decreases touched@.len() - index,
    {
        if touched[index] == row {
            assert(touched@[index as int] == row);
            return true;
        }
        index = index + 1;
    }
    false
}

impl PaneRenderSnapshot {
    /// Whether the pane spans the height of its terminal.
    pub fn covers_full_terminal_height(&self) -> (covers: bool)
        ensures
            covers == full_height(self@),
    {
        self.y == 0 && self.rows == self.terminal_rows
    }

    /// Whether writing `bytes` scrolls the pane, where they are plain.
    pub fn plain_bytes_would_scroll(&self, bytes: &[u8]) -> (scrolls: Option<bool>)
        ensures
            scrolls == would_scroll(self@, bytes@),
    {
        let mut row: u16 = self.cursor_row.saturating_sub(self.y);
        let mut col: u16 = self.cursor_col.saturating_sub(self.x);
        if row >= self.rows || col >= self.cols {
            return None;
        }
        let mut index: usize = 0;
        let mut scrolls: bool = false;
        assert(bytes@.skip(0) =~= bytes@);
        while index < bytes.len()
            invariant
                index <= bytes@.len(),
                row < self.rows,
                col <= self.cols,
                would_scroll(self@, bytes@) == ({
                    let rest = scrolls_from(
                        row as int,
                        col as int,
                        self.rows as int,
                        self.cols as int,
                        bytes@.skip(index as int),
                    );
                    if rest is Some && scrolls { Some(true) } else { rest }
                }),
            decreases bytes@.len() - index,
        {
            let byte: u8 = bytes[index];
            assert(bytes@.skip(index as int).skip(1) =~= bytes@.skip(index + 1));
            assert(bytes@.skip(index as int)[0] == byte);
            if byte == '\r' as u8 {
                col = 0;
            } else if byte == '\n' as u8 {
                if row.saturating_add(1) < self.rows {
                    row = row.saturating_add(1);
                } else {
                    scrolls = true;
                }
            } else if is_printable(byte) {
                if col >= self.cols {
                    return None;
                }
                col = col.saturating_add(1);
            } else {
                return None;
            }
            index = index + 1;
        }
        Some(scrolls)
    }

    /// Whether writing `bytes` to the terminal has the effect of writing them to the
    /// pane.
    pub fn can_forward_plain_bytes(&self, bytes: &[u8]) -> (can: bool)
        ensures
            can == forwardable(self@, bytes@),
    {
        if self.x != 0 || self.cols != self.terminal_cols {
            return false;
        }
        match self.plain_bytes_would_scroll(bytes) {
            Some(scrolls) => !scrolls || self.covers_full_terminal_height(),
            None => false,
        }
    }

    /// Whether `bytes` are plain and start inside the pane.
    pub fn can_apply_plain_bytes_to_snapshot(&self, bytes: &[u8]) -> (can: bool)
        ensures
            can == would_scroll(self@, bytes@) is Some,
    {
        self.plain_bytes_would_scroll(bytes).is_some()
    }

    /// The frame that echoes typed text at the cursor, where it can be echoed.
    pub fn positioned_plain_echo_frame(&self, bytes: &[u8]) -> (frame: Option<Vec<u8>>)
        requires
            echoable(self@, bytes@) ==> self@.cursor_col + bytes@.len() <= u16::MAX,
        ensures
            frame is Some == echoable(self@, bytes@),
            frame is Some ==> frame->0@ == position(self@.cursor_row, self@.cursor_col) + bytes@
                + position(self@.cursor_row, (self@.cursor_col + bytes@.len()) as u16),
            frame is Some ==> echoed(self@, bytes@) == Some(frame->0@),
            frame is None ==> echoed(self@, bytes@) is None,
    {
        if bytes.len() == 0 {
            return None;
        }
        let mut index: usize = 0;
        while index < bytes.len()
            invariant
                index <= bytes@.len(),
                forall|i: int| 0 <= i < index ==> printable(#[trigger] bytes@[i]),
            decreases bytes@.len() - index,
        {
            if !is_printable(bytes[index]) {
                return None;
            }
            index = index + 1;
        }
        if self.cursor_row < self.y || self.cursor_col < self.x {
            return None;
        }
        let row: u16 = self.cursor_row - self.y;
        let col: u16 = self.cursor_col - self.x;
        if row >= self.rows || col >= self.cols {
            return None;
        }
        if bytes.len() > (self.cols - col) as usize {
            return None;
        }
        let next_col: u16 = col + bytes.len() as u16;
        if row as usize >= self.lines.len() {
            return None;
        }
        assert(self@.lines[row as int] == self.lines@[row as int]@);
        if !is_plain_ascii_render_line(self.lines[row as usize].as_slice()) {
            return None;
        }
        let mut frame: Vec<u8> = Vec::new();
        push_cursor_position(&mut frame, self.cursor_row, self.cursor_col);
        push_bytes(&mut frame, bytes);
        push_cursor_position(&mut frame, self.cursor_row, self.x + next_col);
        assert(frame@ =~= position(self@.cursor_row, self@.cursor_col) + bytes@ + position(
            self@.cursor_row,
            (self@.cursor_col + bytes@.len()) as u16,
        ));
        Some(frame)
    }

    /// Writes a run of text over a line, which is padded to the width of the pane
    /// first, and names its row in `touched_rows`.
    pub fn apply_plain_run_to_snapshot(
        &mut self,
        row_index: usize,
        col_index: usize,
        bytes: &[u8],
        touched_rows: &mut Vec<usize>,
    ) -> (done: Option<()>)
        ensures
            match run_written(
                old(self)@.lines,
                row_index as int,
                col_index as int,
                bytes@,
                old(self)@.cols as int,
            ) {
                Some(lines) => {
                    &&& done is Some
                    &&& final(self)@ == (Snapshot { lines, ..old(self)@ })
                    &&& final(touched_rows)@ == with_row(old(touched_rows)@, row_index)
                },
                None => {
                    &&& done is None
                    &&& *final(self) == *old(self)
                    &&& *final(touched_rows) == *old(touched_rows)
                },
            },
    {
        let cols: usize = self.cols as usize;
        if row_index >= self.lines.len() || col_index > cols || bytes.len() > cols - col_index {
            return None;
        }
        let end: usize = col_index + bytes.len();
        let ghost before = self@;
        let ghost target = overwritten(
            self@.lines[row_index as int],
            col_index as int,
            bytes@,
            cols as int,
        );
        assert(self@.lines[row_index as int] == self.lines@[row_index as int]@);
        let mut line: Vec<u8> = Vec::new();
        push_bytes(&mut line, self.lines[row_index].as_slice());
        assert(line@ =~= self.lines@[row_index as int]@);
        let ghost original = line@;
        while line.len() < cols
            invariant
                original.len() <= line@.len(),
                line@.len() <= cols || line@ == original,
                forall|i: int| 0 <= i < original.len() ==> line@[i] == original[i],
                forall|i: int| original.len() <= i < line@.len() ==> line@[i] == ' ' as u8,
            decreases cols - line@.len(),
        {
            line.push(' ' as u8);
        }
        assert(line@ =~= padded(original, cols as int));
        let ghost whole = line@;
        let mut col: usize = col_index;
        while col < end
            invariant
                col_index <= col <= end,
                end == col_index + bytes@.len(),
                end <= cols <= line@.len(),
                line@.len() == whole.len(),
                forall|i: int|
                    0 <= i < whole.len() ==> line@[i] == (if col_index <= i < col {
                        bytes@[i - col_index]
                    } else {
                        whole[i]
                    }),
            decreases end - col,
        {
            line.set(col, bytes[col - col_index]);
            col = col + 1;
        }
        assert(line@ =~= target);
        self.lines.set(row_index, Arc::new(line));
        assert(self@.lines =~= before.lines.update(row_index as int, target));
        if !names_row(touched_rows, row_index) {
            touched_rows.push(row_index);
        }
        Some(())
    }

    /// Scrolls the snapshot up by one row.
    pub fn scroll_snapshot_up_one(&mut self)
        ensures
            final(self)@ == scrolled_up(old(self)@),
    {
        if self.lines.len() == 0 {
            return;
        }
        let ghost before = self@;
        let _ = self.lines.remove(0);
        let empty: Vec<u8> = Vec::new();
        assert(empty@ =~= Seq::empty());
        self.lines.push(Arc::new(empty));
        assert(self@.lines =~= scrolled_lines(before.lines));
        if self.line_revisions.len() != 0 {
            let _ = self.line_revisions.remove(0);
            assert(self.line_revisions@ =~= before.line_revisions.skip(1));
            let revision: u64 = next_synthetic_line_revision(self.line_revisions.as_slice());
            self.line_revisions.push(revision);
        }
    }

    /// Counts one change for every row named.
    fn bump_revisions(&mut self, touched: &Vec<usize>)
        requires
            names_once(touched@),
        ensures
            final(self)@ == (Snapshot {
                line_revisions: bumped(old(self)@.line_revisions, rows_named(touched@)),
                ..old(self)@
            }),
    {
        let ghost before = self@;
        let mut index: usize = 0;
        assert(self.line_revisions@ =~= bumped(
            before.line_revisions,
            rows_named(touched@.take(0)),
        ));
        while index < touched.len()
            invariant
                index <= touched@.len(),
                names_once(touched@),
                self@ == (Snapshot {
                    line_revisions: bumped(
                        before.line_revisions,
                        rows_named(touched@.take(index as int)),
                    ),
                    ..before
                }),
            decreases touched@.len() - index,
        {
            let row: usize = touched[index];
            let ghost done = touched@.take(index as int);
            proof {
                assert(!rows_named(done).contains(row as int));
                naming_a_row(done, row);
                assert(touched@.take(index + 1) =~= done.push(row));
            }
            if row < self.line_revisions.len() {
                let revision: u64 = self.line_revisions[row];
                self.line_revisions.set(row, revision.saturating_add(1));
            }
            index = index + 1;
        }
        assert(touched@.take(index as int) =~= touched@);
    }

    /// Counts the changes of the rows named and moves the cursor.
    fn settle(&mut self, row: u16, col: u16, touched: &Vec<usize>)
        requires
            names_once(touched@),
        ensures
            final(self)@ == settled(
                Writing { pane: old(self)@, row, col, touched: rows_named(touched@) },
            ),
    {
        self.bump_revisions(touched);
        self.cursor_row = self.y.saturating_add(row);
        self.cursor_col = self.x.saturating_add(col);
        replace_cursor_position_bytes(&mut self.cursor, self.cursor_row, self.cursor_col);
    }

    /// Puts a snapshot back as it was.
    pub fn restore_positioned_plain_output(&mut self, original: Self) -> (frame: Option<Vec<u8>>)
        ensures
            frame is None,
            final(self)@ == original@,
    {
        *self = original;
        None
    }

    /// Applies plain output that was forwarded to the terminal, and tells whether all
    /// of it was applied.
    pub fn apply_forwarded_plain_bytes(&mut self, bytes: &[u8]) -> (complete: bool)
        ensures
            (final(self)@, complete) == applied(old(self)@, bytes@),
    {
        if !self.can_apply_plain_bytes_to_snapshot(bytes) {
            return false;
        }
        let ghost before = self@;
        let mut row: u16 = self.cursor_row.saturating_sub(self.y);
        let mut col: u16 = self.cursor_col.saturating_sub(self.x);
        let mut touched: Vec<usize> = Vec::new();
        let mut index: usize = 0;
        assert(rows_named(touched@) =~= Set::empty());
        assert(bytes@.skip(0) =~= bytes@);
        while index < bytes.len()
            invariant
                index <= bytes@.len(),
                names_once(touched@),
                would_scroll(before, bytes@) is Some,
                before == old(self)@,
                bytes_written(writing_to(before), bytes@) == bytes_written(
                    Writing { pane: self@, row, col, touched: rows_named(touched@) },
                    bytes@.skip(index as int),
                ),
            decreases bytes@.len() - index,
        {
            let byte: u8 = bytes[index];
            let ghost rest = bytes@.skip(index as int);
            assert(rest.skip(1) =~= bytes@.skip(index + 1));
            assert(rest[0] == byte);
            if byte == '\r' as u8 {
                col = 0;
            } else if byte == '\n' as u8 {
                if row.saturating_add(1) >= self.rows {
                    self.scroll_snapshot_up_one();
                    row = self.rows.saturating_sub(1);
                } else {
                    row = row.saturating_add(1);
                }
            } else if is_printable(byte) {
                let run: [u8; 1] = [byte];
                assert(run@ =~= seq![byte]);
                proof {
                    naming_a_row(touched@, row as usize);
                }
                if self.apply_plain_run_to_snapshot(row as usize, col as usize, &run, &mut touched)
                    .is_none() {
                    return false;
                }
                col = col.saturating_add(1);
            } else {
                return false;
            }
            index = index + 1;
        }
        self.settle(row, col, &touched);
        true
    }

    /// Applies plain output to the snapshot of a pane beside others, and gives the
    /// frame that writes it to the terminal.
    ///
    /// Output that cannot be positioned leaves the snapshot as it was.
    pub fn positioned_plain_output_frame(&mut self, bytes: &[u8]) -> (frame: Option<Vec<u8>>)
        ensures
            match positioned(old(self)@, bytes@) {
                Some((snapshot, written)) => frame is Some && frame->0@ == written && final(self)@
                    == snapshot,
                None => frame is None && final(self)@ == old(self)@,
            },
    {
        if bytes.len() == 0 || (self.x == 0 && self.cols == self.terminal_cols) {
            return None;
        }
        if !self.can_apply_plain_bytes_to_snapshot(bytes) || !self.lines_are_plain() {
            return None;
        }
        if self.cursor_row < self.y || self.cursor_col < self.x {
            return None;
        }
        let ghost before = self@;
        let original: Self = self.clone();
        let mut row: u16 = self.cursor_row - self.y;
        let mut col: u16 = self.cursor_col - self.x;
        let mut frame: Vec<u8> = Vec::new();
        push_frame_start(&mut frame);
        let ghost start = save_and_hide() + plain_style();
        assert(frame@ =~= start);
        let mut touched: Vec<usize> = Vec::new();
        let mut index: usize = 0;
        assert(rows_named(touched@) =~= Set::empty());
        let ghost mut runs = Seq::<u8>::empty();
        while index < bytes.len()
            invariant
                index <= bytes@.len(),
                names_once(touched@),
                positionable(before, bytes@),
                before == old(self)@,
                original@ == before,
                self.x == before.x,
                self.y == before.y,
                self.rows == before.rows,
                self.cols == before.cols,
                frame@ == start + runs,
                start == save_and_hide() + plain_style(),
                runs_written(writing_to(before), bytes@, 0) == ({
                    let rest = runs_written(
                        Writing { pane: self@, row, col, touched: rows_named(touched@) },
                        bytes@,
                        index as int,
                    );
                    match rest {
                        Some((writing, written)) => Some((writing, runs + written)),
                        None => None,
                    }
                }),
            decreases bytes@.len() - index,
        {
            let byte: u8 = bytes[index];
            if byte == '\r' as u8 {
                col = 0;
                index = index + 1;
            } else if byte == '\n' as u8 {
                if row.saturating_add(1) >= self.rows {
                    return self.restore_positioned_plain_output(original);
                }
                row = row.saturating_add(1);
                index = index + 1;
            } else if is_printable(byte) {
                let end: usize = Self::printable_run_end(bytes, index);
                let run: &[u8] = &bytes[index..end];
                assert(run@ =~= bytes@.subrange(index as int, end as int));
                let ghost here = position(capped_sum(self.y, row), capped_sum(self.x, col));
                proof {
                    naming_a_row(touched@, row as usize);
                }
                if self.apply_plain_run_to_snapshot(row as usize, col as usize, run, &mut touched)
                    .is_none() {
                    return self.restore_positioned_plain_output(original);
                }
                push_cursor_position(
                    &mut frame,
                    self.y.saturating_add(row),
                    self.x.saturating_add(col),
                );
                push_bytes(&mut frame, run);
                assert forall|tail: Seq<u8>| #[trigger] (runs + (here + run@ + tail)) == (runs + here
                    + run@) + tail by {
                    assert(runs + (here + run@ + tail) =~= (runs + here + run@) + tail);
                }
                proof {
                    runs = runs + here + run@;
                }
                assert(frame@ =~= start + runs);
                col = col + run.len() as u16;
                index = end;
            } else {
                return self.restore_positioned_plain_output(original);
            }
        }
        self.settle(row, col, &touched);
        push_restore(&mut frame);
        self.append_final_cursor_state(&mut frame);
        proof {
            let (_, written) = positioned(before, bytes@)->0;
            assert(frame@ =~= written);
        }
        Some(frame)
    }

    /// Where the run of printable bytes that starts at `from` ends.
    fn printable_run_end(bytes: &[u8], from: usize) -> (end: usize)
        requires
            from < bytes@.len(),
            printable(bytes@[from as int]),
        ensures
            end == run_end(bytes@, from as int),
            from < end <= bytes@.len(),
    {
        let mut end: usize = from;
        while end < bytes.len() && is_printable(bytes[end])
            invariant
                from <= end <= bytes@.len(),
                run_end(bytes@, from as int) == run_end(bytes@, end as int),
            decreases bytes@.len() - end,
        {
            end = end + 1;
        }
        proof {
            run_end_advances(bytes@, from as int);
        }
        end
    }

    /// Whether all that the pane shows is plain.
    fn lines_are_plain(&self) -> (plain: bool)
        ensures
            plain == forall|row: int|
                0 <= row < self@.lines.len() ==> plain_line(#[trigger] self@.lines[row]),
    {
        let mut row: usize = 0;
        while row < self.lines.len()
            invariant
                row <= self.lines@.len(),
                forall|i: int| 0 <= i < row ==> plain_line(#[trigger] self@.lines[i]),
            decreases self.lines@.len() - row,
        {
            assert(self@.lines[row as int] == self.lines@[row as int]@);
            if !is_plain_ascii_render_line(self.lines[row].as_slice()) {
                return false;
            }
            row = row + 1;
        }
        true
    }
}

} // verus!
