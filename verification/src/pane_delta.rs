//! Pane deltas: the bytes that turn what a terminal shows into the next snapshot.
use crate::bytes::{decimal, push_bytes, push_decimal, same_bytes, ESC};
use crate::cursor::{capped_sum, position, push_cursor_position};
use crate::line_delta::{
    compact_plain_ascii_line_delta, compacted, differs_elsewhere, is_plain_ascii_render_line,
    larger, line_contents, line_or, other_rows_changed, plain_line, trim_trailing_ascii_spaces_len,
    visible_len,
};
use crate::pane_snapshot::{
    hide_cursor, scrollbar_contents, PaneRenderSnapshot, RenderedPaneScrollbar, Snapshot,
};
use std::sync::Arc;
use vstd::prelude::*;

verus! {

/// How a terminal is brought up to date with a pane.
#[derive(Debug, Clone, PartialEq, Eq)]
pub enum PaneRenderDelta {
    /// Writing the frame is enough.
    Incremental(PaneRenderDeltaFrame),
    /// The pane has to be drawn anew.
    RequiresFullRefresh,
}

/// Bytes to write to a terminal, and the cursor shape to set after them.
#[derive(Debug, Clone, PartialEq, Eq)]
pub struct PaneRenderDeltaFrame {
    frame: Vec<u8>,
    cursor_style: Option<u32>,
}

impl PaneRenderDeltaFrame {
    /// The bytes of the frame.
    pub closed spec fn bytes(self) -> Seq<u8> {
        self.frame@
    }

    /// The cursor shape to set, where it changes.
    pub closed spec fn style(self) -> Option<u32> {
        self.cursor_style
    }

    /// Makes a frame.
    pub fn new(frame: Vec<u8>, cursor_style: Option<u32>) -> (made: Self)
        ensures
            made.bytes() == frame@,
            made.style() == cursor_style,
    {
        PaneRenderDeltaFrame { frame, cursor_style }
    }

    /// The bytes to write.
    pub fn frame(&self) -> (frame: &[u8])
        ensures
            frame@ == self.bytes(),
    {
        self.frame.as_slice()
    }

    /// The cursor shape to set, where it changes.
    pub fn cursor_style(&self) -> (style: Option<u32>)
        ensures
            style == self.style(),
    {
        self.cursor_style
    }
}

/// The sequence that saves the cursor and hides it.
pub open spec fn save_and_hide() -> Seq<u8> {
    seq![ESC, '[' as u8, 's' as u8] + hide_cursor()
}

/// The sequence that turns every style off.
pub open spec fn plain_style() -> Seq<u8> {
    seq![ESC, '[' as u8, '0' as u8, 'm' as u8]
}

/// The sequence that clears the rest of the row.
pub open spec fn clear_rest() -> Seq<u8> {
    seq![ESC, '[' as u8, 'K' as u8]
}

/// The sequence that turns every style off and puts the cursor back.
pub open spec fn restore() -> Seq<u8> {
    plain_style() + seq![ESC, '[' as u8, 'u' as u8]
}

/// A line of spaces.
pub open spec fn blank(cols: u16) -> Seq<u8> {
    Seq::new(cols as nat, |i: int| ' ' as u8)
}

/// The cursor shape to set, where it changes.
pub open spec fn changed_style(previous: Snapshot, next: Snapshot) -> Option<u32> {
    if previous.cursor_style != next.cursor_style {
        Some(next.cursor_style)
    } else {
        None
    }
}

/// The bytes that put a new line in place of another.
pub open spec fn written_line(previous: Seq<u8>, next: Seq<u8>, full_width: bool) -> Seq<u8> {
    match compacted(previous, next, full_width) {
        Some((line, clear)) => line + if clear {
            clear_rest()
        } else {
            Seq::empty()
        },
        None => next,
    }
}

/// The row of the terminal that a row of the pane lies on.
pub open spec fn terminal_row(snapshot: Snapshot, row: int) -> u16 {
    capped_sum(snapshot.y, (row % 0x10000) as u16)
}

/// The bytes that move to the start of a row of the pane and turn every style off.
pub open spec fn row_start(snapshot: Snapshot, row: int) -> Seq<u8> {
    position(terminal_row(snapshot, row), snapshot.x) + plain_style()
}

/// The bytes that update one row: none where it stays as it is.
pub open spec fn row_update(previous: Snapshot, next: Snapshot, row: int) -> Seq<u8> {
    let before = line_or(previous.lines, row, blank(next.cols));
    let after = line_or(next.lines, row, blank(next.cols));
    if before == after {
        Seq::empty()
    } else {
        row_start(next, row) + written_line(before, after, next.full_width())
    }
}

/// The bytes that update the first `count` rows.
pub open spec fn row_updates(previous: Snapshot, next: Snapshot, count: nat) -> Seq<u8>
    decreases count,
{
    if count == 0 {
        Seq::empty()
    } else {
        row_updates(previous, next, (count - 1) as nat) + row_update(
            previous,
            next,
            (count - 1) as int,
        )
    }
}

/// The frame that updates the rows that changed, the scrollbar and the cursor.
pub open spec fn row_by_row(previous: Snapshot, next: Snapshot) -> Seq<u8> {
    let updates = row_updates(previous, next, larger(previous.lines.len(), next.lines.len()));
    let scrollbar = if previous.scrollbar != next.scrollbar && next.scrollbar is Some {
        next.scrollbar->0
    } else {
        Seq::empty()
    };
    if updates.len() > 0 || previous.scrollbar != next.scrollbar {
        save_and_hide() + updates + scrollbar + restore() + next.final_cursor_state()
    } else if previous.cursor_visible() != next.cursor_visible() {
        next.final_cursor_state()
    } else if previous.cursor != next.cursor {
        next.cursor
    } else {
        Seq::empty()
    }
}

/// The row of the pane that the cursor is in.
pub open spec fn cursor_row_in_pane(snapshot: Snapshot) -> int {
    snapshot.cursor_row - snapshot.y
}

/// The next cursor stands right behind the text of its line, in the same row.
pub open spec fn stays_behind_text(previous: Snapshot, next: Snapshot) -> bool {
    let row = cursor_row_in_pane(previous);
    &&& next.cursor_row == previous.cursor_row
    &&& next.cursor_col >= next.x
    &&& next.cursor_col - next.x == visible_len(next.lines[row])
}

/// The next cursor stands at the start of the row below.
pub open spec fn moves_to_next_line(previous: Snapshot, next: Snapshot) -> bool {
    &&& next.cursor_row == capped_sum(previous.cursor_row, 1)
    &&& next.cursor_col == next.x
    &&& cursor_row_in_pane(previous) + 1 < next.rows
}

/// All that happened is that plain text was typed behind the plain text that the
/// cursor stood behind, with the cursor following it or moving to the next line.
pub open spec fn only_appends(previous: Snapshot, next: Snapshot) -> bool {
    let row = cursor_row_in_pane(previous);
    let before = previous.lines[row];
    let after = next.lines[row];
    &&& previous.x == 0
    &&& next.full_width()
    &&& previous.cursor_style == next.cursor_style
    &&& previous.cursor_row >= previous.y
    &&& row < next.rows
    &&& row < previous.lines.len()
    &&& row < next.lines.len()
    &&& plain_line(before)
    &&& plain_line(after)
    &&& previous.cursor_col - previous.x == visible_len(before)
    &&& visible_len(after) > visible_len(before)
    &&& after.take(visible_len(before) as int) == before.take(visible_len(before) as int)
    &&& !differs_elsewhere(previous.lines, next.lines, row)
    &&& stays_behind_text(previous, next) || moves_to_next_line(previous, next)
}

/// The bytes that append the typed text, where that is all that happened.
pub open spec fn appended(previous: Snapshot, next: Snapshot) -> Option<Seq<u8>> {
    let row = cursor_row_in_pane(previous);
    let before = previous.lines[row];
    let after = next.lines[row];
    if only_appends(previous, next) {
        Some(
            after.subrange(visible_len(before) as int, visible_len(after) as int) + (
            if moves_to_next_line(previous, next) {
                seq!['\r' as u8, '\n' as u8]
            } else {
                Seq::empty()
            }) + (if previous.cursor_visible() != next.cursor_visible() {
                next.final_cursor_state()
            } else {
                Seq::empty()
            }),
        )
    } else {
        None
    }
}

/// The rows that a scroll is looked for in.
pub open spec fn scrolled_rows(next: Snapshot) -> int {
    if next.rows < next.lines.len() {
        next.rows as int
    } else {
        next.lines.len() as int
    }
}

/// The terminal can scroll the pane: it spans the width, and both snapshots have
/// as many lines and revisions.
pub open spec fn scrollable(previous: Snapshot, next: Snapshot) -> bool {
    &&& previous.x == 0
    &&& next.full_width()
    &&& previous.rows != 0
    &&& previous.lines.len() == next.lines.len()
    &&& previous.line_revisions.len() == next.line_revisions.len()
}

/// Where a scroll is looked for, every row has a revision.
pub open spec fn revisions_known(previous: Snapshot, next: Snapshot) -> bool {
    scrollable(previous, next) && scrolled_rows(next) >= 2 ==> scrolled_rows(next)
        <= next.line_revisions.len()
}

/// The rows from `shift` on have moved up by `shift`, and some of them show text.
pub open spec fn shifted_up(previous: Snapshot, next: Snapshot, shift: int) -> bool {
    let rows = scrolled_rows(next);
    &&& previous.line_revisions.subrange(shift, rows) == next.line_revisions.subrange(
        0,
        rows - shift,
    )
    &&& previous.lines.subrange(shift, rows) == next.lines.subrange(0, rows - shift)
    &&& exists|row: int| shift <= row < rows && visible_len(#[trigger] previous.lines[row]) > 0
}

/// The smallest distance, from `from` on, by which the rows have moved up.
pub open spec fn first_shift(previous: Snapshot, next: Snapshot, from: int) -> Option<int>
    decreases scrolled_rows(next) - from,
{
    if from >= scrolled_rows(next) {
        None
    } else if shifted_up(previous, next, from) {
        Some(from)
    } else {
        first_shift(previous, next, from + 1)
    }
}

/// The bytes that fill the rows from `from` up to `upto` after a scroll.
pub open spec fn filled_rows(next: Snapshot, from: int, upto: int) -> Seq<u8>
    decreases upto - from,
{
    if upto <= from {
        Seq::empty()
    } else {
        filled_rows(next, from, upto - 1) + row_start(next, upto - 1) + written_line(
            blank(next.cols),
            next.lines[upto - 1],
            true,
        )
    }
}

/// The sequence that scrolls the rows of the pane up.
pub open spec fn scroll_sequence(next: Snapshot, shift: int) -> Seq<u8> {
    seq![ESC, '[' as u8] + decimal(capped_sum(next.y, 1) as nat) + seq![';' as u8] + decimal(
        capped_sum(next.y, next.rows) as nat,
    ) + seq!['r' as u8, ESC, '[' as u8] + decimal(shift as nat) + seq![
        'S' as u8,
        ESC,
        '[' as u8,
        'r' as u8,
    ]
}

/// Every row from `from` up to `upto` is empty.
pub open spec fn rows_empty(snapshot: Snapshot, from: int, upto: int) -> bool {
    forall|row: int| from <= row < upto ==> (#[trigger] snapshot.lines[row]).len() == 0
}

/// The bytes that scroll the pane and fill the rows that came in, where the pane
/// scrolled.
pub open spec fn scrolled(previous: Snapshot, next: Snapshot) -> Option<Seq<u8>> {
    let rows = scrolled_rows(next);
    if !scrollable(previous, next) {
        None
    } else {
        match first_shift(previous, next, 1) {
            None => None,
            Some(shift) => {
                if rows_empty(next, rows - shift, rows) && previous.cursor == next.cursor {
                    None
                } else {
                    Some(
                        save_and_hide() + scroll_sequence(next, shift) + filled_rows(
                            next,
                            rows - shift,
                            rows,
                        ) + restore() + next.final_cursor_state(),
                    )
                }
            },
        }
    }
}

/// The frame and the cursor shape that bring a terminal from one snapshot to the
/// next, where the pane has not moved.
pub open spec fn update(previous: Snapshot, next: Snapshot) -> (Seq<u8>, Option<u32>) {
    if appended(previous, next) is Some {
        (appended(previous, next)->0, None)
    } else if scrolled(previous, next) is Some {
        (scrolled(previous, next)->0, changed_style(previous, next))
    } else {
        (row_by_row(previous, next), changed_style(previous, next))
    }
}

/// The bytes that draw the first `count` lines.
pub open spec fn drawn_rows(snapshot: Snapshot, count: nat) -> Seq<u8>
    decreases count,
{
    if count == 0 {
        Seq::empty()
    } else {
        drawn_rows(snapshot, (count - 1) as nat) + row_start(snapshot, count - 1)
            + snapshot.lines[count - 1]
    }
}

/// The frame that draws a pane anew.
pub open spec fn full(snapshot: Snapshot) -> Seq<u8> {
    save_and_hide() + plain_style() + drawn_rows(snapshot, scrolled_rows(snapshot) as nat) + (
    if snapshot.scrollbar is Some {
        snapshot.scrollbar->0
    } else {
        Seq::empty()
    }) + restore() + snapshot.final_cursor_state()
}

/// The bytes in the first `count` lines.
pub open spec fn line_bytes(lines: Seq<Seq<u8>>, count: nat) -> nat
    decreases count,
{
    if count == 0 {
        0
    } else {
        line_bytes(lines, (count - 1) as nat) + lines[count - 1].len()
    }
}

/// A number of bytes, held at the largest one that can be asked for.
pub open spec fn capped(value: int) -> int {
    if value > usize::MAX {
        usize::MAX as int
    } else {
        value
    }
}

/// About how many bytes it takes to draw the pane anew.
pub open spec fn capacity(snapshot: Snapshot) -> int {
    capped(
        line_bytes(snapshot.lines, snapshot.lines.len()) + 16 * snapshot.rows + (
        if snapshot.scrollbar is Some {
            snapshot.scrollbar->0.len() as int
        } else {
            0
        }) + 32,
    )
}

/// A line of spaces.
fn blank_line(cols: u16) -> (line: Vec<u8>)
    ensures
        line@ == blank(cols),
{
    let mut line: Vec<u8> = Vec::new();
    while line.len() < cols as usize
        invariant
            line@.len() <= cols,
            forall|i: int| 0 <= i < line@.len() ==> line@[i] == ' ' as u8,
        decreases cols - line@.len(),
    {
        line.push(' ' as u8);
    }
    assert(line@ =~= blank(cols));
    line
}

/// Appends the sequence that saves the cursor and hides it.
fn push_save_and_hide(frame: &mut Vec<u8>)
    ensures
        final(frame)@ == old(frame)@ + save_and_hide(),
{
    push_bytes(
        frame,
        &[ESC, '[' as u8, 's' as u8, ESC, '[' as u8, '?' as u8, '2' as u8, '5' as u8, 'l' as u8],
    );
    assert(frame@ =~= old(frame)@ + save_and_hide());
}

/// Appends the sequence that turns every style off and puts the cursor back.
pub(crate) fn push_restore(frame: &mut Vec<u8>)
    ensures
        final(frame)@ == old(frame)@ + restore(),
{
    push_bytes(frame, &[ESC, '[' as u8, '0' as u8, 'm' as u8, ESC, '[' as u8, 'u' as u8]);
    assert(frame@ =~= old(frame)@ + restore());
}

/// Appends the sequence that saves the cursor, hides it and turns every style off.
pub(crate) fn push_frame_start(frame: &mut Vec<u8>)
    ensures
        final(frame)@ == old(frame)@ + (save_and_hide() + plain_style()),
{
    push_save_and_hide(frame);
    push_bytes(frame, &[ESC, '[' as u8, '0' as u8, 'm' as u8]);
    assert(frame@ =~= old(frame)@ + (save_and_hide() + plain_style()));
}

/// Appends the bytes that move to the start of a row of the pane.
fn push_row_start(frame: &mut Vec<u8>, snapshot: &PaneRenderSnapshot, row: usize)
    ensures
        final(frame)@ == old(frame)@ + row_start(snapshot@, row as int),
{
    let offset: u16 = (row % 0x10000) as u16;
    push_cursor_position(frame, snapshot.y.saturating_add(offset), snapshot.x);
    push_bytes(frame, &[ESC, '[' as u8, '0' as u8, 'm' as u8]);
    assert(frame@ =~= old(frame)@ + row_start(snapshot@, row as int));
}

/// Appends the bytes that put a new line in place of another.
fn push_line(frame: &mut Vec<u8>, previous: &[u8], next: &[u8], full_width: bool)
    ensures
        final(frame)@ == old(frame)@ + written_line(previous@, next@, full_width),
{
    match compact_plain_ascii_line_delta(previous, next, full_width) {
        Some((line, clear)) => {
            push_bytes(frame, line);
            if clear {
                push_bytes(frame, &[ESC, '[' as u8, 'K' as u8]);
            }
            assert(frame@ =~= old(frame)@ + written_line(previous@, next@, full_width));
        },
        None => {
            push_bytes(frame, next);
        },
    }
}

/// Appends the sequence that scrolls the rows of the pane up.
fn push_scroll(frame: &mut Vec<u8>, next: &PaneRenderSnapshot, shift: usize)
    ensures
        final(frame)@ == old(frame)@ + scroll_sequence(next@, shift as int),
{
    push_bytes(frame, &[ESC, '[' as u8]);
    push_decimal(frame, next.y.saturating_add(1) as u64);
    push_bytes(frame, &[';' as u8]);
    push_decimal(frame, next.y.saturating_add(next.rows) as u64);
    push_bytes(frame, &['r' as u8, ESC, '[' as u8]);
    push_decimal(frame, shift as u64);
    push_bytes(frame, &['S' as u8, ESC, '[' as u8, 'r' as u8]);
    assert(frame@ =~= old(frame)@ + scroll_sequence(next@, shift as int));
}

/// Appends the bytes that fill the rows that came in with a scroll.
fn push_filled_rows(frame: &mut Vec<u8>, next: &PaneRenderSnapshot, first: usize, rows: usize)
    requires
        first <= rows <= next@.lines.len(),
    ensures
        final(frame)@ == old(frame)@ + filled_rows(next@, first as int, rows as int),
{
    let ghost start = frame@;
    let spaces: Vec<u8> = blank_line(next.cols);
    let mut row: usize = first;
    assert(frame@ =~= start + filled_rows(next@, first as int, first as int));
    while row < rows
        invariant
            first <= row <= rows <= next.lines@.len(),
            spaces@ == blank(next.cols),
            frame@ == start + filled_rows(next@, first as int, row as int),
        decreases rows - row,
    {
        push_row_start(frame, next, row);
        assert(next@.lines[row as int] == next.lines@[row as int]@);
        push_line(frame, spaces.as_slice(), next.lines[row].as_slice(), true);
        assert(frame@ =~= start + filled_rows(next@, first as int, row + 1));
        row = row + 1;
    }
}

/// Whether two scrollbars draw the same.
fn same_scrollbar(
    left: &Option<RenderedPaneScrollbar>,
    right: &Option<RenderedPaneScrollbar>,
) -> (same: bool)
    ensures
        same == (scrollbar_contents(*left) == scrollbar_contents(*right)),
{
    match (left, right) {
        (Some(left), Some(right)) => same_bytes(left.frame(), right.frame()),
        (None, None) => true,
        _ => false,
    }
}

/// Whether the rows `left..left + count` of one list of lines are the rows
/// `right..right + count` of another.
fn same_lines(
    one: &Vec<Arc<Vec<u8>>>,
    left: usize,
    other: &Vec<Arc<Vec<u8>>>,
    right: usize,
    count: usize,
) -> (same: bool)
    requires
        left + count <= one.len(),
        right + count <= other.len(),
    ensures
        same == (line_contents(one@).subrange(left as int, left + count) == line_contents(
            other@,
        ).subrange(right as int, right + count)),
{
    let ghost a = line_contents(one@).subrange(left as int, left + count);
    let ghost b = line_contents(other@).subrange(right as int, right + count);
    let mut index: usize = 0;
    while index < count
        invariant
            index <= count,
            left + count <= one.len(),
            right + count <= other.len(),
            a == line_contents(one@).subrange(left as int, left + count),
            b == line_contents(other@).subrange(right as int, right + count),
            forall|i: int| 0 <= i < index ==> a[i] == b[i],
        decreases count - index,
    {
        assert(a[index as int] == one@[left + index]@);
        assert(b[index as int] == other@[right + index]@);
        if !same_bytes(one[left + index].as_slice(), other[right + index].as_slice()) {
            return false;
        }
        index = index + 1;
    }
    assert(a =~= b);
    true
}

/// Whether the revisions `left..left + count` of one list are the revisions
/// `right..right + count` of another.
fn same_revisions(
    one: &Vec<u64>,
    left: usize,
    other: &Vec<u64>,
    right: usize,
    count: usize,
) -> (same: bool)
    requires
        left + count <= one.len(),
        right + count <= other.len(),
    ensures
        same == (one@.subrange(left as int, left + count) == other@.subrange(
            right as int,
            right + count,
        )),
{
    let ghost a = one@.subrange(left as int, left + count);
    let ghost b = other@.subrange(right as int, right + count);
    let mut index: usize = 0;
    while index < count
        invariant
            index <= count,
            left + count <= one.len(),
            right + count <= other.len(),
            a == one@.subrange(left as int, left + count),
            b == other@.subrange(right as int, right + count),
            forall|i: int| 0 <= i < index ==> a[i] == b[i],
        decreases count - index,
    {
        assert(a[index as int] == one@[left + index]);
        assert(b[index as int] == other@[right + index]);
        if one[left + index] != other[right + index] {
            return false;
        }
        index = index + 1;
    }
    assert(a =~= b);
    true
}

/// Whether some row from `from` up to `upto` shows text.
fn any_visible(lines: &Vec<Arc<Vec<u8>>>, from: usize, upto: usize) -> (any: bool)
    requires
        from <= upto <= lines@.len(),
    ensures
        any == exists|row: int|
            from <= row < upto && visible_len(#[trigger] line_contents(lines@)[row]) > 0,
{
    let mut row: usize = from;
    while row < upto
        invariant
            from <= row <= upto <= lines@.len(),
            forall|i: int|
                from <= i < row ==> visible_len(#[trigger] line_contents(lines@)[i]) == 0,
        decreases upto - row,
    {
        assert(line_contents(lines@)[row as int] == lines@[row as int]@);
        if trim_trailing_ascii_spaces_len(lines[row].as_slice()) > 0 {
            return true;
        }
        row = row + 1;
    }
    false
}

impl PaneRenderSnapshot {
    /// Whether the pane has to be drawn anew because it was moved or resized.
    pub fn requires_full_refresh(&self, next: &Self) -> (required: bool)
        ensures
            required == self@.placed_unlike(next@),
    {
        self.x != next.x || self.y != next.y || self.rows != next.rows || self.cols != next.cols
    }

    /// The frame that appends the typed text, where that is all that happened.
    pub fn diff_plain_cursor_append_to(&self, next: &Self) -> (frame: Option<PaneRenderDeltaFrame>)
        ensures
            frame is Some == appended(self@, next@) is Some,
            frame is Some ==> frame->0.bytes() == appended(self@, next@)->0,
            frame is Some ==> frame->0.style() is None,
    {
        if self.x != 0 || next.x != 0 || next.cols != next.terminal_cols || self.cursor_style
            != next.cursor_style || self.cursor_row < self.y || self.cursor_col < self.x {
            return None;
        }
        let row: usize = (self.cursor_row - self.y) as usize;
        let rows: usize = next.rows as usize;
        if row >= rows || row >= self.lines.len() || row >= next.lines.len() {
            return None;
        }
        let previous_line: &[u8] = self.lines[row].as_slice();
        let next_line: &[u8] = next.lines[row].as_slice();
        assert(previous_line@ == self@.lines[row as int]);
        assert(next_line@ == next@.lines[row as int]);
        if !is_plain_ascii_render_line(previous_line) || !is_plain_ascii_render_line(next_line) {
            return None;
        }
        let previous_visible: usize = trim_trailing_ascii_spaces_len(previous_line);
        let next_visible: usize = trim_trailing_ascii_spaces_len(next_line);
        let previous_cursor_col: usize = (self.cursor_col - self.x) as usize;
        if previous_cursor_col != previous_visible || next_visible <= previous_visible {
            return None;
        }
        let kept: &[u8] = &next_line[0..previous_visible];
        let before: &[u8] = &previous_line[0..previous_visible];
        assert(kept@ =~= next_line@.take(previous_visible as int));
        assert(before@ =~= previous_line@.take(previous_visible as int));
        if !same_bytes(kept, before) {
            return None;
        }
        if other_rows_changed(&self.lines, &next.lines, row) {
            return None;
        }
        let same_line_cursor: bool = next.cursor_row == self.cursor_row && next.cursor_col
            >= next.x && (next.cursor_col - next.x) as usize == next_visible;
        let next_line_cursor: bool = next.cursor_row == self.cursor_row.saturating_add(1)
            && next.cursor_col == next.x && row + 1 < rows;
        if !same_line_cursor && !next_line_cursor {
            return None;
        }
        let mut frame: Vec<u8> = Vec::new();
        push_bytes(&mut frame, &next_line[previous_visible..next_visible]);
        if next_line_cursor {
            push_bytes(&mut frame, &['\r' as u8, '\n' as u8]);
        }
        if self.cursor_visibility_changed(next) {
            next.append_final_cursor_state(&mut frame);
        }
        assert(frame@ =~= appended(self@, next@)->0);
        Some(PaneRenderDeltaFrame { frame, cursor_style: None })
    }

    /// The smallest distance by which the rows have moved up.
    fn find_shift(&self, next: &Self, rows: usize) -> (shift: Option<usize>)
        requires
            rows == scrolled_rows(next@),
            scrollable(self@, next@),
            revisions_known(self@, next@),
        ensures
            match shift {
                Some(shift) => 1 <= shift < rows && first_shift(self@, next@, 1) == Some(
                    shift as int,
                ),
                None => first_shift(self@, next@, 1) is None,
            },
    {
        let mut shift: usize = 1;
        while shift < rows
            invariant
                1 <= shift,
                rows == scrolled_rows(next@),
                scrollable(self@, next@),
                revisions_known(self@, next@),
                first_shift(self@, next@, 1) == first_shift(self@, next@, shift as int),
            decreases rows - shift,
        {
            let kept: usize = rows - shift;
            if same_revisions(&self.line_revisions, shift, &next.line_revisions, 0, kept)
                && same_lines(&self.lines, shift, &next.lines, 0, kept) && any_visible(
                &self.lines,
                shift,
                rows,
            ) {
                return Some(shift);
            }
            shift = shift + 1;
        }
        None
    }

    /// The frame that scrolls the pane, where the pane scrolled.
    pub fn diff_scroll_up_to(&self, next: &Self) -> (frame: Option<PaneRenderDeltaFrame>)
        requires
            revisions_known(self@, next@),
        ensures
            frame is Some == scrolled(self@, next@) is Some,
            frame is Some ==> frame->0.bytes() == scrolled(self@, next@)->0,
            frame is Some ==> frame->0.style() == changed_style(self@, next@),
    {
        if self.x != 0 || next.x != 0 || next.cols != next.terminal_cols || self.rows == 0
            || self.lines.len() != next.lines.len() || self.line_revisions.len()
            != next.line_revisions.len() {
            return None;
        }
        let rows: usize = if (next.rows as usize) < next.lines.len() {
            next.rows as usize
        } else {
            next.lines.len()
        };
        let shift: usize = match self.find_shift(next, rows) {
            Some(shift) => shift,
            None => {
                return None;
            },
        };
        let first: usize = rows - shift;
        if next.rows_are_empty(first, rows) && same_bytes(
            self.cursor.as_slice(),
            next.cursor.as_slice(),
        ) {
            return None;
        }
        let mut frame: Vec<u8> = Vec::new();
        push_save_and_hide(&mut frame);
        push_scroll(&mut frame, next, shift);
        push_filled_rows(&mut frame, next, first, rows);
        push_restore(&mut frame);
        next.append_final_cursor_state(&mut frame);
        assert(frame@ =~= scrolled(self@, next@)->0);
        Some(PaneRenderDeltaFrame { frame, cursor_style: self.style_change(next) })
    }

    /// Whether every row from `from` up to `upto` is empty.
    fn rows_are_empty(&self, from: usize, upto: usize) -> (empty: bool)
        requires
            from <= upto <= self@.lines.len(),
        ensures
            empty == rows_empty(self@, from as int, upto as int),
    {
        let mut row: usize = from;
        while row < upto
            invariant
                from <= row <= upto <= self.lines@.len(),
                forall|i: int| from <= i < row ==> (#[trigger] self@.lines[i]).len() == 0,
            decreases upto - row,
        {
            assert(self@.lines[row as int] == self.lines@[row as int]@);
            if self.lines[row].len() != 0 {
                return false;
            }
            row = row + 1;
        }
        true
    }

    /// The cursor shape to set, where it changes.
    fn style_change(&self, next: &Self) -> (style: Option<u32>)
        ensures
            style == changed_style(self@, next@),
    {
        if self.cursor_style != next.cursor_style {
            Some(next.cursor_style)
        } else {
            None
        }
    }

    /// The frame that updates the rows that changed, the scrollbar and the cursor.
    fn diff_rows_to(&self, next: &Self) -> (frame: Vec<u8>)
        ensures
            frame@ == row_by_row(self@, next@),
    {
        let mut frame: Vec<u8> = Vec::new();
        let spaces: Vec<u8> = blank_line(next.cols);
        let full_width: bool = next.x == 0 && next.cols == next.terminal_cols;
        let changed_rows: usize = if self.lines.len() > next.lines.len() {
            self.lines.len()
        } else {
            next.lines.len()
        };
        let mut row: usize = 0;
        while row < changed_rows
            invariant
                row <= changed_rows,
                changed_rows == larger(self@.lines.len(), next@.lines.len()),
                spaces@ == blank(next.cols),
                full_width == next@.full_width(),
                frame@ == (if row_updates(self@, next@, row as nat).len() > 0 {
                    save_and_hide() + row_updates(self@, next@, row as nat)
                } else {
                    Seq::empty()
                }),
            decreases changed_rows - row,
        {
            let ghost updates = row_updates(self@, next@, row as nat);
            let previous_line: &[u8] = if row < self.lines.len() {
                self.lines[row].as_slice()
            } else {
                spaces.as_slice()
            };
            let next_line: &[u8] = if row < next.lines.len() {
                next.lines[row].as_slice()
            } else {
                spaces.as_slice()
            };
            assert(previous_line@ == line_or(self@.lines, row as int, blank(next.cols)));
            assert(next_line@ == line_or(next@.lines, row as int, blank(next.cols)));
            if same_bytes(previous_line, next_line) {
                assert(row_updates(self@, next@, (row + 1) as nat) =~= updates);
            } else {
                if frame.len() == 0 {
                    assert(updates =~= Seq::empty());
                    push_save_and_hide(&mut frame);
                }
                push_row_start(&mut frame, next, row);
                push_line(&mut frame, previous_line, next_line, full_width);
                assert(frame@ =~= save_and_hide() + row_updates(self@, next@, (row + 1) as nat));
            }
            row = row + 1;
        }
        let ghost updates = row_updates(self@, next@, changed_rows as nat);
        if !same_scrollbar(&self.scrollbar, &next.scrollbar) {
            if frame.len() == 0 {
                assert(updates =~= Seq::empty());
                push_save_and_hide(&mut frame);
            }
            assert(frame@ =~= save_and_hide() + updates);
            match &next.scrollbar {
                Some(scrollbar) => {
                    push_bytes(&mut frame, scrollbar.frame());
                },
                None => {},
            }
        }
        if frame.len() != 0 {
            push_restore(&mut frame);
            next.append_final_cursor_state(&mut frame);
        } else if self.cursor_visibility_changed(next) {
            next.append_final_cursor_state(&mut frame);
        } else if !same_bytes(self.cursor.as_slice(), next.cursor.as_slice()) {
            push_bytes(&mut frame, next.cursor.as_slice());
        }
        assert(frame@ =~= row_by_row(self@, next@));
        frame
    }

    /// How a terminal that shows this snapshot is brought to the next one.
    pub fn diff_to(&self, next: &Self) -> (delta: PaneRenderDelta)
        requires
            self@.placed_unlike(next@) || appended(self@, next@) is Some || revisions_known(
                self@,
                next@,
            ),
        ensures
            match delta {
                PaneRenderDelta::RequiresFullRefresh => self@.placed_unlike(next@),
                PaneRenderDelta::Incremental(frame) => !self@.placed_unlike(next@) && (
                    frame.bytes(),
                    frame.style(),
                ) == update(self@, next@),
            },
    {
        if self.requires_full_refresh(next) {
            return PaneRenderDelta::RequiresFullRefresh;
        }
        match self.diff_plain_cursor_append_to(next) {
            Some(frame) => {
                return PaneRenderDelta::Incremental(frame);
            },
            None => {},
        }
        match self.diff_scroll_up_to(next) {
            Some(frame) => {
                return PaneRenderDelta::Incremental(frame);
            },
            None => {},
        }
        let frame: Vec<u8> = self.diff_rows_to(next);
        PaneRenderDelta::Incremental(
            PaneRenderDeltaFrame { frame, cursor_style: self.style_change(next) },
        )
    }

    /// The frame that draws the pane anew.
    pub fn full_frame(&self) -> (frame: Vec<u8>)
        ensures
            frame@ == full(self@),
    {
        let mut frame: Vec<u8> = Vec::with_capacity(self.frame_capacity_hint());
        push_frame_start(&mut frame);
        let ghost start = save_and_hide() + plain_style();
        let rows: usize = if (self.rows as usize) < self.lines.len() {
            self.rows as usize
        } else {
            self.lines.len()
        };
        let mut row: usize = 0;
        assert(frame@ =~= start + drawn_rows(self@, 0));
        while row < rows
            invariant
                row <= rows <= self.lines@.len(),
                frame@ == start + drawn_rows(self@, row as nat),
            decreases rows - row,
        {
            push_row_start(&mut frame, self, row);
            assert(self@.lines[row as int] == self.lines@[row as int]@);
            push_bytes(&mut frame, self.lines[row].as_slice());
            assert(frame@ =~= start + drawn_rows(self@, (row + 1) as nat));
            row = row + 1;
        }
        match &self.scrollbar {
            Some(scrollbar) => {
                push_bytes(&mut frame, scrollbar.frame());
            },
            None => {},
        }
        push_restore(&mut frame);
        self.append_final_cursor_state(&mut frame);
        assert(frame@ =~= full(self@));
        frame
    }

    /// About how many bytes it takes to draw the pane anew.
    pub fn frame_capacity_hint(&self) -> (hint: usize)
        ensures
            hint == capped(
                line_bytes(self@.lines, self@.lines.len()) + 16 * self@.rows + (
                if self@.scrollbar is Some {
                    self@.scrollbar->0.len() as int
                } else {
                    0
                }) + 32,
            ),
            hint == capacity(self@),
    {
        let mut total: usize = 0;
        let mut row: usize = 0;
        while row < self.lines.len()
            invariant
                row <= self.lines@.len(),
                total == capped(line_bytes(self@.lines, row as nat) as int),
            decreases self.lines@.len() - row,
        {
            assert(self@.lines[row as int] == self.lines@[row as int]@);
            total = total.saturating_add(self.lines[row].len());
            row = row + 1;
        }
        let scrollbar: usize = match &self.scrollbar {
            Some(scrollbar) => scrollbar.frame().len(),
            None => 0,
        };
        total.saturating_add((self.rows as usize) * 16).saturating_add(scrollbar).saturating_add(32)
    }
}

} // verus!
