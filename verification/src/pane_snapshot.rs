//! Pane snapshots: what a pane showed on its terminal, and how one is captured.
use crate::bytes::{push_bytes, ESC};
use crate::cursor::{capped_sum, cursor_position_bytes, position};
use crate::line_delta::{line_contents, line_or};
use crate::pane_mode::MODE_CURSOR;
use std::sync::Arc;
use vstd::prelude::*;

verus! {

/// A scrollbar as it is drawn beside a pane.
#[derive(Debug, Clone, PartialEq, Eq)]
pub struct RenderedPaneScrollbar {
    /// The bytes that draw it.
    pub frame: Vec<u8>,
}

impl RenderedPaneScrollbar {
    /// The bytes that draw the scrollbar.
    pub fn frame(&self) -> (frame: &[u8])
        ensures
            frame@ == self.frame@,
    {
        self.frame.as_slice()
    }
}

/// What a scrollbar beside a pane draws, if there is one.
pub open spec fn scrollbar_contents(scrollbar: Option<RenderedPaneScrollbar>) -> Option<Seq<u8>> {
    match scrollbar {
        Some(scrollbar) => Some(scrollbar.frame@),
        None => None,
    }
}

/// What a pane showed on its terminal at one moment.
#[derive(Debug, PartialEq, Eq)]
pub struct PaneRenderSnapshot {
    /// The column of the pane on the terminal.
    pub x: u16,
    /// The row of the pane on the terminal.
    pub y: u16,
    /// The height of the pane.
    pub rows: u16,
    /// The width of the pane.
    pub cols: u16,
    /// The width of the terminal.
    pub terminal_cols: u16,
    /// The height of the terminal.
    pub terminal_rows: u16,
    /// The rendered lines, from the top.
    pub lines: Vec<Arc<Vec<u8>>>,
    /// The sequence that puts the cursor in its place.
    pub cursor: Vec<u8>,
    /// The row of the cursor on the terminal.
    pub cursor_row: u16,
    /// The column of the cursor on the terminal.
    pub cursor_col: u16,
    /// The shape of the cursor.
    pub cursor_style: u32,
    /// The title that the program has set.
    pub title: String,
    /// The path that the program has set.
    pub path: String,
    /// The mode bits of the pane.
    pub mode: u32,
    /// For each line, a number that changes when the line does.
    pub line_revisions: Vec<u64>,
    /// The scrollbar beside the pane.
    pub scrollbar: Option<RenderedPaneScrollbar>,
}

/// What a snapshot holds.
#[verifier::ext_equal]
pub struct Snapshot {
    pub x: u16,
    pub y: u16,
    pub rows: u16,
    pub cols: u16,
    pub terminal_cols: u16,
    pub terminal_rows: u16,
    pub lines: Seq<Seq<u8>>,
    pub cursor: Seq<u8>,
    pub cursor_row: u16,
    pub cursor_col: u16,
    pub cursor_style: u32,
    pub title: Seq<char>,
    pub path: Seq<char>,
    pub mode: u32,
    pub line_revisions: Seq<u64>,
    pub scrollbar: Option<Seq<u8>>,
}

impl View for PaneRenderSnapshot {
    type V = Snapshot;

    open spec fn view(&self) -> Snapshot {
        Snapshot {
            x: self.x,
            y: self.y,
            rows: self.rows,
            cols: self.cols,
            terminal_cols: self.terminal_cols,
            terminal_rows: self.terminal_rows,
            lines: line_contents(self.lines@),
            cursor: self.cursor@,
            cursor_row: self.cursor_row,
            cursor_col: self.cursor_col,
            cursor_style: self.cursor_style,
            title: self.title@,
            path: self.path@,
            mode: self.mode,
            line_revisions: self.line_revisions@,
            scrollbar: scrollbar_contents(self.scrollbar),
        }
    }
}

impl Snapshot {
    /// The program shows its cursor.
    pub open spec fn cursor_visible(self) -> bool {
        (self.mode & MODE_CURSOR) != 0
    }

    /// The sequences that put the cursor in its place and show or hide it.
    pub open spec fn final_cursor_state(self) -> Seq<u8> {
        self.cursor + if self.cursor_visible() {
            show_cursor()
        } else {
            hide_cursor()
        }
    }

    /// The pane spans the width of its terminal.
    pub open spec fn full_width(self) -> bool {
        self.x == 0 && self.cols == self.terminal_cols
    }

    /// The two snapshots place the pane differently.
    pub open spec fn placed_unlike(self, next: Snapshot) -> bool {
        self.x != next.x || self.y != next.y || self.rows != next.rows || self.cols != next.cols
    }
}

/// The sequence that shows the cursor.
pub open spec fn show_cursor() -> Seq<u8> {
    seq![ESC, '[' as u8, '?' as u8, '2' as u8, '5' as u8, 'h' as u8]
}

/// The sequence that hides the cursor.
pub open spec fn hide_cursor() -> Seq<u8> {
    seq![ESC, '[' as u8, '?' as u8, '2' as u8, '5' as u8, 'l' as u8]
}

/// Where a pane lies in its window.
#[derive(Debug, Clone, Copy, PartialEq, Eq, Structural)]
pub struct PaneGeometry {
    /// The column of the pane.
    pub x: u16,
    /// The row of the pane.
    pub y: u16,
    /// The width of the pane.
    pub cols: u16,
    /// The height of the pane.
    pub rows: u16,
}

/// How a session is laid out on its terminal.
#[derive(Debug, Clone, Copy, PartialEq, Eq, Structural)]
pub struct StatusGeometry {
    /// The rows that the status bar takes above the panes.
    pub content_y_offset: u16,
    /// The width of the terminal.
    pub terminal_cols: u16,
    /// The height of the terminal.
    pub terminal_rows: u16,
}

/// What the screen of a pane reports besides its lines.
#[derive(Debug, Clone, PartialEq, Eq)]
pub struct ScreenState {
    /// The column of the cursor in the pane.
    pub cursor_x: u32,
    /// The row of the cursor in the pane.
    pub cursor_y: u32,
    /// The shape of the cursor.
    pub cursor_style: u32,
    /// The title that the program has set.
    pub title: String,
    /// The path that the program has set.
    pub path: String,
    /// The mode bits of the pane.
    pub mode: u32,
}

/// How a line of a transcript relates to the snapshot before it.
#[derive(Debug, Clone, PartialEq, Eq)]
pub struct LineChange {
    /// The revision of the line.
    pub revision: u64,
    /// The rendered line, where it was rendered anew.
    pub rendered: Option<Vec<u8>>,
    /// The row that the line had in the snapshot before.
    pub previous_row: Option<usize>,
}

/// Which parts of a line are rendered.
#[derive(Debug, Clone, Copy, PartialEq, Eq, Structural)]
pub struct GridRenderOptions {
    /// Styles are rendered as sequences.
    pub with_sequences: bool,
    /// Cells that nothing was written to are rendered as spaces.
    pub include_empty_cells: bool,
    /// Trailing spaces are dropped.
    pub trim_spaces: bool,
}

/// A cursor coordinate on the terminal: the pane's own, plus the cursor's in the
/// pane, held within the pane.
pub open spec fn cursor_coordinate(origin: u16, in_pane: u32, extent: u16) -> u16 {
    let last = if extent == 0 { 0 } else { extent - 1 };
    capped_sum(origin, if in_pane < last { in_pane as u16 } else { last as u16 })
}

/// The snapshot of a pane with the given lines and revisions.
pub open spec fn snapshot_of(
    pane: PaneGeometry,
    terminal: StatusGeometry,
    lines: Seq<Seq<u8>>,
    line_revisions: Seq<u64>,
    screen: ScreenState,
    scrollbar: Option<Seq<u8>>,
) -> Snapshot {
    let y = capped_sum(pane.y, terminal.content_y_offset);
    let cursor_row = cursor_coordinate(y, screen.cursor_y, pane.rows);
    let cursor_col = cursor_coordinate(pane.x, screen.cursor_x, pane.cols);
    Snapshot {
        x: pane.x,
        y,
        rows: pane.rows,
        cols: pane.cols,
        terminal_cols: terminal.terminal_cols,
        terminal_rows: terminal.terminal_rows,
        lines,
        cursor: position(cursor_row, cursor_col),
        cursor_row,
        cursor_col,
        cursor_style: screen.cursor_style,
        title: screen.title@,
        path: screen.path@,
        mode: screen.mode,
        line_revisions,
        scrollbar,
    }
}

/// The pane has cells to show.
pub open spec fn showable(pane: Option<PaneGeometry>) -> bool {
    pane is Some && pane->0.cols != 0 && pane->0.rows != 0
}

/// The revision reported for a row, zero where none is.
pub open spec fn reported_revision(reported: Seq<Option<u64>>, row: int) -> u64 {
    if row < reported.len() && reported[row] is Some {
        reported[row]->0
    } else {
        0
    }
}

/// What a list of lines holds.
pub open spec fn rendered_contents(lines: Seq<Vec<u8>>) -> Seq<Seq<u8>> {
    lines.map_values(|line: Vec<u8>| line@)
}

/// The lines that were rendered, in order.
pub open spec fn present(lines: Seq<Option<Vec<u8>>>) -> Seq<Seq<u8>>
    decreases lines.len(),
{
    if lines.len() == 0 {
        Seq::empty()
    } else {
        match lines.last() {
            Some(line) => present(lines.drop_last()).push(line@),
            None => present(lines.drop_last()),
        }
    }
}

/// The lines that a capture shows: those of the styled screen where cells are selected and
/// there is one, else the visible rows that could be rendered, as many as there are rows.
pub open spec fn shown_lines(
    has_selected_cells: bool,
    selection: Option<Seq<Seq<u8>>>,
    visible: Seq<Option<Vec<u8>>>,
    rows: u16,
) -> Seq<Seq<u8>> {
    if has_selected_cells && selection is Some {
        if selection->0.len() > rows {
            selection->0.take(rows as int)
        } else {
            selection->0
        }
    } else if visible.len() > rows {
        present(visible.take(rows as int))
    } else {
        present(visible)
    }
}

/// The line that a change stands for: rendered anew, else taken from the row that it
/// had before, else from its own row before, else empty.
pub open spec fn changed_line(change: LineChange, row: int, before: Seq<Seq<u8>>) -> Seq<u8> {
    if change.rendered is Some {
        change.rendered->0@
    } else if change.previous_row is Some && change.previous_row->0 < before.len() {
        before[change.previous_row->0 as int]
    } else {
        line_or(before, row, Seq::empty())
    }
}

/// A snapshot before lies where the pane lies now.
pub open spec fn reusable(before: Snapshot, pane: PaneGeometry, terminal: StatusGeometry) -> bool {
    before.x == pane.x && before.y == capped_sum(pane.y, terminal.content_y_offset) && before.rows
        == pane.rows && before.cols == pane.cols
}

/// The lines of the snapshot before, where they can be reused.
pub open spec fn reusable_lines(
    previous: Option<&PaneRenderSnapshot>,
    pane: PaneGeometry,
    terminal: StatusGeometry,
) -> Seq<Seq<u8>> {
    if previous is Some && reusable(previous->0@, pane, terminal) {
        previous->0@.lines
    } else {
        Seq::empty()
    }
}

/// Where the cursor lies on the terminal along one direction.
fn place_cursor(origin: u16, in_pane: u32, extent: u16) -> (coordinate: u16)
    ensures
        coordinate == cursor_coordinate(origin, in_pane, extent),
{
    let last: u16 = extent.saturating_sub(1);
    let inside: u16 = if in_pane < last as u32 {
        in_pane as u16
    } else {
        last
    };
    origin.saturating_add(inside)
}

/// The options that pane lines are rendered with: styled, and as wide as the pane.
pub fn pane_render_options() -> (options: GridRenderOptions)
    ensures
        options == (GridRenderOptions {
            with_sequences: true,
            include_empty_cells: true,
            trim_spaces: false,
        }),
{
    GridRenderOptions { with_sequences: true, include_empty_cells: true, trim_spaces: false }
}

/// The lines that a capture shows.
///
/// Where cells are selected and the selection has a style, `selection` holds the
/// lines of the styled screen, and the first `rows` of them are shown. Otherwise
/// the visible rows that could be rendered are.
pub fn capture_visible_pane_lines(
    has_selected_cells: bool,
    selection: Option<Vec<Vec<u8>>>,
    visible: Vec<Option<Vec<u8>>>,
    rows: u16,
) -> (lines: Vec<Vec<u8>>)
    ensures
        rendered_contents(lines@) == (if has_selected_cells && selection is Some {
            let styled = rendered_contents(selection->0@);
            if styled.len() > rows {
                styled.take(rows as int)
            } else {
                styled
            }
        } else if visible@.len() > rows {
            present(visible@.take(rows as int))
        } else {
            present(visible@)
        }),
        selection is Some ==> rendered_contents(lines@) == shown_lines(
            has_selected_cells,
            Some(rendered_contents(selection->0@)),
            visible@,
            rows,
        ),
        selection is None ==> rendered_contents(lines@) == shown_lines(
            has_selected_cells,
            None,
            visible@,
            rows,
        ),
{
    if has_selected_cells {
        match selection {
            Some(selection) => {
                let mut lines = selection;
                lines.truncate(rows as usize);
                return lines;
            },
            None => {},
        }
    }
    let mut lines: Vec<Vec<u8>> = Vec::new();
    let count: usize = if visible.len() > rows as usize {
        rows as usize
    } else {
        visible.len()
    };
    let mut row: usize = 0;
    while row < count
        invariant
            row <= count <= visible@.len(),
            rendered_contents(lines@) == present(visible@.take(row as int)),
        decreases count - row,
    {
        assert(visible@.take(row + 1).drop_last() =~= visible@.take(row as int));
        match &visible[row] {
            Some(line) => {
                let mut copy: Vec<u8> = Vec::new();
                push_bytes(&mut copy, line.as_slice());
                lines.push(copy);
            },
            None => {},
        }
        row = row + 1;
    }
    assert(visible@.len() <= rows ==> visible@.take(count as int) =~= visible@);
    lines
}

impl PaneRenderSnapshot {
    /// The shape of the cursor.
    pub fn cursor_style(&self) -> (style: u32)
        ensures
            style == self@.cursor_style,
    {
        self.cursor_style
    }

    /// Whether the program shows its cursor.
    pub fn cursor_visible(&self) -> (visible: bool)
        ensures
            visible == self@.cursor_visible(),
    {
        (self.mode & MODE_CURSOR) != 0
    }

    /// Whether the cursor was shown and is hidden now, or the other way round.
    pub fn cursor_visibility_changed(&self, next: &Self) -> (changed: bool)
        ensures
            changed == (self@.cursor_visible() != next@.cursor_visible()),
    {
        self.cursor_visible() != next.cursor_visible()
    }

    /// Appends the sequences that put the cursor in its place and show or hide it.
    pub fn append_final_cursor_state(&self, frame: &mut Vec<u8>)
        ensures
            final(frame)@ == old(frame)@ + self@.final_cursor_state(),
    {
        push_bytes(frame, self.cursor.as_slice());
        if self.cursor_visible() {
            push_bytes(frame, &[ESC, '[' as u8, '?' as u8, '2' as u8, '5' as u8, 'h' as u8]);
        } else {
            push_bytes(frame, &[ESC, '[' as u8, '?' as u8, '2' as u8, '5' as u8, 'l' as u8]);
        }
    }

    /// Captures a pane from its screen.
    ///
    /// `lines` are the rendered lines, cut to the width of the pane, and `revisions`
    /// is what the screen reports for the visible rows. There is nothing to capture
    /// of a pane that is not visible or has no cells.
    pub fn capture(
        pane: Option<PaneGeometry>,
        terminal: StatusGeometry,
        lines: Vec<Vec<u8>>,
        revisions: Vec<Option<u64>>,
        screen: ScreenState,
        scrollbar: Option<RenderedPaneScrollbar>,
    ) -> (snapshot: Option<Self>)
        ensures
            snapshot is Some == showable(pane),
            snapshot is Some ==> snapshot->0@ == snapshot_of(
                pane->0,
                terminal,
                rendered_contents(lines@),
                Seq::new(pane->0.rows as nat, |row: int| reported_revision(revisions@, row)),
                screen,
                scrollbar_contents(scrollbar),
            ),
    {
        let pane: PaneGeometry = match pane {
            Some(pane) => pane,
            None => {
                return None;
            },
        };
        if pane.cols == 0 || pane.rows == 0 {
            return None;
        }
        let mut shared: Vec<Arc<Vec<u8>>> = Vec::new();
        let mut index: usize = 0;
        while index < lines.len()
            invariant
                index <= lines@.len(),
                line_contents(shared@) == rendered_contents(lines@.take(index as int)),
            decreases lines@.len() - index,
        {
            let mut copy: Vec<u8> = Vec::new();
            push_bytes(&mut copy, lines[index].as_slice());
            shared.push(Arc::new(copy));
            assert(rendered_contents(lines@.take(index + 1)) =~= rendered_contents(
                lines@.take(index as int),
            ).push(lines@[index as int]@));
            index = index + 1;
        }
        let mut line_revisions: Vec<u64> = Vec::new();
        let mut row: usize = 0;
        while row < pane.rows as usize
            invariant
                row <= pane.rows,
                line_revisions@ == Seq::new(
                    row as nat,
                    |row: int| reported_revision(revisions@, row),
                ),
            decreases pane.rows - row,
        {
            let revision: u64 = if row < revisions.len() {
                match revisions[row] {
                    Some(revision) => revision,
                    None => 0,
                }
            } else {
                0
            };
            line_revisions.push(revision);
            row = row + 1;
        }
        Some(Self::assemble(pane, terminal, shared, line_revisions, screen, scrollbar))
    }

    /// Puts a snapshot together.
    fn assemble(
        pane: PaneGeometry,
        terminal: StatusGeometry,
        lines: Vec<Arc<Vec<u8>>>,
        line_revisions: Vec<u64>,
        screen: ScreenState,
        scrollbar: Option<RenderedPaneScrollbar>,
    ) -> (snapshot: Self)
        ensures
            snapshot@ == snapshot_of(
                pane,
                terminal,
                line_contents(lines@),
                line_revisions@,
                screen,
                scrollbar_contents(scrollbar),
            ),
    {
        let y: u16 = pane.y.saturating_add(terminal.content_y_offset);
        let cursor_row: u16 = place_cursor(y, screen.cursor_y, pane.rows);
        let cursor_col: u16 = place_cursor(pane.x, screen.cursor_x, pane.cols);
        PaneRenderSnapshot {
            x: pane.x,
            y,
            rows: pane.rows,
            cols: pane.cols,
            terminal_cols: terminal.terminal_cols,
            terminal_rows: terminal.terminal_rows,
            lines,
            cursor: cursor_position_bytes(cursor_row, cursor_col),
            cursor_row,
            cursor_col,
            cursor_style: screen.cursor_style,
            title: screen.title,
            path: screen.path,
            mode: screen.mode,
            line_revisions,
            scrollbar,
        }
    }

    /// The snapshot before, where its lines can be reused: the pane has not moved.
    pub fn reusable_previous<'a>(
        previous: Option<&'a Self>,
        pane: PaneGeometry,
        terminal: StatusGeometry,
    ) -> (reused: Option<&'a Self>)
        ensures
            reused == (if previous is Some && reusable(previous->0@, pane, terminal) {
                previous
            } else {
                None
            }),
    {
        match previous {
            Some(before) => {
                if before.x == pane.x && before.y == pane.y.saturating_add(
                    terminal.content_y_offset,
                ) && before.rows == pane.rows && before.cols == pane.cols {
                    Some(before)
                } else {
                    None
                }
            },
            None => None,
        }
    }

    /// Captures a pane from its transcript, reusing the lines of the snapshot before
    /// where the pane has not moved.
    ///
    /// `changes` are the changes of the visible lines against the snapshot before,
    /// with the lines rendered anew cut to the width of the pane. There is nothing
    /// to capture while cells are selected, nor of a pane that is not visible or has
    /// no cells.
    pub fn capture_unstyled_transcript_reusing(
        pane: Option<PaneGeometry>,
        terminal: StatusGeometry,
        has_selected_cells: bool,
        changes: Vec<LineChange>,
        previous: Option<&Self>,
        screen: ScreenState,
        scrollbar: Option<RenderedPaneScrollbar>,
    ) -> (snapshot: Option<Self>)
        ensures
            snapshot is Some == (!has_selected_cells && showable(pane)),
            snapshot is Some ==> snapshot->0@ == ({
                let before = reusable_lines(previous, pane->0, terminal);
                snapshot_of(
                    pane->0,
                    terminal,
                    Seq::new(
                        changes@.len(),
                        |row: int| changed_line(changes@[row], row, before),
                    ),
                    changes@.map_values(|change: LineChange| change.revision),
                    screen,
                    scrollbar_contents(scrollbar),
                )
            }),
    {
        if has_selected_cells {
            return None;
        }
        let pane: PaneGeometry = match pane {
            Some(pane) => pane,
            None => {
                return None;
            },
        };
        if pane.cols == 0 || pane.rows == 0 {
            return None;
        }
        let ghost before = reusable_lines(previous, pane, terminal);
        let reused: Option<&Self> = Self::reusable_previous(previous, pane, terminal);
        let mut lines: Vec<Arc<Vec<u8>>> = Vec::new();
        let mut line_revisions: Vec<u64> = Vec::new();
        let mut row: usize = 0;
        while row < changes.len()
            invariant
                row <= changes@.len(),
                lines@.len() == row,
                line_revisions@.len() == row,
                reused is None ==> before.len() == 0,
                reused is Some ==> before == reused->0@.lines,
                forall|i: int|
                    0 <= i < row ==> #[trigger] lines@[i]@ == changed_line(changes@[i], i, before),
                forall|i: int| 0 <= i < row ==> #[trigger] line_revisions@[i] == changes@[i].revision,
            decreases changes@.len() - row,
        {
            let change: &LineChange = &changes[row];
            line_revisions.push(change.revision);
            let line: Arc<Vec<u8>> = match &change.rendered {
                Some(rendered) => {
                    let mut copy: Vec<u8> = Vec::new();
                    push_bytes(&mut copy, rendered.as_slice());
                    Arc::new(copy)
                },
                None => Self::reused_line(reused, change.previous_row, row),
            };
            lines.push(line);
            row = row + 1;
        }
        Some(Self::assemble(pane, terminal, lines, line_revisions, screen, scrollbar))
    }

    /// A line of the snapshot before: that of the row it had, else that of its row.
    fn reused_line(
        reused: Option<&Self>,
        previous_row: Option<usize>,
        row: usize,
    ) -> (line: Arc<Vec<u8>>)
        ensures
            line@ == ({
                let before = if reused is Some { reused->0@.lines } else { Seq::empty() };
                if previous_row is Some && previous_row->0 < before.len() {
                    before[previous_row->0 as int]
                } else {
                    line_or(before, row as int, Seq::empty())
                }
            }),
    {
        match reused {
            Some(before) => {
                match previous_row {
                    Some(old_row) => {
                        if old_row < before.lines.len() {
                            return before.lines[old_row].clone();
                        }
                    },
                    None => {},
                }
                if row < before.lines.len() {
                    return before.lines[row].clone();
                }
            },
            None => {},
        }
        let empty: Vec<u8> = Vec::new();
        Arc::new(empty)
    }
}

impl Clone for PaneRenderSnapshot {
    fn clone(&self) -> (copy: Self)
        ensures
            copy@ == self@,
    {
        let mut lines: Vec<Arc<Vec<u8>>> = Vec::new();
        let mut row: usize = 0;
        while row < self.lines.len()
            invariant
                row <= self.lines@.len(),
                lines@.len() == row,
                forall|i: int| 0 <= i < row ==> #[trigger] lines@[i]@ == self.lines@[i]@,
            decreases self.lines@.len() - row,
        {
            lines.push(self.lines[row].clone());
            row = row + 1;
        }
        let mut cursor: Vec<u8> = Vec::new();
        push_bytes(&mut cursor, self.cursor.as_slice());
        let line_revisions: Vec<u64> = self.line_revisions.clone();
        let scrollbar: Option<RenderedPaneScrollbar> = match &self.scrollbar {
            Some(scrollbar) => {
                let mut frame: Vec<u8> = Vec::new();
                push_bytes(&mut frame, scrollbar.frame.as_slice());
                Some(RenderedPaneScrollbar { frame })
            },
            None => None,
        };
        PaneRenderSnapshot {
            x: self.x,
            y: self.y,
            rows: self.rows,
            cols: self.cols,
            terminal_cols: self.terminal_cols,
            terminal_rows: self.terminal_rows,
            lines,
            cursor,
            cursor_row: self.cursor_row,
            cursor_col: self.cursor_col,
            cursor_style: self.cursor_style,
            title: self.title.clone(),
            path: self.path.clone(),
            mode: self.mode,
            line_revisions,
            scrollbar,
        }
    }
}

} // verus!
