use std::sync::Arc;

use rmux_server::line_delta::{LINE_REVISION_GENERATION_MASK, LINE_REVISION_ID_MASK};
use rmux_server::pane_delta::{PaneRenderDelta, PaneRenderDeltaFrame};
use rmux_server::pane_mode::MODE_CURSOR;
use rmux_server::pane_snapshot::{
    capture_visible_pane_lines, pane_render_options, GridRenderOptions, LineChange, PaneGeometry,
    PaneRenderSnapshot, RenderedPaneScrollbar, ScreenState, StatusGeometry,
};

fn render_lines(lines: &[&[u8]]) -> Vec<Arc<Vec<u8>>> {
    lines
        .iter()
        .map(|line| Arc::new((*line).to_vec()))
        .collect()
}

/// Lines as a screen renders them: padded with spaces to the width of the pane.
fn padded_lines(lines: &[&[u8]], cols: usize) -> Vec<Vec<u8>> {
    lines
        .iter()
        .map(|line| {
            let mut line = (*line).to_vec();
            line.resize(cols, b' ');
            line
        })
        .collect()
}

fn screen_state(cursor_x: u32, cursor_y: u32, mode: u32) -> ScreenState {
    ScreenState {
        cursor_x,
        cursor_y,
        cursor_style: 0,
        title: String::new(),
        path: String::new(),
        mode,
    }
}

fn geometry(cols: u16, rows: u16) -> PaneGeometry {
    PaneGeometry {
        x: 0,
        y: 0,
        cols,
        rows,
    }
}

fn terminal(cols: u16, rows: u16) -> StatusGeometry {
    StatusGeometry {
        content_y_offset: 0,
        terminal_cols: cols,
        terminal_rows: rows,
    }
}

/// A pane of ten by three cells on a terminal of ten by `terminal_rows`.
fn capture_on(
    terminal_rows: u16,
    lines: &[&[u8]],
    revisions: &[u64],
    cursor: (u32, u32),
) -> PaneRenderSnapshot {
    PaneRenderSnapshot::capture(
        Some(geometry(10, 3)),
        terminal(10, terminal_rows),
        padded_lines(lines, 10),
        revisions.iter().map(|revision| Some(*revision)).collect(),
        screen_state(cursor.0, cursor.1, MODE_CURSOR),
        None,
    )
    .expect("snapshot")
}

fn capture(lines: &[&[u8]], revisions: &[u64], cursor: (u32, u32)) -> PaneRenderSnapshot {
    capture_on(4, lines, revisions, cursor)
}

fn incremental(before: &PaneRenderSnapshot, after: &PaneRenderSnapshot) -> PaneRenderDeltaFrame {
    match before.diff_to(after) {
        PaneRenderDelta::Incremental(delta) => delta,
        PaneRenderDelta::RequiresFullRefresh => panic!("the delta should stay incremental"),
    }
}

fn text_of(delta: &PaneRenderDeltaFrame) -> String {
    String::from_utf8(delta.frame().to_vec()).expect("delta is utf8")
}

#[test]
fn pane_delta_does_not_scroll_empty_zero_revision_rows_for_cursor_move() {
    let before = PaneRenderSnapshot {
        x: 0,
        y: 0,
        rows: 3,
        cols: 10,
        terminal_cols: 10,
        terminal_rows: 3,
        lines: render_lines(&[b"", b"", b""]),
        cursor: b"\x1b[1;1H".to_vec(),
        cursor_row: 0,
        cursor_col: 0,
        cursor_style: 0,
        title: String::new(),
        path: String::new(),
        mode: 0,
        line_revisions: vec![0, 0, 0],
        scrollbar: None,
    };
    let after = PaneRenderSnapshot {
        cursor: b"\x1b[1;2H".to_vec(),
        cursor_col: 1,
        ..before.clone()
    };

    let PaneRenderDelta::Incremental(delta) = before.diff_to(&after) else {
        panic!("cursor move should stay incremental");
    };
    let text = String::from_utf8(delta.frame().to_vec()).expect("delta is utf8");

    assert!(
        !text.contains('S'),
        "empty rows must not use scroll: {text:?}"
    );
    assert_eq!(delta.frame(), b"\x1b[1;2H");
}

#[test]
fn pane_snapshot_forwarded_plain_bytes_bumps_revision_once_per_line() {
    let mut snapshot = PaneRenderSnapshot {
        x: 0,
        y: 0,
        rows: 2,
        cols: 10,
        terminal_cols: 10,
        terminal_rows: 2,
        lines: render_lines(&[b"", b""]),
        cursor: b"\x1b[1;1H".to_vec(),
        cursor_row: 0,
        cursor_col: 0,
        cursor_style: 0,
        title: String::new(),
        path: String::new(),
        mode: 0,
        line_revisions: vec![7, 11],
        scrollbar: None,
    };

    assert!(snapshot.apply_forwarded_plain_bytes(b"abc\r\ndef"));

    assert_eq!(snapshot.line_revisions, vec![8, 12]);
}

#[test]
fn pane_delta_renders_only_changed_lines_and_cursor() {
    let before = capture(&[b"abc", b"", b""], &[1 << 32, 2 << 32, 3 << 32], (3, 0));
    let after = capture(
        &[b"abcd", b"", b""],
        &[(1 << 32) + 1, 2 << 32, 3 << 32],
        (4, 0),
    );

    assert_eq!(text_of(&incremental(&before, &after)), "d");
}

#[test]
fn pane_delta_repaints_scrollbar_when_history_changes() {
    let lines: [&[u8]; 3] = [b"one", b"two", b"three"];
    let before = PaneRenderSnapshot {
        scrollbar: Some(RenderedPaneScrollbar {
            frame: b"\x1b[1;10H\x1b[0;30;47m \x1b[2;10H\x1b[0;30;47m ".to_vec(),
        }),
        ..capture(&lines, &[1, 2, 3], (5, 2))
    };
    let after = PaneRenderSnapshot {
        scrollbar: Some(RenderedPaneScrollbar {
            frame: b"\x1b[1;10H\x1b[0;37;40m \x1b[2;10H\x1b[0;30;47m ".to_vec(),
        }),
        ..before.clone()
    };

    let delta = incremental(&before, &after);

    assert!(delta
        .frame()
        .windows(b"\x1b[1;10H\x1b[0;37;40m ".len())
        .any(|window| window == b"\x1b[1;10H\x1b[0;37;40m "));
    assert!(delta
        .frame()
        .windows(b"\x1b[2;10H\x1b[0;30;47m ".len())
        .any(|window| window == b"\x1b[2;10H\x1b[0;30;47m "));
}

#[test]
fn pane_delta_keeps_styled_zwj_text_at_right_edge() {
    let styled = "\u{1b}[31m\u{1f469}\u{200d}\u{1f4bb}ABC";
    let snapshot = |line: &[u8], revision: u64| {
        PaneRenderSnapshot::capture(
            Some(geometry(5, 3)),
            terminal(5, 3),
            vec![line.to_vec(), b"     ".to_vec(), b"     ".to_vec()],
            vec![Some(revision), Some(8), Some(9)],
            screen_state(0, 0, MODE_CURSOR),
            None,
        )
        .expect("snapshot")
    };
    let before = snapshot(b"     ", 1);
    let after = snapshot(styled.as_bytes(), 2);

    let frame = text_of(&incremental(&before, &after));

    assert!(
        frame.contains("\u{1b}[31m\u{1f469}\u{200d}\u{1f4bb}ABC"),
        "delta repaint must preserve styled ZWJ cells and following text: {frame:?}"
    );
}

#[test]
fn pane_delta_trims_plain_ascii_padding_for_short_line_growth() {
    let before = capture(&[b"", b"", b""], &[1, 2, 3], (0, 0));
    let after = capture(&[b"abc", b"", b""], &[4, 2, 3], (3, 0));

    let text = text_of(&incremental(&before, &after));

    assert_eq!(text, "abc");
    assert!(
        !text.contains("abc       "),
        "plain ASCII append should not repaint trailing padding: {text:?}"
    );
    assert!(!text.contains("\u{1b}[K"), "{text:?}");
}

#[test]
fn pane_delta_uses_plain_ascii_cursor_append_for_line_advance() {
    let before = capture(&[b"", b"", b""], &[1, 2, 3], (0, 0));
    let after = capture(&[b"abc", b"", b""], &[4, 2, 3], (0, 1));

    let delta = incremental(&before, &after);

    assert_eq!(delta.frame(), b"abc\r\n");
}

#[test]
fn pane_snapshot_raw_forwarding_rejects_plain_bottom_scroll_with_status_line() {
    let snapshot = capture(&[b"", b"", b""], &[1, 2, 3], (0, 2));

    assert!(!snapshot.can_forward_plain_bytes(b"x\r\n"));
    assert!(snapshot.can_forward_plain_bytes(b"x"));
    assert!(!snapshot.can_forward_plain_bytes(b"\x1b[31m"));
}

#[test]
fn pane_snapshot_raw_forwarding_allows_plain_bottom_scroll_without_status_line() {
    let snapshot = capture_on(3, &[b"", b"", b""], &[1, 2, 3], (0, 2));

    assert!(snapshot.can_forward_plain_bytes(b"x\r\n"));
    assert!(snapshot.can_forward_plain_bytes(b"x"));
    assert!(!snapshot.can_forward_plain_bytes(b"\x1b[31m"));
}

#[test]
fn pane_snapshot_builds_positioned_echo_for_split_panes() {
    let snapshot = PaneRenderSnapshot {
        x: 10,
        y: 2,
        rows: 3,
        cols: 20,
        terminal_cols: 80,
        terminal_rows: 24,
        lines: render_lines(&[b"prompt>             ", b"", b""]),
        cursor: b"\x1b[3;18H".to_vec(),
        cursor_row: 2,
        cursor_col: 17,
        cursor_style: 0,
        title: String::new(),
        path: String::new(),
        mode: 0,
        line_revisions: vec![1, 0, 0],
        scrollbar: None,
    };

    let frame = snapshot
        .positioned_plain_echo_frame(b"abc")
        .expect("split pane echo can be positioned");

    assert_eq!(frame, b"\x1b[3;18Habc\x1b[3;21H");
}

#[test]
fn pane_snapshot_rejects_positioned_echo_on_styled_or_wrapping_input() {
    let snapshot = PaneRenderSnapshot {
        x: 10,
        y: 2,
        rows: 1,
        cols: 4,
        terminal_cols: 80,
        terminal_rows: 24,
        lines: render_lines(&[b"\x1b[31mred"]),
        cursor: b"\x1b[3;14H".to_vec(),
        cursor_row: 2,
        cursor_col: 13,
        cursor_style: 0,
        title: String::new(),
        path: String::new(),
        mode: 0,
        line_revisions: vec![1],
        scrollbar: None,
    };

    assert!(snapshot.positioned_plain_echo_frame(b"x").is_none());
    assert!(PaneRenderSnapshot {
        lines: render_lines(&[b"    "]),
        ..snapshot
    }
    .positioned_plain_echo_frame(b"xy")
    .is_none());
}

#[test]
fn pane_snapshot_applies_forwarded_plain_bytes_without_recapture() {
    let mut snapshot = capture(&[b"", b"", b""], &[1, 2, 3], (0, 0));

    assert!(snapshot.apply_forwarded_plain_bytes(b"abc\r\n"));

    assert_eq!(&snapshot.lines[0][..3], b"abc");
    assert_eq!(snapshot.cursor_row, 1);
    assert_eq!(snapshot.cursor_col, 0);
    assert_eq!(snapshot.cursor, b"\x1b[2;1H");
}

#[test]
fn pane_snapshot_applies_positioned_echo_for_split_panes() {
    let mut snapshot = PaneRenderSnapshot {
        x: 10,
        y: 2,
        rows: 3,
        cols: 20,
        terminal_cols: 80,
        terminal_rows: 24,
        lines: render_lines(&[b"prompt>             ", b"", b""]),
        cursor: b"\x1b[3;18H".to_vec(),
        cursor_row: 2,
        cursor_col: 17,
        cursor_style: 0,
        title: String::new(),
        path: String::new(),
        mode: 0,
        line_revisions: vec![1, 0, 0],
        scrollbar: None,
    };

    assert!(!snapshot.can_forward_plain_bytes(b"abc"));
    assert!(snapshot.apply_forwarded_plain_bytes(b"abc"));

    assert_eq!(&snapshot.lines[0][7..10], b"abc");
    assert_eq!(snapshot.cursor_col, 20);
    assert_eq!(snapshot.cursor, b"\x1b[3;21H");
}

#[test]
fn pane_delta_clears_full_width_line_when_plain_ascii_shrinks() {
    let before = capture(&[b"abcdefghij", b"", b""], &[1, 2, 3], (9, 0));
    let after = capture(&[b"abc", b"", b""], &[4, 2, 3], (3, 0));

    let text = text_of(&incremental(&before, &after));

    assert!(text.contains("\u{1b}[1;1H\u{1b}[0mabc\u{1b}[K"), "{text:?}");
    assert!(
        !text.contains("abc       "),
        "full-width shrink should clear instead of repainting padding: {text:?}"
    );
}

#[test]
fn pane_delta_keeps_padding_for_plain_ascii_shrink_inside_split_pane() {
    let before = PaneRenderSnapshot {
        x: 2,
        y: 0,
        rows: 1,
        cols: 5,
        terminal_cols: 10,
        terminal_rows: 1,
        lines: render_lines(&[b"abcde"]),
        cursor: b"\x1b[1;6H".to_vec(),
        cursor_row: 0,
        cursor_col: 5,
        cursor_style: 0,
        title: String::new(),
        path: String::new(),
        mode: 0,
        line_revisions: vec![1],
        scrollbar: None,
    };
    let after = PaneRenderSnapshot {
        lines: render_lines(&[b"ab   "]),
        cursor: b"\x1b[1;4H".to_vec(),
        cursor_col: 3,
        line_revisions: vec![2],
        ..before.clone()
    };

    let PaneRenderDelta::Incremental(delta) = before.diff_to(&after) else {
        panic!("split pane shrink should stay incremental");
    };
    let text = String::from_utf8(delta.frame().to_vec()).expect("delta is utf8");

    assert!(text.contains("\u{1b}[1;3H\u{1b}[0mab   "), "{text:?}");
    assert!(
        !text.contains("\u{1b}[K"),
        "split pane shrink must not clear outside pane bounds: {text:?}"
    );
}

#[test]
fn pane_delta_keeps_title_changes_incremental() {
    let before = capture(&[b"abc", b"", b""], &[1, 2, 3], (3, 0));
    let after = PaneRenderSnapshot {
        title: "new title".to_owned(),
        ..before.clone()
    };

    assert_eq!(
        before.diff_to(&after),
        PaneRenderDelta::Incremental(PaneRenderDeltaFrame::new(Vec::new(), None))
    );
}

#[test]
fn pane_delta_renders_new_prompt_lines_incrementally() {
    let before = capture(&[b"abc", b"", b""], &[1, 2, 3], (3, 0));
    let after = capture(&[b"abc", b"def", b""], &[1, 4, 3], (3, 1));

    let text = text_of(&incremental(&before, &after));

    assert!(text.contains("\u{1b}[2;1H"));
    assert!(text.contains("def"));
    assert!(text.ends_with("\u{1b}[2;4H\u{1b}[?25h"));
}

#[test]
fn pane_delta_scrolls_full_width_panes_instead_of_repainting_shifted_rows() {
    let before = capture(&[b"one", b"two", b"three"], &[1, 2, 3], (5, 2));
    let after = capture(&[b"two", b"three", b"four"], &[2, 3, 4], (4, 2));

    let text = text_of(&incremental(&before, &after));

    assert!(text.contains("\u{1b}[1;3r"), "{text:?}");
    assert!(text.contains("\u{1b}[1S"), "{text:?}");
    assert!(text.contains("\u{1b}[3;1H\u{1b}[0mfour"), "{text:?}");
    assert!(
        !text.contains("\u{1b}[1;1H\u{1b}[0mtwo"),
        "shifted rows should be moved by terminal scroll, not repainted: {text:?}"
    );
}

#[test]
fn pane_snapshot_plain_forwarding_handles_bottom_scroll() {
    let mut forwarded = capture_on(
        3,
        &[b"one", b"two", b"three"],
        &[1 << 32, 2 << 32, 3 << 32],
        (5, 2),
    );
    let before_revisions = forwarded.line_revisions.clone();

    assert!(forwarded.can_forward_plain_bytes(b"\r\nfour"));
    assert!(forwarded.apply_forwarded_plain_bytes(b"\r\nfour"));

    let recaptured = capture_on(
        3,
        &[b"two", b"three", b"four"],
        &[2 << 32, 3 << 32, (4 << 32) + 1],
        (4, 2),
    );

    assert_eq!(forwarded.lines, recaptured.lines);
    assert_eq!(forwarded.cursor, recaptured.cursor);
    assert_eq!(forwarded.cursor_row, recaptured.cursor_row);
    assert_eq!(forwarded.cursor_col, recaptured.cursor_col);
    assert_eq!(
        &forwarded.line_revisions[..2],
        &recaptured.line_revisions[..2],
        "scrolled rows must retain their original line identities"
    );
    assert_ne!(
        forwarded.line_revisions[2] & LINE_REVISION_ID_MASK,
        before_revisions[2] & LINE_REVISION_ID_MASK,
        "bottom scroll must allocate a fresh line identity"
    );
    assert_eq!(
        forwarded.line_revisions[2] & LINE_REVISION_GENERATION_MASK,
        1,
        "writing to the fresh bottom line bumps its generation once"
    );
}

#[test]
fn pane_snapshot_positioned_plain_output_rejects_split_pane_scroll() {
    let snapshot = || {
        PaneRenderSnapshot::capture(
            Some(PaneGeometry {
                x: 11,
                y: 0,
                cols: 9,
                rows: 3,
            }),
            terminal(20, 4),
            padded_lines(&[b"one", b"two", b"three"], 9),
            vec![Some(1), Some(2), Some(3)],
            screen_state(5, 2, MODE_CURSOR),
            None,
        )
        .expect("snapshot")
    };
    let mut forwarded = snapshot();

    assert!(
        forwarded
            .positioned_plain_output_frame(b"\r\nfour")
            .is_none(),
        "split-pane scroll must not emit DECSTBM/SU because that scrolls all terminal columns"
    );
    assert_eq!(
        forwarded,
        snapshot(),
        "rejected positioned plain output must not mutate the reusable snapshot"
    );
}

fn rendered(revision: u64, line: &[u8]) -> LineChange {
    LineChange {
        revision,
        rendered: Some(padded_lines(&[line], 10).remove(0)),
        previous_row: None,
    }
}

fn moved(revision: u64, previous_row: usize) -> LineChange {
    LineChange {
        revision,
        rendered: None,
        previous_row: Some(previous_row),
    }
}

fn capture_changes(
    changes: Vec<LineChange>,
    previous: Option<&PaneRenderSnapshot>,
    cursor: (u32, u32),
) -> Option<PaneRenderSnapshot> {
    PaneRenderSnapshot::capture_unstyled_transcript_reusing(
        Some(geometry(10, 3)),
        terminal(10, 4),
        false,
        changes,
        previous,
        screen_state(cursor.0, cursor.1, MODE_CURSOR),
        None,
    )
}

#[test]
fn pane_delta_reuses_rendered_lines_shifted_by_scroll() {
    let before = capture_changes(
        vec![
            rendered(1, b"one"),
            rendered(2, b"two"),
            rendered(3, b"three"),
        ],
        None,
        (5, 2),
    )
    .expect("before snapshot");

    let after = capture_changes(
        vec![moved(2, 1), moved(3, 2), rendered(4, b"four")],
        Some(&before),
        (4, 2),
    )
    .expect("after snapshot");

    assert_eq!(after.lines[0], before.lines[1]);
    assert_eq!(after.lines[1], before.lines[2]);
    assert!(Arc::ptr_eq(&after.lines[0], &before.lines[1]));
    assert!(Arc::ptr_eq(&after.lines[1], &before.lines[2]));
    assert!(String::from_utf8(after.lines[2].as_ref().clone())
        .expect("line is utf8")
        .contains("four"));

    let text = text_of(&incremental(&before, &after));
    assert!(text.contains("\u{1b}[1;3r"), "{text:?}");
    assert!(
        !text.contains("\u{1b}[1;1H\u{1b}[0mtwo"),
        "shifted rows should be moved by terminal scroll, not repainted: {text:?}"
    );
}

#[test]
fn pane_delta_live_capture_applies_window_style_without_full_screen_clone() {
    let snapshot = capture_changes(
        vec![
            rendered(1, b"\x1b[41mone"),
            rendered(2, b"\x1b[41mtwo"),
            rendered(3, b"\x1b[41mthree"),
        ],
        None,
        (5, 2),
    )
    .expect("styled live snapshot should not require full screen clone");

    let line = String::from_utf8(snapshot.lines[0].as_ref().clone()).expect("line is utf8");
    assert!(line.contains("\u{1b}[41mone"), "{line:?}");
}

#[test]
fn pane_snapshot_full_frame_repaints_all_visible_lines() {
    let snapshot = capture(&[b"abc", b"def", b""], &[1, 2, 3], (3, 1));

    let text = String::from_utf8(snapshot.full_frame()).expect("frame is utf8");

    assert!(text.contains("\u{1b}[1;1H\u{1b}[0mabc"));
    assert!(text.contains("\u{1b}[2;1H\u{1b}[0mdef"));
    assert!(text.starts_with("\u{1b}[s\u{1b}[?25l\u{1b}[0m"));
    assert!(text.ends_with("\u{1b}[2;4H\u{1b}[?25h"));
}

#[test]
fn pane_snapshot_full_frame_restores_hidden_cursor_state() {
    let snapshot = PaneRenderSnapshot {
        mode: 0,
        ..capture(&[b"abc", b"", b""], &[1, 2, 3], (3, 0))
    };

    let text = String::from_utf8(snapshot.full_frame()).expect("frame is utf8");

    assert!(text.starts_with("\u{1b}[s\u{1b}[?25l\u{1b}[0m"));
    assert!(text.ends_with("\u{1b}[1;4H\u{1b}[?25l"));
}

#[test]
fn pane_delta_emits_cursor_visibility_only_change() {
    let before = capture(&[b"abc", b"", b""], &[1, 2, 3], (3, 0));
    let after = PaneRenderSnapshot {
        mode: 0,
        ..before.clone()
    };

    assert_eq!(
        incremental(&before, &after).frame(),
        b"\x1b[1;4H\x1b[?25l"
    );
}

#[test]
fn pane_snapshot_full_frame_resets_before_default_row_after_styled_full_width_row() {
    let snapshot = PaneRenderSnapshot {
        lines: render_lines(&[b"\x1b[48;5;255m          ", b"plain     ", b"          "]),
        ..capture(&[b"", b"", b""], &[1, 2, 3], (5, 1))
    };

    let text = String::from_utf8(snapshot.full_frame()).expect("frame is utf8");

    assert!(
        text.contains("\u{1b}[1;1H\u{1b}[0m\u{1b}[48;5;255m          "),
        "{text:?}"
    );
    assert!(
        text.contains("\u{1b}[2;1H\u{1b}[0mplain"),
        "default rows must not inherit the previous row's background: {text:?}"
    );
}

#[test]
fn pane_delta_repaints_blank_lines_when_background_changes() {
    let before = capture(&[b"alpha", b"          ", b""], &[1, 2, 3], (9, 1));
    let after = PaneRenderSnapshot {
        lines: render_lines(&[
            b"\x1b[48;2;20;20;20malpha\x1b[0m     ",
            b"\x1b[48;2;20;20;20m          ",
            b"          ",
        ]),
        line_revisions: vec![4, 5, 3],
        ..before.clone()
    };

    let text = text_of(&incremental(&before, &after));

    assert!(text.contains("\u{1b}[1;1H"));
    assert!(text.contains("\u{1b}[48;2;20;20;20m"));
    assert!(text.contains("\u{1b}[2;1H"));
}

#[test]
fn pane_delta_resets_each_repainted_row_independently() {
    let before = capture(&[b"0123456789", b"base", b""], &[1, 2, 3], (4, 1));
    let after = PaneRenderSnapshot {
        lines: render_lines(&[
            b"\x1b[48;2;20;20;20mabcdefghij",
            b"next      ",
            b"          ",
        ]),
        line_revisions: vec![4, 5, 3],
        ..before.clone()
    };

    let text = text_of(&incremental(&before, &after));

    assert!(
        text.contains("\u{1b}[1;1H\u{1b}[0m\u{1b}[48;2;20;20;20mabcdefghij"),
        "{text:?}"
    );
    assert!(
        text.contains("\u{1b}[2;1H\u{1b}[0mnext"),
        "the second row must not inherit row one's background: {text:?}"
    );
}

fn hidden_cursor_snapshot(lines: &[&[u8]], revisions: Vec<u64>) -> PaneRenderSnapshot {
    PaneRenderSnapshot {
        x: 0,
        y: 0,
        rows: lines.len() as u16,
        cols: 10,
        terminal_cols: 10,
        terminal_rows: lines.len() as u16,
        lines: render_lines(lines),
        cursor: b"\x1b[1;1H".to_vec(),
        cursor_row: 0,
        cursor_col: 0,
        cursor_style: 0,
        title: String::new(),
        path: String::new(),
        mode: 0,
        line_revisions: revisions,
        scrollbar: None,
    }
}

fn assert_restore_is_followed_by_cursor_state(frame: &[u8], path: &str) {
    let text = String::from_utf8(frame.to_vec()).expect("frame is utf8");
    assert!(
        text.contains("\u{1b}[u"),
        "{path} was expected to emit a cursor restore: {text:?}"
    );
    assert!(
        !text.ends_with("\u{1b}[u"),
        "{path} ends on a bare restore, which parks the cursor: {text:?}"
    );
    assert!(
        text.ends_with("\u{1b}[?25l"),
        "{path} must re-assert the hidden cursor after the restore: {text:?}"
    );
}

#[test]
fn diff_to_reasserts_cursor_after_restore_when_visibility_is_unchanged() {
    let before = hidden_cursor_snapshot(&[b"aaa", b"bbb"], vec![1, 1]);
    let after = PaneRenderSnapshot {
        lines: render_lines(&[b"aaa", b"ccc"]),
        line_revisions: vec![1, 2],
        ..before.clone()
    };

    let PaneRenderDelta::Incremental(delta) = before.diff_to(&after) else {
        panic!("a single changed row should stay incremental");
    };

    assert_restore_is_followed_by_cursor_state(delta.frame(), "diff_to");
}

#[test]
fn diff_scroll_up_reasserts_cursor_after_restore_when_visibility_is_unchanged() {
    let before = hidden_cursor_snapshot(&[b"one", b"two", b"three"], vec![1, 2, 3]);
    let after = PaneRenderSnapshot {
        lines: render_lines(&[b"two", b"three", b"four"]),
        line_revisions: vec![2, 3, 4],
        ..before.clone()
    };

    let PaneRenderDelta::Incremental(delta) = before.diff_to(&after) else {
        panic!("a one-row scroll should stay incremental");
    };

    assert_restore_is_followed_by_cursor_state(delta.frame(), "diff_scroll_up_to");
}

#[test]
fn positioned_plain_output_reasserts_cursor_after_restore() {
    let mut snapshot = PaneRenderSnapshot {
        x: 2,
        cols: 8,
        terminal_cols: 10,
        cursor: b"\x1b[1;3H".to_vec(),
        cursor_col: 2,
        ..hidden_cursor_snapshot(&[b"", b""], vec![0, 0])
    };

    let frame = snapshot
        .positioned_plain_output_frame(b"abc")
        .expect("plain ascii output on an offset pane takes the positioned path");

    assert_restore_is_followed_by_cursor_state(&frame, "positioned_plain_output_frame");
}

#[test]
fn a_moved_pane_requires_a_full_refresh() {
    let before = capture(&[b"abc", b"", b""], &[1, 2, 3], (3, 0));
    for after in [
        PaneRenderSnapshot {
            x: 1,
            ..before.clone()
        },
        PaneRenderSnapshot {
            y: 1,
            ..before.clone()
        },
        PaneRenderSnapshot {
            rows: 2,
            ..before.clone()
        },
        PaneRenderSnapshot {
            cols: 9,
            ..before.clone()
        },
    ] {
        assert!(before.requires_full_refresh(&after));
        assert_eq!(before.diff_to(&after), PaneRenderDelta::RequiresFullRefresh);
    }
    assert!(!before.requires_full_refresh(&before));
}

#[test]
fn an_unchanged_pane_writes_nothing() {
    let snapshot = capture(&[b"abc", b"def", b"ghi"], &[1, 2, 3], (3, 2));
    let delta = incremental(&snapshot, &snapshot);
    assert!(delta.frame().is_empty());
    assert_eq!(delta.cursor_style(), None);
}

#[test]
fn a_changed_cursor_shape_is_named() {
    let before = capture(&[b"abc", b"", b""], &[1, 2, 3], (3, 0));
    let after = PaneRenderSnapshot {
        cursor_style: 5,
        ..before.clone()
    };
    let delta = incremental(&before, &after);
    assert_eq!(delta.cursor_style(), Some(5));
    assert!(delta.frame().is_empty());
    assert_eq!(after.cursor_style(), 5);
}

#[test]
fn a_changed_row_is_written_between_save_and_cursor_state() {
    let before = hidden_cursor_snapshot(&[b"aaa", b"bbb"], vec![1, 2]);
    let after = PaneRenderSnapshot {
        lines: render_lines(&[b"aaa", b"ccc"]),
        line_revisions: vec![1, 3],
        ..before.clone()
    };
    assert_eq!(
        incremental(&before, &after).frame(),
        b"\x1b[s\x1b[?25l\x1b[2;1H\x1b[0mccc\x1b[0m\x1b[u\x1b[1;1H\x1b[?25l"
    );
}

#[test]
fn a_scroll_moves_rows_and_fills_the_rest() {
    let before = hidden_cursor_snapshot(&[b"one", b"two", b"three"], vec![1, 2, 3]);
    let after = PaneRenderSnapshot {
        lines: render_lines(&[b"three", b"four", b""]),
        line_revisions: vec![3, 4, 5],
        ..before.clone()
    };
    assert_eq!(
        incremental(&before, &after).frame(),
        b"\x1b[s\x1b[?25l\x1b[1;3r\x1b[2S\x1b[r\x1b[2;1H\x1b[0mfour\x1b[3;1H\x1b[0m\x1b[0m\x1b[u\x1b[1;1H\x1b[?25l"
    );
}

#[test]
fn positioned_output_applies_what_forwarding_applies() {
    let start = PaneRenderSnapshot {
        x: 2,
        y: 1,
        cols: 8,
        terminal_cols: 12,
        cursor: b"\x1b[2;3H".to_vec(),
        cursor_row: 1,
        cursor_col: 2,
        ..hidden_cursor_snapshot(&[b"", b"xy"], vec![5, 6])
    };
    let mut positioned = start.clone();
    let mut forwarded = start.clone();
    let frame = positioned
        .positioned_plain_output_frame(b"ab\r\ncd")
        .expect("plain output is positioned");
    assert!(forwarded.apply_forwarded_plain_bytes(b"ab\r\ncd"));
    assert_eq!(positioned, forwarded);
    assert_eq!(positioned.line_revisions, vec![6, 7]);
    assert_eq!(*positioned.lines[1], b"cd      ".to_vec());
    assert_eq!(
        frame,
        b"\x1b[s\x1b[?25l\x1b[0m\x1b[2;3Hab\x1b[3;3Hcd\x1b[0m\x1b[u\x1b[3;5H\x1b[?25l"
    );
}

#[test]
fn output_that_overruns_its_line_is_not_plain() {
    let mut snapshot = hidden_cursor_snapshot(&[b""], vec![1]);
    assert_eq!(snapshot.plain_bytes_would_scroll(b"0123456789"), Some(false));
    assert_eq!(snapshot.plain_bytes_would_scroll(b"0123456789a"), None);
    assert_eq!(snapshot.plain_bytes_would_scroll(b"a\n"), Some(true));
    assert!(!snapshot.can_apply_plain_bytes_to_snapshot(b"\x1b"));
    let before = snapshot.clone();
    assert!(!snapshot.apply_forwarded_plain_bytes(b"0123456789a"));
    assert_eq!(snapshot, before);
}

#[test]
fn output_to_an_absent_row_keeps_what_came_before() {
    let mut snapshot = PaneRenderSnapshot {
        rows: 2,
        ..hidden_cursor_snapshot(&[b""], vec![1])
    };
    assert!(!snapshot.apply_forwarded_plain_bytes(b"a\r\nb"));
    assert_eq!(*snapshot.lines[0], b"a         ".to_vec());
    assert_eq!(snapshot.line_revisions, vec![1]);
    assert_eq!(snapshot.cursor_row, 0);
}

#[test]
fn the_capacity_hint_counts_lines_rows_and_scrollbar() {
    let snapshot = PaneRenderSnapshot {
        scrollbar: Some(RenderedPaneScrollbar {
            frame: b"12345".to_vec(),
        }),
        ..hidden_cursor_snapshot(&[b"abc", b"de"], vec![1, 2])
    };
    assert_eq!(snapshot.frame_capacity_hint(), 5 + 2 * 16 + 5 + 32);
}

#[test]
fn a_capture_places_the_cursor_inside_the_pane() {
    let snapshot = PaneRenderSnapshot::capture(
        Some(PaneGeometry {
            x: 4,
            y: 2,
            cols: 5,
            rows: 3,
        }),
        StatusGeometry {
            content_y_offset: 1,
            terminal_cols: 20,
            terminal_rows: 10,
        },
        vec![b"abc".to_vec()],
        vec![Some(9), None],
        screen_state(99, 99, 0),
        None,
    )
    .expect("snapshot");
    assert_eq!((snapshot.x, snapshot.y), (4, 3));
    assert_eq!((snapshot.cursor_row, snapshot.cursor_col), (5, 8));
    assert_eq!(snapshot.cursor, b"\x1b[6;9H");
    assert_eq!(snapshot.line_revisions, vec![9, 0, 0]);
}

#[test]
fn nothing_is_captured_of_a_pane_without_cells() {
    for pane in [None, Some(geometry(0, 3)), Some(geometry(10, 0))] {
        assert!(PaneRenderSnapshot::capture(
            pane,
            terminal(10, 4),
            Vec::new(),
            Vec::new(),
            screen_state(0, 0, 0),
            None,
        )
        .is_none());
    }
    assert!(PaneRenderSnapshot::capture_unstyled_transcript_reusing(
        Some(geometry(10, 3)),
        terminal(10, 4),
        true,
        Vec::new(),
        None,
        screen_state(0, 0, 0),
        None,
    )
    .is_none());
}

#[test]
fn a_moved_pane_reuses_no_lines() {
    let before = capture(&[b"one", b"two", b"three"], &[1, 2, 3], (0, 0));
    assert!(
        PaneRenderSnapshot::reusable_previous(Some(&before), geometry(10, 3), terminal(10, 4))
            .is_some()
    );
    assert!(
        PaneRenderSnapshot::reusable_previous(Some(&before), geometry(10, 2), terminal(10, 4))
            .is_none()
    );
    let unchanged = LineChange {
        revision: 1,
        rendered: None,
        previous_row: None,
    };
    let kept = capture_changes(vec![unchanged.clone()], Some(&before), (0, 0)).expect("snapshot");
    assert!(Arc::ptr_eq(&kept.lines[0], &before.lines[0]));
    let fresh = capture_changes(vec![unchanged], None, (0, 0)).expect("snapshot");
    assert!(fresh.lines[0].is_empty());
}

#[test]
fn captured_lines_come_from_the_selection_or_the_visible_rows() {
    let selection = vec![b"s1".to_vec(), b"s2".to_vec(), b"s3".to_vec()];
    let visible = vec![Some(b"v1".to_vec()), None, Some(b"v3".to_vec())];
    assert_eq!(
        capture_visible_pane_lines(true, Some(selection.clone()), visible.clone(), 2),
        vec![b"s1".to_vec(), b"s2".to_vec()]
    );
    assert_eq!(
        capture_visible_pane_lines(true, None, visible.clone(), 3),
        vec![b"v1".to_vec(), b"v3".to_vec()]
    );
    assert_eq!(
        capture_visible_pane_lines(false, Some(selection), visible, 2),
        vec![b"v1".to_vec()]
    );
    assert_eq!(
        pane_render_options(),
        GridRenderOptions {
            with_sequences: true,
            include_empty_cells: true,
            trim_spaces: false,
        }
    );
}
