use rmux_server::bytes::{parse_number, push_decimal, same_bytes};
use rmux_server::cursor::{cursor_position_bytes, replace_cursor_position_bytes};
use rmux_server::line_delta::{
    compact_plain_ascii_line_delta, is_plain_ascii_render_line, next_synthetic_line_revision,
    other_rows_changed, trim_trailing_ascii_spaces_len, LINE_REVISION_ID_MASK,
};
use rmux_server::text::{
    decimal_string, join_texts, occurs_in_lowercase, relate_text, same_ignoring_case, same_text,
    split_words, trim_text, Relation,
};
use std::sync::Arc;

#[test]
fn numbers_are_spelled_and_read() {
    let mut out = b"n=".to_vec();
    push_decimal(&mut out, u64::MAX);
    assert_eq!(out, b"n=18446744073709551615");
    assert_eq!(parse_number(b"0042", 100), Some(42));
    assert_eq!(parse_number(b"100", 100), Some(100));
    assert_eq!(parse_number(b"101", 100), None);
    assert_eq!(parse_number(b"", 100), None);
    assert_eq!(decimal_string(0), "0");
    assert_eq!(decimal_string(9087654321), "9087654321");
}

#[test]
fn texts_are_compared() {
    assert!(same_bytes(b"abc", b"abc"));
    assert!(!same_bytes(b"abc", b"abd"));
    assert!(same_text("\u{e9}", "\u{e9}"));
    assert!(!same_text("a", "ab"));
    assert!(same_ignoring_case("Sync", "sYNC"));
    assert!(!same_ignoring_case("\u{c9}", "\u{e9}"));
    assert_eq!(relate_text("a", "b"), Relation::Before);
    assert_eq!(relate_text("ab", "a"), Relation::After);
    assert_eq!(relate_text("\u{e9}", "z"), Relation::After);
    assert_eq!(relate_text("x", "x"), Relation::Same);
}

#[test]
fn texts_are_taken_apart_and_joined() {
    assert_eq!(trim_text(" \u{2003}a b\n"), "a b");
    assert_eq!(trim_text(" \t"), "");
    assert_eq!(split_words(" one\u{a0}two  three"), ["one", "two", "three"]);
    assert!(occurs_in_lowercase("utf-8", "en_US.UTF-8"));
    assert!(!occurs_in_lowercase("utf-8", "utf8"));
    assert!(occurs_in_lowercase("", ""));
    assert_eq!(join_texts(&Vec::new(), ","), "");
    assert_eq!(
        join_texts(&vec!["a".to_owned(), String::new(), "b".to_owned()], ","),
        "a,,b"
    );
}

#[test]
fn cursors_are_positioned_from_one() {
    assert_eq!(cursor_position_bytes(0, 0), b"\x1b[1;1H");
    assert_eq!(
        cursor_position_bytes(u16::MAX, 9),
        b"\x1b[65535;10H".to_vec()
    );
    let mut cursor = b"old".to_vec();
    replace_cursor_position_bytes(&mut cursor, 4, 8);
    assert_eq!(cursor, b"\x1b[5;9H");
}

#[test]
fn lines_are_compacted() {
    assert!(is_plain_ascii_render_line(b"a\tb ~"));
    assert!(!is_plain_ascii_render_line(b"\x1b[0m"));
    assert!(!is_plain_ascii_render_line(b"\x7f"));
    assert_eq!(trim_trailing_ascii_spaces_len(b" a  "), 2);
    assert_eq!(trim_trailing_ascii_spaces_len(b"   "), 0);
    assert_eq!(
        compact_plain_ascii_line_delta(b"abc  ", b"a    ", true),
        Some((&b"a"[..], true))
    );
    assert_eq!(
        compact_plain_ascii_line_delta(b"abc  ", b"a    ", false),
        None
    );
    assert_eq!(
        compact_plain_ascii_line_delta(b"a    ", b"abc  ", false),
        Some((&b"abc"[..], false))
    );
    assert_eq!(
        compact_plain_ascii_line_delta(b"a", b"\x1b[1mb", true),
        None
    );
}

#[test]
fn rows_besides_the_changed_one_are_compared() {
    let lines = |lines: &[&[u8]]| -> Vec<Arc<Vec<u8>>> {
        lines.iter().map(|line| Arc::new(line.to_vec())).collect()
    };
    assert!(!other_rows_changed(
        &lines(&[b"a", b"b"]),
        &lines(&[b"a", b"c"]),
        1
    ));
    assert!(other_rows_changed(
        &lines(&[b"a", b"b"]),
        &lines(&[b"x", b"c"]),
        1
    ));
    assert!(!other_rows_changed(&lines(&[b"a", b""]), &lines(&[b"a"]), 0));
    assert!(other_rows_changed(&lines(&[b"a", b"b"]), &lines(&[b"a"]), 0));
}

#[test]
fn fresh_revisions_follow_the_largest_identity() {
    assert_eq!(next_synthetic_line_revision(&[]), 1 << 32);
    assert_eq!(
        next_synthetic_line_revision(&[(3 << 32) + 7, 1 << 32]),
        4 << 32
    );
    assert_eq!(
        next_synthetic_line_revision(&[u64::MAX]),
        LINE_REVISION_ID_MASK
    );
}
