//! Rendered lines: what is plain in them, what is visible, and how one line is
//! turned into another.
use crate::bytes::same_bytes;
use std::sync::Arc;
use vstd::prelude::*;

verus! {

/// The bits of a line revision that identify the line.
pub const LINE_REVISION_ID_MASK: u64 = 0xffff_ffff_0000_0000;

/// The bits of a line revision that count its changes.
pub const LINE_REVISION_GENERATION_MASK: u64 = 0x0000_0000_ffff_ffff;

/// The distance from one line identity to the next.
pub const LINE_REVISION_ID_STEP: u64 = 0x0000_0001_0000_0000;

/// A printable ASCII byte.
pub open spec fn printable(byte: u8) -> bool {
    ' ' as u8 <= byte <= '~' as u8
}

/// The line is printable ASCII and tabs, without any sequence.
pub open spec fn plain_line(line: Seq<u8>) -> bool {
    forall|i: int| 0 <= i < line.len() ==> printable(#[trigger] line[i]) || line[i] == '\t' as u8
}

/// The length of the line without its trailing spaces.
pub open spec fn visible_len(line: Seq<u8>) -> nat
    decreases line.len(),
{
    if line.len() == 0 {
        0
    } else if line.last() == ' ' as u8 {
        visible_len(line.drop_last())
    } else {
        line.len()
    }
}

/// What the lines of a pane hold.
pub open spec fn line_contents(lines: Seq<Arc<Vec<u8>>>) -> Seq<Seq<u8>> {
    lines.map_values(|line: Arc<Vec<u8>>| line@)
}

/// The line of a row, or `missing` where there is none.
pub open spec fn line_or(lines: Seq<Seq<u8>>, row: int, missing: Seq<u8>) -> Seq<u8> {
    if 0 <= row < lines.len() {
        lines[row]
    } else {
        missing
    }
}

/// The larger of two lengths.
pub open spec fn larger(left: nat, right: nat) -> nat {
    if left > right {
        left
    } else {
        right
    }
}

/// Some row other than `changed` differs, an absent row counting as empty.
pub open spec fn differs_elsewhere(
    previous: Seq<Seq<u8>>,
    next: Seq<Seq<u8>>,
    changed: int,
) -> bool {
    exists|row: int|
        0 <= row < larger(previous.len(), next.len()) && row != changed && #[trigger] line_or(
            previous,
            row,
            Seq::empty(),
        ) != line_or(next, row, Seq::empty())
}

/// What is written to turn one line into another, and whether the rest of the row is
/// cleared after it; none where the whole new line has to be written.
pub open spec fn compacted(previous: Seq<u8>, next: Seq<u8>, full_width: bool) -> Option<
    (Seq<u8>, bool),
> {
    let shrinks = visible_len(previous) > visible_len(next);
    if plain_line(previous) && plain_line(next) && (shrinks ==> full_width) {
        Some((next.take(visible_len(next) as int), shrinks))
    } else {
        None
    }
}

/// The largest line identity among the revisions, zero where there is none.
pub open spec fn largest_id(revisions: Seq<u64>) -> u64
    decreases revisions.len(),
{
    if revisions.len() == 0 {
        0
    } else {
        let before = largest_id(revisions.drop_last());
        let id = revisions.last() & LINE_REVISION_ID_MASK;
        if id > before {
            id
        } else {
            before
        }
    }
}

/// A revision for a line that has none: the identity after the largest one in use,
/// with no change counted.
pub open spec fn fresh_revision(revisions: Seq<u64>) -> u64 {
    let largest = largest_id(revisions);
    let raised = if largest + LINE_REVISION_ID_STEP > u64::MAX {
        u64::MAX
    } else {
        (largest + LINE_REVISION_ID_STEP) as u64
    };
    raised & LINE_REVISION_ID_MASK
}

/// The visible part is a part of the line, ends in no space, and is followed by
/// spaces only.
pub proof fn visible_part(line: Seq<u8>)
    ensures
        visible_len(line) <= line.len(),
        visible_len(line) > 0 ==> line[visible_len(line) - 1] != ' ' as u8,
        forall|i: int| visible_len(line) <= i < line.len() ==> line[i] == ' ' as u8,
    decreases line.len(),
{
    if line.len() > 0 && line.last() == ' ' as u8 {
        let shorter = line.drop_last();
        visible_part(shorter);
        assert forall|i: int| visible_len(line) <= i < line.len() implies line[i] == ' ' as u8 by {
            if i < shorter.len() {
                assert(shorter[i] == line[i]);
            }
        }
    }
}

/// Whether the byte is printable ASCII.
pub fn is_printable(byte: u8) -> (yes: bool)
    ensures
        yes == printable(byte),
{
    ' ' as u8 <= byte && byte <= '~' as u8
}

/// Whether a line is printable ASCII and tabs.
pub fn is_plain_ascii_render_line(line: &[u8]) -> (plain: bool)
    ensures
        plain == plain_line(line@),
{
    let mut index: usize = 0;
    while index < line.len()
        invariant
            index <= line.len(),
            forall|i: int|
                0 <= i < index ==> printable(#[trigger] line@[i]) || line@[i] == '\t' as u8,
        decreases line.len() - index,
    {
        if !is_printable(line[index]) && line[index] != '\t' as u8 {
            return false;
        }
        index = index + 1;
    }
    true
}

/// The length of a line without its trailing spaces.
pub fn trim_trailing_ascii_spaces_len(line: &[u8]) -> (len: usize)
    ensures
        len == visible_len(line@),
        len <= line@.len(),
{
    let mut len: usize = line.len();
    assert(line@.take(len as int) =~= line@);
    while len > 0 && line[len - 1] == ' ' as u8
        invariant
            len <= line.len(),
            visible_len(line@.take(len as int)) == visible_len(line@),
        decreases len,
    {
        assert(line@.take(len as int).drop_last() =~= line@.take(len - 1));
        len = len - 1;
    }
    len
}

/// What is written to turn one line into another, and whether the rest of the row is
/// cleared after it.
///
/// A line that shrinks is only cut short in a pane as wide as the terminal, where
/// clearing to the end of the row touches no other pane.
pub fn compact_plain_ascii_line_delta<'a>(
    previous_line: &[u8],
    next_line: &'a [u8],
    full_width: bool,
) -> (delta: Option<(&'a [u8], bool)>)
    ensures
        match delta {
            Some((line, clear)) => compacted(previous_line@, next_line@, full_width) == Some(
                (line@, clear),
            ),
            None => compacted(previous_line@, next_line@, full_width) is None,
        },
{
    if !is_plain_ascii_render_line(previous_line) || !is_plain_ascii_render_line(next_line) {
        return None;
    }
    let previous_visible: usize = trim_trailing_ascii_spaces_len(previous_line);
    let next_visible: usize = trim_trailing_ascii_spaces_len(next_line);
    if previous_visible > next_visible && !full_width {
        return None;
    }
    let line: &[u8] = &next_line[0..next_visible];
    Some((line, previous_visible > next_visible))
}

/// Whether some row other than `changed_row` differs.
pub fn other_rows_changed(
    previous: &Vec<Arc<Vec<u8>>>,
    next: &Vec<Arc<Vec<u8>>>,
    changed_row: usize,
) -> (changed: bool)
    ensures
        changed == differs_elsewhere(
            line_contents(previous@),
            line_contents(next@),
            changed_row as int,
        ),
{
    let ghost before = line_contents(previous@);
    let ghost after = line_contents(next@);
    let rows: usize = if previous.len() > next.len() {
        previous.len()
    } else {
        next.len()
    };
    let nothing: Vec<u8> = Vec::new();
    let mut row: usize = 0;
    while row < rows
        invariant
            row <= rows,
            rows == larger(previous@.len(), next@.len()),
            before == line_contents(previous@),
            after == line_contents(next@),
            nothing@ == Seq::<u8>::empty(),
            forall|i: int|
                0 <= i < row && i != changed_row ==> #[trigger] line_or(before, i, Seq::empty())
                    == line_or(after, i, Seq::empty()),
        decreases rows - row,
    {
        if row != changed_row {
            let previous_line: &[u8] = if row < previous.len() {
                previous[row].as_slice()
            } else {
                nothing.as_slice()
            };
            let next_line: &[u8] = if row < next.len() {
                next[row].as_slice()
            } else {
                nothing.as_slice()
            };
            assert(previous_line@ == line_or(before, row as int, Seq::empty()));
            if !same_bytes(previous_line, next_line) {
                return true;
            }
        }
        row = row + 1;
    }
    false
}

/// A revision for a line that has none.
pub fn next_synthetic_line_revision(revisions: &[u64]) -> (revision: u64)
    ensures
        revision == fresh_revision(revisions@),
{
    let mut largest: u64 = 0;
    let mut index: usize = 0;
    while index < revisions.len()
        invariant
            index <= revisions.len(),
            largest == largest_id(revisions@.take(index as int)),
        decreases revisions.len() - index,
    {
        let id: u64 = revisions[index] & LINE_REVISION_ID_MASK;
        assert(revisions@.take(index + 1).drop_last() =~= revisions@.take(index as int));
        if id > largest {
            largest = id;
        }
        index = index + 1;
    }
    assert(revisions@.take(index as int) =~= revisions@);
    largest.saturating_add(LINE_REVISION_ID_STEP) & LINE_REVISION_ID_MASK
}

/// A fresh revision identifies a line that no other revision in use identifies and
/// counts no change of it, as long as the identities are not used up.
pub proof fn fresh_revision_is_fresh(revisions: Seq<u64>, index: int)
    requires
        0 <= index < revisions.len(),
        largest_id(revisions) < LINE_REVISION_ID_MASK,
    ensures
        (fresh_revision(revisions) & LINE_REVISION_ID_MASK) != (revisions[index]
            & LINE_REVISION_ID_MASK),
        (fresh_revision(revisions) & LINE_REVISION_GENERATION_MASK) == 0,
{
    let largest = largest_id(revisions);
    largest_id_is_largest(revisions, index);
    largest_id_is_an_id(revisions);
    assert(largest + LINE_REVISION_ID_STEP <= u64::MAX && ({
        let raised = (largest + LINE_REVISION_ID_STEP) as u64;
        let fresh = raised & LINE_REVISION_ID_MASK;
        &&& (fresh & LINE_REVISION_ID_MASK) > largest
        &&& (fresh & LINE_REVISION_GENERATION_MASK) == 0
    })) by (bit_vector)
        requires
            largest < LINE_REVISION_ID_MASK,
            largest & LINE_REVISION_ID_MASK == largest,
    ;
}

/// No identity in use is larger than the largest one.
pub proof fn largest_id_is_largest(revisions: Seq<u64>, index: int)
    requires
        0 <= index < revisions.len(),
    ensures
        (revisions[index] & LINE_REVISION_ID_MASK) <= largest_id(revisions),
    decreases revisions.len(),
{
    if index < revisions.len() - 1 {
        largest_id_is_largest(revisions.drop_last(), index);
    }
}

/// The largest identity has no change bits.
pub proof fn largest_id_is_an_id(revisions: Seq<u64>)
    ensures
        largest_id(revisions) & LINE_REVISION_ID_MASK == largest_id(revisions),
    decreases revisions.len(),
{
    assert(0u64 & LINE_REVISION_ID_MASK == 0) by (bit_vector);
    if revisions.len() > 0 {
        largest_id_is_an_id(revisions.drop_last());
        let last = revisions.last();
        assert((last & LINE_REVISION_ID_MASK) & LINE_REVISION_ID_MASK == last
            & LINE_REVISION_ID_MASK) by (bit_vector);
    }
}

} // verus!
