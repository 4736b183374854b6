//! Cursor positioning sequences.
use crate::bytes::{decimal, push_bytes, push_decimal, ESC};
use vstd::prelude::*;

verus! {

/// The sum of two coordinates, held at the largest coordinate.
pub open spec fn capped_sum(left: u16, right: u16) -> u16 {
    if left + right > u16::MAX {
        u16::MAX
    } else {
        (left + right) as u16
    }
}

/// The sequence that moves the cursor to a cell, counted from zero.
pub open spec fn position(row: u16, col: u16) -> Seq<u8> {
    seq![ESC, '[' as u8] + decimal(capped_sum(row, 1) as nat) + seq![';' as u8] + decimal(
        capped_sum(col, 1) as nat,
    ) + seq!['H' as u8]
}

/// Appends the sequence that moves the cursor to a cell.
pub fn push_cursor_position(out: &mut Vec<u8>, row: u16, col: u16)
    ensures
        final(out)@ == old(out)@ + position(row, col),
{
    push_bytes(out, &[ESC, '[' as u8]);
    push_decimal(out, row.saturating_add(1) as u64);
    push_bytes(out, &[';' as u8]);
    push_decimal(out, col.saturating_add(1) as u64);
    push_bytes(out, &['H' as u8]);
}

/// The sequence that moves the cursor to a cell.
pub fn cursor_position_bytes(row: u16, col: u16) -> (bytes: Vec<u8>)
    ensures
        bytes@ == position(row, col),
{
    let mut bytes: Vec<u8> = Vec::new();
    push_cursor_position(&mut bytes, row, col);
    bytes
}

/// Overwrites `bytes` with the sequence that moves the cursor to a cell.
pub fn replace_cursor_position_bytes(bytes: &mut Vec<u8>, row: u16, col: u16)
    ensures
        final(bytes)@ == position(row, col),
{
    bytes.clear();
    push_cursor_position(bytes, row, col);
}

} // verus!
