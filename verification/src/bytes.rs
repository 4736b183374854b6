//! Byte-string helpers: appending, comparing, and decimal numbers.
use vstd::prelude::*;

verus! {

/// The byte that starts every escape sequence.
pub const ESC: u8 = 0x1b;

/// Appends `tail` to `out`.
pub fn push_bytes(out: &mut Vec<u8>, tail: &[u8])
    ensures
        final(out)@ == old(out)@ + tail@,
{
    out.extend_from_slice(tail);
}

/// Whether two byte strings are equal.
pub fn same_bytes(left: &[u8], right: &[u8]) -> (same: bool)
    ensures
        same == (left@ == right@),
{
    if left.len() != right.len() {
        return false;
    }
    let mut index: usize = 0;
    while index < left.len()
        invariant
            index <= left.len(),
            left.len() == right.len(),
            forall|i: int| 0 <= i < index ==> left@[i] == right@[i],
        decreases left.len() - index,
    {
        if left[index] != right[index] {
            return false;
        }
        index = index + 1;
    }
    assert(left@ =~= right@);
    true
}

/// Whether `byte` is an ASCII digit.
pub open spec fn is_digit(byte: u8) -> bool {
    '0' as u8 <= byte <= '9' as u8
}

/// The ASCII digit that stands for `value`.
pub open spec fn digit(value: nat) -> u8 {
    ('0' as u8 + value) as u8
}

/// The decimal spelling of `value`, without leading zeros.
pub open spec fn decimal(value: nat) -> Seq<u8>
    decreases value,
{
    if value < 10 {
        seq![digit(value)]
    } else {
        decimal(value / 10).push(digit(value % 10))
    }
}

/// The number that a string of digits spells.
pub open spec fn decimal_value(digits: Seq<u8>) -> nat
    decreases digits.len(),
{
    if digits.len() == 0 {
        0
    } else {
        decimal_value(digits.drop_last()) * 10 + (digits.last() - '0' as u8) as nat
    }
}

/// Whether every byte of `bytes` is a digit.
pub open spec fn all_digits(bytes: Seq<u8>) -> bool {
    forall|i: int| 0 <= i < bytes.len() ==> is_digit(#[trigger] bytes[i])
}

/// The number spelled by `digits`, when there is one and it does not exceed `limit`.
pub open spec fn parsed_number(digits: Seq<u8>, limit: nat) -> Option<nat> {
    if digits.len() > 0 && decimal_value(digits) <= limit {
        Some(decimal_value(digits))
    } else {
        None
    }
}

/// Reading back a decimal spelling yields the number it was made from.
pub proof fn decimal_reads_back(value: nat)
    ensures
        decimal_value(decimal(value)) == value,
        all_digits(decimal(value)),
        decimal(value).len() > 0,
    decreases value,
{
    if value < 10 {
        assert(decimal(value).drop_last() =~= Seq::<u8>::empty());
        assert(decimal_value(Seq::<u8>::empty()) == 0);
    } else {
        decimal_reads_back(value / 10);
        assert(decimal(value).drop_last() =~= decimal(value / 10));
    }
}

/// A number below ten to the `width` is spelled in at most `width` digits.
pub proof fn decimal_width(value: nat, width: nat)
    requires
        width > 0,
        value < vstd::arithmetic::power::pow(10, width),
    ensures
        decimal(value).len() <= width,
    decreases width,
{
    reveal(vstd::arithmetic::power::pow);
    if value >= 10 {
        if width == 1 {
            reveal_with_fuel(vstd::arithmetic::power::pow, 3);
        } else {
            decimal_width(value / 10, (width - 1) as nat);
        }
    }
}

/// Dropping trailing digits never makes the spelled number larger.
pub proof fn decimal_value_grows(digits: Seq<u8>, cut: int)
    requires
        all_digits(digits),
        0 <= cut <= digits.len(),
    ensures
        decimal_value(digits.take(cut)) <= decimal_value(digits),
    decreases digits.len(),
{
    if cut == digits.len() {
        assert(digits.take(cut) =~= digits);
    } else {
        let shorter = digits.drop_last();
        decimal_value_grows(shorter, cut);
        assert(shorter.take(cut) =~= digits.take(cut));
    }
}

/// Appends the decimal spelling of `value` to `out`.
pub fn push_decimal(out: &mut Vec<u8>, value: u64)
    ensures
        final(out)@ == old(out)@ + decimal(value as nat),
    decreases value,
{
    if value >= 10 {
        push_decimal(out, value / 10);
    }
    let last: u8 = '0' as u8 + (value % 10) as u8;
    out.push(last);
}

/// Parses a string of digits as an unsigned number of at most `limit`.
pub fn parse_number(digits: &[u8], limit: u32) -> (number: Option<u32>)
    requires
        all_digits(digits@),
    ensures
        match number {
            Some(number) => parsed_number(digits@, limit as nat) == Some(number as nat),
            None => parsed_number(digits@, limit as nat) is None,
        },
{
    if digits.len() == 0 {
        return None;
    }
    let mut value: u64 = 0;
    let mut index: usize = 0;
    while index < digits.len()
        invariant
            all_digits(digits@),
            index <= digits.len(),
            value == decimal_value(digits@.take(index as int)),
            value <= limit,
        decreases digits.len() - index,
    {
        let ghost longer = digits@.take(index + 1);
        assert(longer.drop_last() =~= digits@.take(index as int));
        value = value * 10 + (digits[index] - '0' as u8) as u64;
        index = index + 1;
        if value > limit as u64 {
            proof {
                decimal_value_grows(digits@, index as int);
            }
            return None;
        }
    }
    assert(digits@.take(index as int) =~= digits@);
    Some(value as u32)
}

} // verus!
