//! What decimal spellings and readings have in common.
use crate::bytes::{decimal, decimal_value, parsed_number};
use vstd::arithmetic::power::pow;
use vstd::prelude::*;

verus! {

/// The digits of a decimal spelling are the number's places, with no zero in front.
pub proof fn decimal_digits_are_places(value: nat)
    ensures
        ({
            let count = decimal(value).len();
            &&& count > 0
            &&& value < pow(10, count)
            &&& count == 1 || value >= pow(10, (count - 1) as nat)
            &&& forall|place: int|
                #![trigger decimal(value)[count - 1 - place]]
                0 <= place < count ==> decimal(value)[count - 1 - place] == 0x30 + (value as int
                    / pow(10, place as nat)) % 10
        }),
    decreases value,
{
    let count = decimal(value).len();
    reveal(pow);
    assert(pow(10, 0) == 1);
    assert(pow(10, 1) == 10) by {
        reveal_with_fuel(pow, 2);
    }
    if value < 10 {
        assert(value as int / pow(10, 0) == value);
        assert(count - 1 - 0 == 0);
    } else {
        decimal_digits_are_places(value / 10);
        assert(pow(10, count) == 10 * pow(10, (count - 1) as nat));
        if count > 2 {
            assert(pow(10, (count - 1) as nat) == 10 * pow(10, (count - 2) as nat));
        }
        assert forall|place: int|
            #![trigger decimal(value)[count - 1 - place]]
            0 <= place < count implies decimal(value)[count - 1 - place] == 0x30 + (value as int
            / pow(10, place as nat)) % 10 by {
            if place > 0 {
                let below = (place - 1) as nat;
                assert(decimal(value)[count - 1 - place] == decimal(value / 10)[(count - 1) - 1
                    - below]);
                assert(pow(10, place as nat) == 10 * pow(10, below));
                vstd::arithmetic::power::lemma_pow_positive(10, below);
                vstd::arithmetic::div_mod::lemma_div_denominator(value as int, 10, pow(10, below));
            } else {
                assert(value as int / pow(10, place as nat) == value);
            }
        }
    }
}

/// The first digit of a string counts for its place, and the others for theirs.
pub proof fn first_digit_counts_most(first: u8, rest: Seq<u8>)
    requires
        0x30 <= first <= 0x39,
    ensures
        decimal_value(seq![first] + rest) == (first - 0x30) * pow(10, rest.len()) + decimal_value(
            rest,
        ),
        decimal_value(Seq::<u8>::empty()) == 0,
    decreases rest.len(),
{
    let whole = seq![first] + rest;
    reveal(pow);
    if rest.len() == 0 {
        assert(whole.drop_last() =~= Seq::<u8>::empty());
        assert(rest =~= Seq::<u8>::empty());
        assert(whole.last() == first);
    } else {
        let shorter = rest.drop_last();
        first_digit_counts_most(first, shorter);
        assert(whole.drop_last() =~= seq![first] + shorter);
        assert(whole.last() == rest.last());
        let place = pow(10, shorter.len());
        assert(pow(10, rest.len()) == 10 * place);
        assert((first - 0x30) * (10 * place) == ((first - 0x30) * place) * 10)
            by (nonlinear_arith);
    }
}

/// Reading a number yields its value, and fails only where there is no digit or the value
/// exceeds the limit. Zeros in front do not matter.
pub proof fn numbers_are_read_up_to_a_limit(digits: Seq<u8>, value: nat, limit: nat)
    ensures
        parsed_number(decimal(value), limit) == (if value <= limit {
            Some(value)
        } else {
            None
        }),
        digits.len() > 0 ==> parsed_number(seq![0x30u8] + digits, limit) == parsed_number(
            digits,
            limit,
        ),
        parsed_number(Seq::<u8>::empty(), limit) is None,
{
    crate::bytes::decimal_reads_back(value);
    first_digit_counts_most(0x30, digits);
    assert((0x30u8 - 0x30) * pow(10, digits.len()) == 0) by (nonlinear_arith);
}

} // verus!
