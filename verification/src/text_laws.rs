//! What holds of the text helpers, whatever the text.
use crate::bytes::decimal;
use crate::text::{
    byte_relation, decimal_text, joined, lowercase, occurs, occurs_at, text_relation, trimmed,
    trimmed_end, trimmed_start, white_space, words, words_and_rest, Relation,
};
use vstd::prelude::*;
use vstd::utf8::*;

verus! {

/// Two byte strings that agree up to a place are ordered by the bytes there; a string that
/// ends there comes first.
pub proof fn first_difference_decides(left: Seq<u8>, right: Seq<u8>, at: int)
    requires
        0 <= at <= left.len(),
        at <= right.len(),
        left.take(at) == right.take(at),
        at == left.len() || at == right.len() || left[at] != right[at],
    ensures
        byte_relation(left, right) == (if at == left.len() && at == right.len() {
            Relation::Same
        } else if at == left.len() {
            Relation::Before
        } else if at == right.len() {
            Relation::After
        } else if left[at] < right[at] {
            Relation::Before
        } else {
            Relation::After
        }),
    decreases at,
{
    if at > 0 {
        assert(left.take(at)[0] == left[0] && right.take(at)[0] == right[0]);
        assert(at < left.len() ==> left.skip(1)[at - 1] == left[at]);
        assert(at < right.len() ==> right.skip(1)[at - 1] == right[at]);
        assert(left.skip(1).take(at - 1) =~= left.take(at).skip(1));
        assert(right.skip(1).take(at - 1) =~= right.take(at).skip(1));
        first_difference_decides(left.skip(1), right.skip(1), at - 1);
    }
}

/// Texts that agree up to a character are ordered as their UTF-8 bytes are.
pub proof fn texts_are_ordered_by_their_bytes(left: Seq<char>, right: Seq<char>, at: int)
    requires
        0 <= at <= encode_utf8(left).len(),
        at <= encode_utf8(right).len(),
        encode_utf8(left).take(at) == encode_utf8(right).take(at),
        at < encode_utf8(right).len(),
        at == encode_utf8(left).len() || encode_utf8(left)[at] < encode_utf8(right)[at],
    ensures
        text_relation(left, right) == Relation::Before,
        text_relation(right, left) == Relation::After,
        text_relation(left, left) == Relation::Same,
{
    first_difference_decides(encode_utf8(left), encode_utf8(right), at);
    first_difference_decides(encode_utf8(right), encode_utf8(left), at);
    first_difference_decides(
        encode_utf8(left),
        encode_utf8(left),
        encode_utf8(left).len() as int,
    );
}

/// Lower case moves the letters from `A` to `Z` by thirty-two and nothing else, and each
/// character by itself.
pub proof fn lower_case_moves_capitals(text: Seq<char>, i: int)
    requires
        0 <= i < text.len(),
    ensures
        lowercase(text).len() == text.len(),
        lowercase(text)[i] as u32 == (if 0x41 <= text[i] as u32 <= 0x5a {
            text[i] as u32 + 0x20
        } else {
            text[i] as u32 as int
        }),
        lowercase(lowercase(text)) == lowercase(text),
{
    assert(lowercase(lowercase(text)) =~= lowercase(text));
}

/// The characters that count as white space, by number.
pub proof fn white_space_by_number(character: char)
    ensures
        white_space(character) <==> set![
            0x09u32, 0x0a, 0x0b, 0x0c, 0x0d, 0x20, 0x85, 0xa0, 0x1680, 0x2000, 0x2001, 0x2002, 0x2003,
            0x2004, 0x2005, 0x2006, 0x2007, 0x2008, 0x2009, 0x200a, 0x2028, 0x2029, 0x202f, 0x205f,
            0x3000,
        ].contains(character as u32),
{
}

/// All of the text is white space.
pub open spec fn all_white(text: Seq<char>) -> bool {
    forall|i: int| 0 <= i < text.len() ==> white_space(#[trigger] text[i])
}

/// None of the text is white space.
pub open spec fn none_white(text: Seq<char>) -> bool {
    forall|i: int| 0 <= i < text.len() ==> !white_space(#[trigger] text[i])
}

/// White space around a text that neither starts nor ends with any is trimmed, and nothing
/// else is.
pub proof fn white_space_around_is_trimmed(before: Seq<char>, text: Seq<char>, after: Seq<char>)
    requires
        all_white(before),
        all_white(after),
        text.len() > 0 ==> !white_space(text[0]) && !white_space(text.last()),
    ensures
        trimmed(before + text + after) == text,
{
    if text.len() == 0 {
        assert(before + text + after =~= (before + after) + Seq::empty());
        assert(all_white(before + after));
        start_is_trimmed(before + after, Seq::empty());
    } else {
        assert(before + text + after =~= before + (text + after));
        start_is_trimmed(before, text + after);
        end_is_trimmed(text, after);
    }
}

/// White space at the start is trimmed.
proof fn start_is_trimmed(before: Seq<char>, rest: Seq<char>)
    requires
        all_white(before),
        rest.len() > 0 ==> !white_space(rest[0]),
    ensures
        trimmed_start(before + rest) == rest,
    decreases before.len(),
{
    if before.len() == 0 {
        assert(before + rest =~= rest);
    } else {
        assert((before + rest)[0] == before[0]);
        assert((before + rest).skip(1) =~= before.skip(1) + rest);
        start_is_trimmed(before.skip(1), rest);
    }
}

/// White space at the end is trimmed.
proof fn end_is_trimmed(text: Seq<char>, after: Seq<char>)
    requires
        all_white(after),
        text.len() > 0,
        !white_space(text.last()),
    ensures
        trimmed_end(text + after) == text,
    decreases after.len(),
{
    if after.len() == 0 {
        assert(text + after =~= text);
    } else {
        assert((text + after).last() == after.last());
        assert((text + after).drop_last() =~= text + after.drop_last());
        end_is_trimmed(text, after.drop_last());
    }
}

/// White space between two texts separates their words.
pub proof fn white_space_separates_words(left: Seq<char>, space: char, right: Seq<char>)
    requires
        white_space(space),
    ensures
        words(left + seq![space] + right) == words(left) + words(right),
{
    words_go_on(left, space, right);
    let (_, rest) = words_and_rest(right);
    let whole = words(left + seq![space] + right);
    assert(whole =~= words(left) + words(right));
}

/// The words found so far stay, and those of the rest follow.
proof fn words_go_on(left: Seq<char>, space: char, right: Seq<char>)
    requires
        white_space(space),
    ensures
        words_and_rest(left + seq![space] + right) == (
            words(left) + words_and_rest(right).0,
            words_and_rest(right).1,
        ),
    decreases right.len(),
{
    let whole = left + seq![space] + right;
    if right.len() == 0 {
        assert(whole.drop_last() =~= left);
        assert(whole.last() == space);
        assert(words(left) + words_and_rest(right).0 =~= words(left));
    } else {
        words_go_on(left, space, right.drop_last());
        assert(whole.drop_last() =~= left + seq![space] + right.drop_last());
        assert(whole.last() == right.last());
        let (found, rest) = words_and_rest(right.drop_last());
        if white_space(right.last()) && rest.len() > 0 {
            assert((words(left) + found).push(rest) =~= words(left) + found.push(rest));
        }
    }
}

/// A text without white space is a single word, and an empty one is none.
pub proof fn unbroken_text_is_one_word(text: Seq<char>)
    requires
        none_white(text),
    ensures
        words(text) == (if text.len() > 0 {
            seq![text]
        } else {
            Seq::empty()
        }),
{
    unbroken_text_goes_on(text);
    assert(text.len() > 0 ==> words(text) =~= seq![text]);
}

/// Without white space no word ends.
proof fn unbroken_text_goes_on(text: Seq<char>)
    requires
        none_white(text),
    ensures
        words_and_rest(text) == (Seq::<Seq<char>>::empty(), text),
    decreases text.len(),
{
    if text.len() > 0 {
        unbroken_text_goes_on(text.drop_last());
        assert(text.drop_last().push(text.last()) =~= text);
    } else {
        assert(text =~= Seq::empty());
    }
}

/// Joining puts the separator behind the first part and the others, joined, behind that.
pub proof fn separators_stand_between_parts(
    first: Seq<char>,
    rest: Seq<Seq<char>>,
    separator: Seq<char>,
)
    ensures
        joined(Seq::<Seq<char>>::empty(), separator) == Seq::<char>::empty(),
        joined(seq![first], separator) == first,
        rest.len() > 0 ==> joined(seq![first] + rest, separator) == first + separator + joined(
            rest,
            separator,
        ),
    decreases rest.len(),
{
    if rest.len() > 0 {
        let whole = seq![first] + rest;
        assert(whole.drop_last() =~= seq![first] + rest.drop_last());
        assert(whole.last() == rest.last());
        separators_stand_between_parts(first, rest.drop_last(), separator);
        if rest.len() == 1 {
            assert(whole.drop_last() =~= seq![first]);
            assert(rest[0] == rest.last());
        } else {
            assert(joined(whole, separator) =~= first + separator + joined(rest, separator));
        }
    }
}

/// The decimal spelling of a number as text has the digits of its spelling in bytes.
pub proof fn decimal_text_has_the_digits(value: nat)
    ensures
        decimal_text(value).len() == decimal(value).len(),
        forall|i: int|
            0 <= i < decimal(value).len() ==> #[trigger] decimal_text(value)[i] as u32
                == decimal(value)[i],
    decreases value,
{
    if value >= 10 {
        decimal_text_has_the_digits(value / 10);
        assert forall|i: int| 0 <= i < decimal(value).len() implies #[trigger] decimal_text(
            value,
        )[i] as u32 == decimal(value)[i] by {
            if i < decimal(value / 10).len() {
                assert(decimal_text(value / 10)[i] as u32 == decimal(value / 10)[i]);
            }
        }
    }
}

/// A part occurs in a text exactly where the text is the part with something before it and
/// something after it.
pub proof fn occurring_is_lying_between(before: Seq<char>, part: Seq<char>, after: Seq<char>)
    ensures
        occurs(part, before + part + after),
{
    let text = before + part + after;
    assert(text.subrange(before.len() as int, (before.len() + part.len()) as int) =~= part);
    assert(occurs_at(part, text, before.len() as int));
}

/// What occurs in a text lies between two parts of it.
pub proof fn what_occurs_lies_between(part: Seq<char>, text: Seq<char>)
    requires
        occurs(part, text),
    ensures
        exists|before: Seq<char>, after: Seq<char>| text == #[trigger] (before + part + after),
{
    let at = choose|at: int| 0 <= at <= text.len() - part.len() && occurs_at(part, text, at);
    assert(text =~= text.take(at) + part + text.skip(at + part.len()));
}

} // verus!
