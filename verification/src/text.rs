//! Text helpers on `str` and `String`.
use crate::bytes::same_bytes;
use vstd::prelude::*;
use vstd::string::*;
use vstd::utf8::*;

verus! {

/// How two values are ordered.
#[derive(Debug, Clone, Copy, PartialEq, Eq, Structural)]
pub enum Relation {
    /// The first comes before the second.
    Before,
    /// They are ordered alike.
    Same,
    /// The first comes after the second.
    After,
}

/// The relation seen from the other side.
pub open spec fn flipped(relation: Relation) -> Relation {
    match relation {
        Relation::Before => Relation::After,
        Relation::Same => Relation::Same,
        Relation::After => Relation::Before,
    }
}

/// How two byte strings are ordered: by the first byte that differs, a string coming
/// after every start of it.
pub open spec fn byte_relation(left: Seq<u8>, right: Seq<u8>) -> Relation
    decreases left.len(),
{
    if left.len() == 0 {
        if right.len() == 0 {
            Relation::Same
        } else {
            Relation::Before
        }
    } else if right.len() == 0 {
        Relation::After
    } else if left[0] < right[0] {
        Relation::Before
    } else if left[0] > right[0] {
        Relation::After
    } else {
        byte_relation(left.skip(1), right.skip(1))
    }
}

/// How two texts are ordered: by their UTF-8 bytes.
pub open spec fn text_relation(left: Seq<char>, right: Seq<char>) -> Relation {
    byte_relation(encode_utf8(left), encode_utf8(right))
}

/// The character as a lower-case one, where it is an ASCII letter.
pub open spec fn lower(character: char) -> char {
    if 'A' <= character <= 'Z' {
        (character as u32 + 32) as char
    } else {
        character
    }
}

/// The text with its ASCII letters in lower case.
pub open spec fn lowercase(text: Seq<char>) -> Seq<char> {
    text.map_values(|character: char| lower(character))
}

/// The character is white space.
pub open spec fn white_space(character: char) -> bool {
    let code = character as u32;
    ||| 0x09 <= code <= 0x0d
    ||| code == 0x20
    ||| code == 0x85
    ||| code == 0xa0
    ||| code == 0x1680
    ||| 0x2000 <= code <= 0x200a
    ||| code == 0x2028
    ||| code == 0x2029
    ||| code == 0x202f
    ||| code == 0x205f
    ||| code == 0x3000
}

/// The text without the white space at its start.
pub open spec fn trimmed_start(text: Seq<char>) -> Seq<char>
    decreases text.len(),
{
    if text.len() > 0 && white_space(text[0]) {
        trimmed_start(text.skip(1))
    } else {
        text
    }
}

/// The text without the white space at its end.
pub open spec fn trimmed_end(text: Seq<char>) -> Seq<char>
    decreases text.len(),
{
    if text.len() > 0 && white_space(text.last()) {
        trimmed_end(text.drop_last())
    } else {
        text
    }
}

/// The text without the white space at both ends.
pub open spec fn trimmed(text: Seq<char>) -> Seq<char> {
    trimmed_end(trimmed_start(text))
}

/// The `part` occurs in the text.
pub open spec fn occurs(part: Seq<char>, text: Seq<char>) -> bool {
    exists|at: int| 0 <= at <= text.len() - part.len() && occurs_at(part, text, at)
}

/// The `part` occurs in the text at one place.
pub open spec fn occurs_at(part: Seq<char>, text: Seq<char>, at: int) -> bool {
    text.subrange(at, at + part.len()) == part
}

/// The words of the text up to a place, and the word that goes on there.
pub open spec fn words_and_rest(text: Seq<char>) -> (Seq<Seq<char>>, Seq<char>)
    decreases text.len(),
{
    if text.len() == 0 {
        (Seq::empty(), Seq::empty())
    } else {
        let (words, rest) = words_and_rest(text.drop_last());
        if !white_space(text.last()) {
            (words, rest.push(text.last()))
        } else if rest.len() > 0 {
            (words.push(rest), Seq::empty())
        } else {
            (words, rest)
        }
    }
}

/// The words of the text: its parts between white space.
pub open spec fn words(text: Seq<char>) -> Seq<Seq<char>> {
    let (words, rest) = words_and_rest(text);
    if rest.len() > 0 {
        words.push(rest)
    } else {
        words
    }
}

/// The parts with a separator between each two.
pub open spec fn joined(parts: Seq<Seq<char>>, separator: Seq<char>) -> Seq<char>
    decreases parts.len(),
{
    if parts.len() == 0 {
        Seq::empty()
    } else if parts.len() == 1 {
        parts[0]
    } else {
        joined(parts.drop_last(), separator) + separator + parts.last()
    }
}

/// The decimal spelling of a number, without leading zeros.
pub open spec fn decimal_text(value: nat) -> Seq<char>
    decreases value,
{
    if value < 10 {
        seq![('0' as u32 + value) as char]
    } else {
        decimal_text(value / 10).push(('0' as u32 + value % 10) as char)
    }
}

/// What a list of texts holds.
pub open spec fn texts(list: Seq<String>) -> Seq<Seq<char>> {
    list.map_values(|text: String| text@)
}

/// What an optional text holds.
pub open spec fn optional_text(text: Option<String>) -> Option<Seq<char>> {
    match text {
        Some(text) => Some(text@),
        None => None,
    }
}

/// Whether two strings hold the same characters.
pub fn same_text(left: &str, right: &str) -> (same: bool)
    ensures
        same == (left@ == right@),
{
    let same = same_bytes(left.as_bytes(), right.as_bytes());
    proof {
        encode_utf8_decode_utf8(left@);
        encode_utf8_decode_utf8(right@);
    }
    same
}

/// How two byte strings are ordered.
fn relate_bytes(left: &[u8], right: &[u8]) -> (relation: Relation)
    ensures
        relation == byte_relation(left@, right@),
{
    let mut index: usize = 0;
    assert(left@.skip(0) =~= left@);
    assert(right@.skip(0) =~= right@);
    while index < left.len() && index < right.len()
        invariant
            index <= left@.len(),
            index <= right@.len(),
            byte_relation(left@, right@) == byte_relation(
                left@.skip(index as int),
                right@.skip(index as int),
            ),
        decreases left@.len() - index,
    {
        assert(left@.skip(index as int).skip(1) =~= left@.skip(index + 1));
        assert(right@.skip(index as int).skip(1) =~= right@.skip(index + 1));
        if left[index] < right[index] {
            return Relation::Before;
        }
        if left[index] > right[index] {
            return Relation::After;
        }
        index = index + 1;
    }
    if index < left.len() {
        Relation::After
    } else if index < right.len() {
        Relation::Before
    } else {
        Relation::Same
    }
}

/// How two texts are ordered.
pub fn relate_text(left: &str, right: &str) -> (relation: Relation)
    ensures
        relation == text_relation(left@, right@),
{
    relate_bytes(left.as_bytes(), right.as_bytes())
}

/// The order of byte strings is the same from both sides.
pub proof fn byte_relation_flips(left: Seq<u8>, right: Seq<u8>)
    ensures
        byte_relation(right, left) == flipped(byte_relation(left, right)),
    decreases left.len(),
{
    if left.len() > 0 && right.len() > 0 && left[0] == right[0] {
        byte_relation_flips(left.skip(1), right.skip(1));
    }
}

/// The order of byte strings is transitive.
pub proof fn byte_relation_chains(left: Seq<u8>, middle: Seq<u8>, right: Seq<u8>)
    requires
        byte_relation(left, middle) != Relation::After,
        byte_relation(middle, right) != Relation::After,
    ensures
        byte_relation(left, right) != Relation::After,
    decreases left.len(),
{
    if left.len() > 0 && middle.len() > 0 && right.len() > 0 && left[0] == middle[0] && middle[0]
        == right[0] {
        byte_relation_chains(left.skip(1), middle.skip(1), right.skip(1));
    }
}

/// Only equal byte strings are ordered alike.
pub proof fn byte_relation_separates(left: Seq<u8>, right: Seq<u8>)
    ensures
        byte_relation(left, right) == Relation::Same <==> left == right,
    decreases left.len(),
{
    if left.len() > 0 && right.len() > 0 && left[0] == right[0] {
        byte_relation_separates(left.skip(1), right.skip(1));
        if left.skip(1) == right.skip(1) {
            assert(left =~= seq![left[0]] + left.skip(1));
            assert(right =~= seq![right[0]] + right.skip(1));
        }
    } else if left.len() == 0 && right.len() == 0 {
        assert(left =~= right);
    }
}

/// The characters of a text.
pub fn chars_of(text: &str) -> (characters: Vec<char>)
    ensures
        characters@ == text@,
{
    let mut characters: Vec<char> = Vec::new();
    let count: usize = text.unicode_len();
    let mut index: usize = 0;
    while index < count
        invariant
            count == text@.len(),
            index <= count,
            characters@ == text@.take(index as int),
        decreases count - index,
    {
        characters.push(text.get_char(index));
        index = index + 1;
    }
    characters
}

/// The character as a lower-case one, where it is an ASCII letter.
pub fn lower_character(character: char) -> (lowered: char)
    ensures
        lowered == lower(character),
{
    if 'A' <= character && character <= 'Z' {
        (character as u8 + 32) as char
    } else {
        character
    }
}

/// Whether the character is white space.
pub fn is_white_space(character: char) -> (yes: bool)
    ensures
        yes == white_space(character),
{
    let code: u32 = character as u32;
    (0x09 <= code && code <= 0x0d) || code == 0x20 || code == 0x85 || code == 0xa0 || code == 0x1680
        || (0x2000 <= code && code <= 0x200a) || code == 0x2028 || code == 0x2029 || code == 0x202f
        || code == 0x205f || code == 0x3000
}

/// The text without the white space at both ends.
pub fn trim_text(text: &str) -> (rest: &str)
    ensures
        rest@ == trimmed(text@),
{
    let characters: Vec<char> = chars_of(text);
    let mut from: usize = 0;
    assert(text@.skip(0) =~= text@);
    while from < characters.len() && is_white_space(characters[from])
        invariant
            characters@ == text@,
            from <= characters@.len(),
            trimmed_start(text@) == trimmed_start(text@.skip(from as int)),
        decreases characters@.len() - from,
    {
        assert(text@.skip(from as int).skip(1) =~= text@.skip(from + 1));
        from = from + 1;
    }
    let ghost start = text@.skip(from as int);
    let mut upto: usize = characters.len();
    while upto > from && is_white_space(characters[upto - 1])
        invariant
            characters@ == text@,
            from <= upto <= characters@.len(),
            trimmed_end(start) == trimmed_end(text@.subrange(from as int, upto as int)),
        decreases upto,
    {
        let ghost here = text@.subrange(from as int, upto as int);
        assert(here.drop_last() =~= text@.subrange(from as int, upto - 1));
        upto = upto - 1;
    }
    text.substring_char(from, upto)
}

/// Whether two texts are equal but for the case of ASCII letters.
pub fn same_ignoring_case(left: &str, right: &str) -> (same: bool)
    ensures
        same == (lowercase(left@) == lowercase(right@)),
{
    let one: Vec<char> = chars_of(left);
    let other: Vec<char> = chars_of(right);
    let ghost a = lowercase(left@);
    let ghost b = lowercase(right@);
    if one.len() != other.len() {
        assert(a.len() != b.len());
        return false;
    }
    let mut index: usize = 0;
    while index < one.len()
        invariant
            one@ == left@,
            other@ == right@,
            one@.len() == other@.len(),
            a == lowercase(left@),
            b == lowercase(right@),
            index <= one@.len(),
            forall|i: int| 0 <= i < index ==> a[i] == b[i],
        decreases one@.len() - index,
    {
        assert(b[index as int] == lower(right@[index as int]));
        if lower_character(one[index]) != lower_character(other[index]) {
            return false;
        }
        index = index + 1;
    }
    assert(a =~= b);
    true
}

/// Whether `part` occurs in the text, the text being read in lower case.
pub fn occurs_in_lowercase(part: &str, text: &str) -> (found: bool)
    ensures
        found == occurs(part@, lowercase(text@)),
{
    let wanted: Vec<char> = chars_of(part);
    let characters: Vec<char> = chars_of(text);
    let ghost lowered = lowercase(text@);
    if wanted.len() > characters.len() {
        return false;
    }
    let mut at: usize = 0;
    while at <= characters.len() - wanted.len()
        invariant
            wanted@ == part@,
            characters@ == text@,
            lowered == lowercase(text@),
            wanted@.len() <= characters@.len(),
            at <= characters@.len() - wanted@.len() + 1,
            forall|i: int| 0 <= i < at ==> !occurs_at(part@, lowered, i),
        decreases characters@.len() - at + 1,
    {
        let ghost here = lowered.subrange(at as int, at + part@.len());
        let mut index: usize = 0;
        while index < wanted.len() && lower_character(characters[at + index]) == wanted[index]
            invariant
                wanted@ == part@,
                characters@ == text@,
                lowered == lowercase(text@),
                wanted@.len() <= characters.len(),
                at + wanted@.len() <= characters.len(),
                here == lowered.subrange(at as int, at + part@.len()),
                index <= wanted@.len(),
                forall|i: int| 0 <= i < index ==> here[i] == part@[i],
            decreases wanted@.len() - index,
        {
            index = index + 1;
        }
        if index == wanted.len() {
            assert(here =~= part@);
            assert(occurs_at(part@, lowered, at as int));
            return true;
        }
        at = at + 1;
    }
    false
}

/// The words of a text.
pub fn split_words(text: &str) -> (list: Vec<String>)
    ensures
        texts(list@) == words(text@),
{
    let characters: Vec<char> = chars_of(text);
    let mut list: Vec<String> = Vec::new();
    let mut start: usize = 0;
    let mut index: usize = 0;
    while index < characters.len()
        invariant
            characters@ == text@,
            start <= index <= characters@.len(),
            words_and_rest(text@.take(index as int)) == (
                texts(list@),
                text@.subrange(start as int, index as int),
            ),
        decreases characters@.len() - index,
    {
        let ghost longer = text@.take(index + 1);
        assert(longer.drop_last() =~= text@.take(index as int));
        if is_white_space(characters[index]) {
            if start < index {
                let word: &str = text.substring_char(start, index);
                list.push(word.to_owned());
            }
            start = index + 1;
        }
        index = index + 1;
    }
    assert(text@.take(index as int) =~= text@);
    if start < index {
        let word: &str = text.substring_char(start, index);
        list.push(word.to_owned());
    }
    list
}

/// The texts with a separator between each two.
pub fn join_texts(list: &Vec<String>, separator: &str) -> (text: String)
    ensures
        text@ == joined(texts(list@), separator@),
{
    let mut text: String = String::new();
    let ghost all = texts(list@);
    let mut index: usize = 0;
    while index < list.len()
        invariant
            all == texts(list@),
            index <= list@.len(),
            text@ == joined(all.take(index as int), separator@),
        decreases list@.len() - index,
    {
        assert(all.take(index + 1).drop_last() =~= all.take(index as int));
        if index > 0 {
            text.append(separator);
        }
        text.append(list[index].as_str());
        index = index + 1;
    }
    assert(all.take(index as int) =~= all);
    text
}

/// The spelling of a single digit.
fn digit_text(digit: u32) -> (text: &'static str)
    requires
        digit < 10,
    ensures
        text@ == decimal_text(digit as nat),
{
    match digit {
        0 => {
            proof {
                reveal_strlit("0");
            }
            "0"
        },
        1 => {
            proof {
                reveal_strlit("1");
            }
            "1"
        },
        2 => {
            proof {
                reveal_strlit("2");
            }
            "2"
        },
        3 => {
            proof {
                reveal_strlit("3");
            }
            "3"
        },
        4 => {
            proof {
                reveal_strlit("4");
            }
            "4"
        },
        5 => {
            proof {
                reveal_strlit("5");
            }
            "5"
        },
        6 => {
            proof {
                reveal_strlit("6");
            }
            "6"
        },
        7 => {
            proof {
                reveal_strlit("7");
            }
            "7"
        },
        8 => {
            proof {
                reveal_strlit("8");
            }
            "8"
        },
        _ => {
            proof {
                reveal_strlit("9");
            }
            "9"
        },
    }
}

/// The decimal spelling of a number.
pub fn decimal_string(value: u64) -> (text: String)
    ensures
        text@ == decimal_text(value as nat),
    decreases value,
{
    let last: &str = digit_text((value % 10) as u32);
    let mut text: String = if value < 10 {
        String::new()
    } else {
        decimal_string(value / 10)
    };
    text.append(last);
    text
}

} // verus!
