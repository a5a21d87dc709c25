//! Small operations on text: trimming, splitting at a separator, and reading
//! an unsigned decimal number.

use crate::seqs::views;
use vstd::prelude::*;
use vstd::string::StrSliceExecFns;

verus! {

/// Whether `std`'s `char::is_whitespace` holds of `c`: whether Unicode counts
/// `c` as White_Space.
pub uninterp spec fn char_is_whitespace(c: char) -> bool;

/// Calls `char::is_whitespace`. Trusted: the answer depends on the character
/// alone.
#[verifier::external_body]
fn is_whitespace(c: char) -> (white: bool)
    ensures
        white == char_is_whitespace(c),
{
    c.is_whitespace()
}

/// `text` without the whitespace at its start and at its end.
pub open spec fn trimmed(text: Seq<char>) -> Seq<char>
    decreases text.len(),
{
    if text.len() > 0 && char_is_whitespace(text.first()) {
        trimmed(text.drop_first())
    } else if text.len() > 0 && char_is_whitespace(text.last()) {
        trimmed(text.drop_last())
    } else {
        text
    }
}

/// The part of `text` that is left when the whitespace at both ends is taken
/// away.
pub fn trim(text: &str) -> (inner: &str)
    ensures
        inner@ == trimmed(text@),
{
    let length = text.unicode_len();
    let mut start: usize = 0;
    assert(text@.subrange(0, length as int) =~= text@);
    while start < length && is_whitespace(text.get_char(start))
        invariant
            start <= length == text@.len(),
            trimmed(text@.subrange(start as int, length as int)) == trimmed(text@),
        decreases length - start,
    {
        assert(text@.subrange(start as int, length as int).drop_first() =~= text@.subrange(
            start + 1,
            length as int,
        ));
        start += 1;
    }
    let mut end: usize = length;
    while start < end && is_whitespace(text.get_char(end - 1))
        invariant
            start <= end <= length == text@.len(),
            start < length ==> !char_is_whitespace(text@[start as int]),
            trimmed(text@.subrange(start as int, end as int)) == trimmed(text@),
        decreases end - start,
    {
        assert(text@.subrange(start as int, end as int).drop_last() =~= text@.subrange(
            start as int,
            end - 1,
        ));
        end -= 1;
    }
    text.substring_char(start, end)
}

/// The position of the first `separator` in `text`, or the length of `text`
/// where it holds none.
pub open spec fn first_index(text: Seq<char>, separator: char) -> int
    decreases text.len(),
{
    if text.len() == 0 || text.first() == separator {
        0
    } else {
        1 + first_index(text.drop_first(), separator)
    }
}

/// The pieces of `text` between its separators, in order. A text without a
/// separator is one piece; two separators in a row enclose an empty piece.
pub open spec fn split(text: Seq<char>, separator: char) -> Seq<Seq<char>>
    decreases text.len(),
{
    let cut = first_index(text, separator);
    if 0 <= cut < text.len() {
        seq![text.take(cut)] + split(text.skip(cut + 1), separator)
    } else {
        seq![text]
    }
}

/// `first_index` is the position of the first separator: the one before which
/// there is none.
pub proof fn lemma_first_index(text: Seq<char>, separator: char, cut: int)
    requires
        0 <= cut <= text.len(),
        forall|i: int| 0 <= i < cut ==> text[i] != separator,
        cut < text.len() ==> text[cut] == separator,
    ensures
        first_index(text, separator) == cut,
    decreases cut,
{
    if cut > 0 {
        let rest = text.drop_first();
        assert forall|i: int| 0 <= i < cut - 1 implies rest[i] != separator by {
            assert(rest[i] == text[i + 1]);
        }
        lemma_first_index(rest, separator, cut - 1);
    }
}

/// Each piece with the whitespace at its ends taken away.
pub open spec fn trimmed_each(pieces: Seq<Seq<char>>) -> Seq<Seq<char>> {
    pieces.map_values(|piece: Seq<char>| trimmed(piece))
}

proof fn lemma_split_next(text: Seq<char>, separator: char, start: int, cut: int)
    requires
        0 <= start <= cut <= text.len(),
        forall|i: int| start <= i < cut ==> text[i] != separator,
        cut < text.len() ==> text[cut] == separator,
    ensures
        split(text.skip(start), separator) == if cut < text.len() {
            seq![text.subrange(start, cut)] + split(text.skip(cut + 1), separator)
        } else {
            seq![text.subrange(start, cut)]
        },
{
    let rest = text.skip(start);
    lemma_first_index(rest, separator, cut - start);
    assert(rest.take(cut - start) =~= text.subrange(start, cut));
    if cut < text.len() {
        assert(rest.skip(cut - start + 1) =~= text.skip(cut + 1));
    } else {
        assert(rest =~= text.subrange(start, cut));
    }
}

/// The pieces of `text` between the occurrences of `separator`, each with its
/// surrounding whitespace taken away.
pub fn split_trimmed(text: &str, separator: char) -> (pieces: Vec<String>)
    ensures
        views(pieces@) == trimmed_each(split(text@, separator)),
{
    let ghost whole = text@;
    let ghost mut done: Seq<Seq<char>> = Seq::empty();
    let length = text.unicode_len();
    let mut pieces: Vec<String> = Vec::new();
    let mut start: usize = 0;
    let mut i: usize = 0;
    assert(whole.skip(0) =~= whole);
    assert(views(pieces@) =~= trimmed_each(done));
    while i < length
        invariant
            start <= i <= length == whole.len(),
            whole == text@,
            forall|j: int| start <= j < i ==> whole[j] != separator,
            split(whole, separator) == done + split(whole.skip(start as int), separator),
            views(pieces@) == trimmed_each(done),
        decreases length - i,
    {
        if text.get_char(i) == separator {
            let piece = trim(text.substring_char(start, i)).to_owned();
            let ghost before = views(pieces@);
            pieces.push(piece);
            proof {
                lemma_split_next(whole, separator, start as int, i as int);
                let raw = whole.subrange(start as int, i as int);
                assert(views(pieces@) =~= before.push(trimmed(raw)));
                assert(trimmed_each(done.push(raw)) =~= before.push(trimmed(raw)));
                assert(done + (seq![raw] + split(whole.skip(i + 1), separator)) =~= done.push(raw)
                    + split(whole.skip(i + 1), separator));
                done = done.push(raw);
            }
            start = i + 1;
        }
        i += 1;
    }
    let piece = trim(text.substring_char(start, length)).to_owned();
    let ghost before = views(pieces@);
    pieces.push(piece);
    proof {
        lemma_split_next(whole, separator, start as int, length as int);
        let raw = whole.subrange(start as int, length as int);
        assert(views(pieces@) =~= before.push(trimmed(raw)));
        assert(trimmed_each(done.push(raw)) =~= before.push(trimmed(raw)));
        assert(done + seq![raw] =~= done.push(raw));
    }
    pieces
}

/// Holds of the ten decimal digits.
pub open spec fn is_digit(c: char) -> bool {
    '0' <= c <= '9'
}

/// The number that a decimal digit stands for.
pub open spec fn digit_value(c: char) -> int {
    c as int - '0' as int
}

/// Every character of `digits` is a decimal digit.
pub open spec fn all_digits(digits: Seq<char>) -> bool {
    forall|i: int| 0 <= i < digits.len() ==> is_digit(#[trigger] digits[i])
}

/// The number that `digits` denotes in base ten.
pub open spec fn decimal_value(digits: Seq<char>) -> int
    decreases digits.len(),
{
    if digits.len() == 0 {
        0
    } else {
        10 * decimal_value(digits.drop_last()) + digit_value(digits.last())
    }
}

/// `text` without one leading plus sign.
pub open spec fn unsigned_part(text: Seq<char>) -> Seq<char> {
    if text.len() > 0 && text.first() == '+' {
        text.drop_first()
    } else {
        text
    }
}

/// The number that `text` denotes: an optional plus sign and then one or more
/// decimal digits, nothing else, with a value that fits in 64 bits.
pub open spec fn parsed_u64(text: Seq<char>) -> Option<u64> {
    let digits = unsigned_part(text);
    if digits.len() > 0 && all_digits(digits) && decimal_value(digits) <= u64::MAX {
        Some(decimal_value(digits) as u64)
    } else {
        None
    }
}

/// A sequence of digits denotes no negative number.
pub proof fn lemma_decimal_value_is_natural(digits: Seq<char>)
    requires
        all_digits(digits),
    ensures
        0 <= decimal_value(digits),
    decreases digits.len(),
{
    if digits.len() > 0 {
        assert(is_digit(digits.last()));
        lemma_decimal_value_is_natural(digits.drop_last());
    }
}

/// Reads `text` as an unsigned decimal number of at most 64 bits.
pub fn parse_u64(text: &str) -> (number: Option<u64>)
    ensures
        number == parsed_u64(text@),
{
    let length = text.unicode_len();
    let first: usize = if length > 0 && text.get_char(0) == '+' {
        1
    } else {
        0
    };
    let ghost digits = unsigned_part(text@);
    assert(digits =~= text@.skip(first as int));
    if first == length {
        return None;
    }
    let mut value: u64 = 0;
    let mut overflow = false;
    let mut i: usize = first;
    assert(digits.take(0) =~= Seq::empty());
    while i < length
        invariant
            first <= i <= length == text@.len(),
            digits == unsigned_part(text@),
            digits == text@.skip(first as int),
            all_digits(digits.take(i - first)),
            overflow ==> decimal_value(digits.take(i - first)) > u64::MAX,
            !overflow ==> decimal_value(digits.take(i - first)) == value,
        decreases length - i,
    {
        let c = text.get_char(i);
        let ghost seen = digits.take(i - first);
        let ghost next = digits.take(i - first + 1);
        assert(next.drop_last() =~= seen);
        assert(next.last() == c);
        if !('0' <= c && c <= '9') {
            assert(!is_digit(digits[i - first]));
            return None;
        }
        proof {
            lemma_decimal_value_is_natural(seen);
        }
        let digit: u64 = (c as u32 - '0' as u32) as u64;
        if !overflow {
            match value.checked_mul(10) {
                Some(tens) => match tens.checked_add(digit) {
                    Some(sum) => {
                        value = sum;
                    },
                    None => {
                        overflow = true;
                    },
                },
                None => {
                    overflow = true;
                },
            }
        }
        i += 1;
    }
    assert(digits.take(i - first) =~= digits);
    if overflow {
        None
    } else {
        Some(value)
    }
}

} // verus!
