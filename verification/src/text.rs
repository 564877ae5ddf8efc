//! Text handling that the standard library does for the rest of the crate:
//! comparing, trimming, splitting, lower case and numbers.

use vstd::prelude::*;

verus! {

/// `str`'s `==`: two string slices are equal exactly when they hold the same
/// characters in the same order.
pub assume_specification[ <str as PartialEq>::eq ](a: &str, b: &str) -> (r: bool)
    ensures
        r == (a@ == b@),
;

/// Whether two strings hold the same characters.
pub fn same_text(a: &str, b: &str) -> (r: bool)
    ensures
        r == (a@ == b@),
{
    a.eq(b)
}

/// Whether a character is white space, as the standard library judges it:
/// by the Unicode property `White_Space`.
pub uninterp spec fn spec_is_whitespace(c: char) -> bool;

/// The lower-case form of a text, as the standard library computes it from
/// the Unicode property `Lowercase`.
pub uninterp spec fn spec_lowercase(text: Seq<char>) -> Seq<char>;

/// A text without the white space at its start.
pub open spec fn spec_trim_start(text: Seq<char>) -> Seq<char>
    decreases text.len(),
{
    if text.len() > 0 && spec_is_whitespace(text.first()) {
        spec_trim_start(text.drop_first())
    } else {
        text
    }
}

/// A text without the white space at its end.
pub open spec fn spec_trim_end(text: Seq<char>) -> Seq<char>
    decreases text.len(),
{
    if text.len() > 0 && spec_is_whitespace(text.last()) {
        spec_trim_end(text.drop_last())
    } else {
        text
    }
}

/// A text without the white space at its start and at its end.
pub open spec fn spec_trim(text: Seq<char>) -> Seq<char> {
    spec_trim_end(spec_trim_start(text))
}

/// `str::trim`: the slice without leading and trailing white space, so
/// that what is left neither starts nor ends with white space.
#[verifier::external_body]
pub(crate) fn trim<'a>(text: &'a str) -> (r: &'a str)
    ensures
        r@ == spec_trim(text@),
        r@.len() > 0 ==> !spec_is_whitespace(r@.first()) && !spec_is_whitespace(r@.last()),
{
    text.trim()
}

/// `str::to_lowercase`: the lower-case form of the text.
#[verifier::external_body]
pub(crate) fn to_lowercase(text: &str) -> (r: String)
    ensures
        r@ == spec_lowercase(text@),
{
    text.to_lowercase()
}

/// A text with every match of a pattern replaced, as the standard library
/// replaces them: matches are found from the left and do not overlap.
pub uninterp spec fn spec_replace(text: Seq<char>, pattern: Seq<char>, with: Seq<char>) -> Seq<char>;

/// The lines of a text, as the standard library splits them: at every line
/// feed, with a carriage return before it dropped; a last line without a
/// line end counts, an empty one after the last line end does not.
pub uninterp spec fn spec_lines(text: Seq<char>) -> Seq<Seq<char>>;

/// Whether a text ends with the given suffix.
pub open spec fn spec_ends_with(text: Seq<char>, suffix: Seq<char>) -> bool {
    suffix.len() <= text.len() && text.subrange(text.len() - suffix.len(), text.len() as int)
        == suffix
}

/// The pieces of a text between the occurrences of a separator; a text
/// without the separator is one piece.
pub open spec fn spec_split(text: Seq<char>, separator: char) -> Seq<Seq<char>>
    decreases text.len(),
{
    if text.len() == 0 {
        seq![Seq::<char>::empty()]
    } else {
        let front = spec_split(text.drop_last(), separator);
        if text.last() == separator {
            front.push(Seq::<char>::empty())
        } else {
            front.drop_last().push(front.last().push(text.last()))
        }
    }
}

/// Whether a character is one of the ten ASCII digits.
pub open spec fn is_digit(c: char) -> bool {
    '0' <= c && c <= '9'
}

/// The number that a sequence of ASCII digits denotes in base ten.
pub open spec fn decimal_value(digits: Seq<char>) -> nat
    decreases digits.len(),
{
    if digits.len() == 0 {
        0
    } else {
        decimal_value(digits.drop_last()) * 10 + (digits.last() as u32 - '0' as u32) as nat
    }
}

/// The 32-bit number that a text denotes: an optional `+`, then at least
/// one ASCII digit and nothing else, with a value that fits.
pub open spec fn spec_parse_u32(text: Seq<char>) -> Option<u32> {
    let digits = if text.len() > 0 && text.first() == '+' {
        text.drop_first()
    } else {
        text
    };
    if digits.len() > 0 && (forall|k: int| 0 <= k < digits.len() ==> is_digit(#[trigger] digits[k]))
        && decimal_value(digits) <= u32::MAX {
        Some(decimal_value(digits) as u32)
    } else {
        None
    }
}

/// `str::ends_with` for a string pattern: whether the text ends with the
/// suffix.
#[verifier::external_body]
pub(crate) fn ends_with(text: &str, suffix: &str) -> (r: bool)
    ensures
        r == spec_ends_with(text@, suffix@),
{
    text.ends_with(suffix)
}

/// `str::replace` for a string pattern: the text with every match of the
/// pattern replaced.
#[verifier::external_body]
pub(crate) fn replace(text: &str, pattern: &str, with: &str) -> (r: String)
    ensures
        r@ == spec_replace(text@, pattern@, with@),
{
    text.replace(pattern, with)
}

/// `str::lines`: the lines of the text, in order.
#[verifier::external_body]
pub(crate) fn lines<'a>(text: &'a str) -> (r: Vec<&'a str>)
    ensures
        r@.len() == spec_lines(text@).len(),
        forall|k: int| 0 <= k < r@.len() ==> (#[trigger] r@[k])@ == spec_lines(text@)[k],
{
    text.lines().collect()
}

/// `str::split` for a character pattern: the pieces of the text between
/// the occurrences of the separator, in order.
#[verifier::external_body]
pub(crate) fn split<'a>(text: &'a str, separator: char) -> (r: Vec<&'a str>)
    ensures
        r@.len() == spec_split(text@, separator).len(),
        forall|k: int| 0 <= k < r@.len() ==> (#[trigger] r@[k])@ == spec_split(text@, separator)[k],
{
    text.split(separator).collect()
}

/// `u32::from_str`: the number that the text denotes in base ten, or `None`
/// where it denotes none that fits.
#[verifier::external_body]
pub(crate) fn parse_u32(text: &str) -> (r: Option<u32>)
    ensures
        r == spec_parse_u32(text@),
{
    text.parse::<u32>().ok()
}

} // verus!
