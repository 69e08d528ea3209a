//! Text operations of the standard library that the library relies on, each
//! with the contract that is assumed of it.

use vstd::prelude::*;

verus! {

/// `needle` occurs in `hay` as a run of consecutive characters.
pub open spec fn occurs_in(needle: Seq<char>, hay: Seq<char>) -> bool {
    exists|start: int|
        0 <= start && start + needle.len() <= hay.len() && #[trigger] hay.subrange(
            start,
            start + needle.len(),
        ) == needle
}

/// What `str::to_lowercase` returns for a text.
pub uninterp spec fn lowercase(text: Seq<char>) -> Seq<char>;

/// What `str::to_uppercase` returns for a text.
pub uninterp spec fn uppercase(text: Seq<char>) -> Seq<char>;

/// The character has the Unicode property White_Space.
pub open spec fn white_space(c: char) -> bool {
    let code = c as u32;
    ||| 0x09 <= code <= 0x0D
    ||| code == 0x20
    ||| code == 0x85
    ||| code == 0xA0
    ||| code == 0x1680
    ||| 0x2000 <= code <= 0x200A
    ||| code == 0x2028
    ||| code == 0x2029
    ||| code == 0x202F
    ||| code == 0x205F
    ||| code == 0x3000
}

/// A text without the white space at its start.
pub open spec fn without_leading_space(text: Seq<char>) -> Seq<char>
    decreases text.len(),
{
    if text.len() > 0 && white_space(text.first()) {
        without_leading_space(text.drop_first())
    } else {
        text
    }
}

/// A text without the white space at its end.
pub open spec fn without_trailing_space(text: Seq<char>) -> Seq<char>
    decreases text.len(),
{
    if text.len() > 0 && white_space(text.last()) {
        without_trailing_space(text.drop_last())
    } else {
        text
    }
}

/// A text without the white space at its start and at its end.
pub open spec fn trimmed(text: Seq<char>) -> Seq<char> {
    without_trailing_space(without_leading_space(text))
}

/// The text holds white space alone; the empty text does.
pub open spec fn blank(text: Seq<char>) -> bool {
    forall|i: int| 0 <= i < text.len() ==> white_space(#[trigger] text[i])
}

/// What is left of a text without its leading white space is empty where
/// the text is blank, and starts with another character where it is not.
pub proof fn lemma_leading_space(text: Seq<char>)
    ensures
        blank(text) ==> without_leading_space(text).len() == 0,
        !blank(text) ==> without_leading_space(text).len() > 0 && !white_space(
            without_leading_space(text).first(),
        ),
    decreases text.len(),
{
    if text.len() > 0 && white_space(text.first()) {
        let rest = text.drop_first();
        lemma_leading_space(rest);
        if !blank(text) {
            let i = choose|i: int| 0 <= i < text.len() && !white_space(#[trigger] text[i]);
            assert(rest[i - 1] == text[i]);
        } else {
            assert forall|i: int| 0 <= i < rest.len() implies white_space(#[trigger] rest[i]) by {
                assert(rest[i] == text[i + 1]);
            }
        }
    } else if text.len() > 0 {
        assert(!white_space(text[0]));
    }
}

/// A text that starts with another character than white space keeps that
/// character when its trailing white space is removed.
pub proof fn lemma_trailing_space(text: Seq<char>)
    requires
        text.len() > 0,
        !white_space(text.first()),
    ensures
        without_trailing_space(text).len() > 0,
    decreases text.len(),
{
    if white_space(text.last()) {
        lemma_trailing_space(text.drop_last());
    }
}

/// A text trims to the empty text exactly where it is blank.
pub proof fn lemma_trims_to_nothing_iff_blank(text: Seq<char>)
    ensures
        trimmed(text).len() == 0 <==> blank(text),
{
    lemma_leading_space(text);
    if !blank(text) {
        lemma_trailing_space(without_leading_space(text));
    }
}

/// A text that neither starts nor ends with white space trims to itself.
pub proof fn lemma_tight_text_trims_to_itself(text: Seq<char>)
    requires
        text.len() > 0 ==> !white_space(text.first()) && !white_space(text.last()),
    ensures
        trimmed(text) == text,
{
}

/// Whether a character has the Unicode property White_Space.
pub fn is_white_space(c: char) -> (white: bool)
    ensures
        white == white_space(c),
{
    let code = c as u32;
    (0x09 <= code && code <= 0x0D) || code == 0x20 || code == 0x85 || code == 0xA0 || code
        == 0x1680 || (0x2000 <= code && code <= 0x200A) || code == 0x2028 || code == 0x2029
        || code == 0x202F || code == 0x205F || code == 0x3000
}

/// Equality of two string slices, by `str`'s `==`: true exactly when they
/// hold the same characters.
#[verifier::external_body]
pub(crate) fn same_text(a: &str, b: &str) -> (same: bool)
    ensures
        same == (a@ == b@),
{
    a == b
}

/// `str::contains` with a string pattern: true exactly when the pattern
/// matches a sub-slice of the text.
#[verifier::external_body]
pub(crate) fn contains_text(hay: &str, needle: &str) -> (found: bool)
    ensures
        found == occurs_in(needle@, hay@),
{
    hay.contains(needle)
}

/// `str::to_lowercase`. The Unicode mapping is not restated: the result is
/// named [`lowercase`].
#[verifier::external_body]
pub(crate) fn to_lowercase(text: &str) -> (lower: String)
    ensures
        lower@ == lowercase(text@),
{
    text.to_lowercase()
}

/// `str::to_uppercase`. The Unicode mapping is not restated: the result is
/// named [`uppercase`].
#[verifier::external_body]
pub(crate) fn to_uppercase(text: &str) -> (upper: String)
    ensures
        upper@ == uppercase(text@),
{
    text.to_uppercase()
}

/// `str::trim`: the text without its leading and trailing white space,
/// where white space is every character with the Unicode property
/// White_Space.
#[verifier::external_body]
pub(crate) fn trim(text: &str) -> (inner: &str)
    ensures
        inner@ == trimmed(text@),
{
    text.trim()
}

} // verus!
