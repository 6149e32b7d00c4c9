//! Comparing string slices, and the case mappings of the standard library.

use vstd::prelude::*;
use vstd::utf8::*;

verus! {

/// Whether two string slices hold the same characters.
///
/// The slices are compared byte by byte; two texts with the same UTF-8
/// encoding are the same text.
pub fn same_text(left: &str, right: &str) -> (same: bool)
    ensures
        same == (left@ == right@),
{
    let left_bytes = left.as_bytes();
    let right_bytes = right.as_bytes();
    proof {
        encode_utf8_decode_utf8(left@);
        encode_utf8_decode_utf8(right@);
    }
    if left_bytes.len() != right_bytes.len() {
        return false;
    }
    let mut i: usize = 0;
    while i < left_bytes.len()
        invariant
            i <= left_bytes.len(),
            left_bytes.len() == right_bytes.len(),
            left_bytes@ == encode_utf8(left@),
            right_bytes@ == encode_utf8(right@),
            forall|j: int| 0 <= j < i ==> left_bytes@[j] == right_bytes@[j],
        decreases left_bytes.len() - i,
    {
        if left_bytes[i] != right_bytes[i] {
            return false;
        }
        i += 1;
    }
    assert(left_bytes@ =~= right_bytes@);
    true
}

/// The upper-case form of a text, as Unicode's case mapping gives it.
pub uninterp spec fn uppercase_of(text: Seq<char>) -> Seq<char>;

/// The lower-case form of a text, as Unicode's case mapping gives it.
pub uninterp spec fn lowercase_of(text: Seq<char>) -> Seq<char>;

/// The upper-case form of one character, which may be several characters.
pub uninterp spec fn char_uppercase_of(c: char) -> Seq<char>;

/// Calls `str::to_uppercase`.
///
/// The result depends on the text alone; which characters it holds is left to
/// the standard library and goes by the name [`uppercase_of`].
#[verifier::external_body]
pub(crate) fn to_uppercase(text: &str) -> (upper: String)
    ensures
        upper@ == uppercase_of(text@),
{
    text.to_uppercase()
}

/// Calls `str::to_lowercase`.
///
/// The result depends on the text alone; which characters it holds is left to
/// the standard library and goes by the name [`lowercase_of`].
#[verifier::external_body]
pub(crate) fn to_lowercase(text: &str) -> (lower: String)
    ensures
        lower@ == lowercase_of(text@),
{
    text.to_lowercase()
}

/// Calls `char::to_uppercase` and collects the characters it yields.
///
/// The result depends on the character alone; which characters it holds is
/// left to the standard library and goes by the name [`char_uppercase_of`].
#[verifier::external_body]
pub(crate) fn char_to_uppercase(c: char) -> (upper: String)
    ensures
        upper@ == char_uppercase_of(c),
{
    c.to_uppercase().collect()
}

/// A character with the letters `A` to `Z` turned into `a` to `z`.
pub open spec fn ascii_lowercase_char(c: char) -> char {
    if 'A' <= c && c <= 'Z' {
        ((c as u32) + 32) as char
    } else {
        c
    }
}

/// A text with the letters `A` to `Z` turned into `a` to `z`.
pub open spec fn ascii_lowercase(text: Seq<char>) -> Seq<char> {
    text.map_values(|c: char| ascii_lowercase_char(c))
}

/// Whether two texts are the same but for the case of the letters `A` to
/// `Z`.
pub open spec fn same_ignoring_ascii_case(left: Seq<char>, right: Seq<char>) -> bool {
    ascii_lowercase(left) == ascii_lowercase(right)
}

/// Calls `str::eq_ignore_ascii_case`.
///
/// The standard library documents the result as that of comparing the
/// ASCII lower-case forms of the two texts.
#[verifier::external_body]
pub(crate) fn eq_ignore_ascii_case(left: &str, right: &str) -> (same: bool)
    ensures
        same == same_ignoring_ascii_case(left@, right@),
{
    left.eq_ignore_ascii_case(right)
}

} // verus!
