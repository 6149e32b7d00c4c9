//! Display form of a name.

use crate::utils::text::{char_to_uppercase, char_uppercase_of, lowercase_of, to_lowercase};
use vstd::prelude::*;
use vstd::string::*;

verus! {

/// A name with its first character in upper case and the rest in lower
/// case; the empty name stays empty.
pub open spec fn formatted_name(name: Seq<char>) -> Seq<char> {
    if name.len() == 0 {
        Seq::empty()
    } else {
        char_uppercase_of(name[0]) + lowercase_of(name.subrange(1, name.len() as int))
    }
}

/// Formats a name for display: `"HELLO WORLD"` becomes `"Hello world"`.
pub fn format_name(name: &str) -> (formatted: String)
    ensures
        formatted@ == formatted_name(name@),
{
    let len = name.unicode_len();
    if len == 0 {
        return String::new();
    }
    let first = name.get_char(0);
    let rest = name.substring_char(1, len);
    let head = char_to_uppercase(first);
    let tail = to_lowercase(rest);
    head.concat(tail.as_str())
}

} // verus!
