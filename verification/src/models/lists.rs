//! The fixed lists of the game.

use crate::utils::text::{eq_ignore_ascii_case, same_ignoring_ascii_case};
use vstd::prelude::*;

verus! {

/// How many places the ship can travel to.
pub const MOON_COUNT: usize = 13;

/// The name of the place at a position of the list of destinations: twelve
/// moons and, last, the company building. A position past the end of the
/// list counts as the last.
pub open spec fn moon_name_at(index: int) -> Seq<char> {
    if index == 0 {
        "Experimentation"@
    } else if index == 1 {
        "Assurance"@
    } else if index == 2 {
        "Vow"@
    } else if index == 3 {
        "Offense"@
    } else if index == 4 {
        "March"@
    } else if index == 5 {
        "Adamance"@
    } else if index == 6 {
        "Rend"@
    } else if index == 7 {
        "Dine"@
    } else if index == 8 {
        "Titan"@
    } else if index == 9 {
        "Artifice"@
    } else if index == 10 {
        "Embrion"@
    } else if index == 11 {
        "Liquidation"@
    } else {
        "Company"@
    }
}

/// The name of the place at a position of the list of destinations.
pub fn moon_name(index: usize) -> (name: &'static str)
    ensures
        name@ == moon_name_at(index as int),
{
    if index == 0 {
        "Experimentation"
    } else if index == 1 {
        "Assurance"
    } else if index == 2 {
        "Vow"
    } else if index == 3 {
        "Offense"
    } else if index == 4 {
        "March"
    } else if index == 5 {
        "Adamance"
    } else if index == 6 {
        "Rend"
    } else if index == 7 {
        "Dine"
    } else if index == 8 {
        "Titan"
    } else if index == 9 {
        "Artifice"
    } else if index == 10 {
        "Embrion"
    } else if index == 11 {
        "Liquidation"
    } else {
        "Company"
    }
}

/// Whether a name is that of a destination, whatever the case of its
/// letters `A` to `Z`.
pub open spec fn is_destination(name: Seq<char>) -> bool {
    exists|index: int|
        0 <= index < MOON_COUNT && same_ignoring_ascii_case(#[trigger] moon_name_at(index), name)
}

/// Whether the ship can travel to a place of the given name.
pub fn is_known_moon(name: &str) -> (known: bool)
    ensures
        known == is_destination(name@),
{
    let mut index: usize = 0;
    while index < MOON_COUNT
        invariant
            index <= MOON_COUNT,
            forall|earlier: int|
                0 <= earlier < index ==> !same_ignoring_ascii_case(
                    #[trigger] moon_name_at(earlier),
                    name@,
                ),
        decreases MOON_COUNT - index,
    {
        if eq_ignore_ascii_case(moon_name(index), name) {
            return true;
        }
        index += 1;
    }
    false
}

} // verus!
