//! Where the ship is and where it can go.

use crate::models::lists::{is_destination, is_known_moon};
use crate::models::types::{Ship, ShipView};
use crate::utils::text::{
    eq_ignore_ascii_case, same_ignoring_ascii_case, to_uppercase, uppercase_of,
};
use vstd::prelude::*;

verus! {

/// Whether the ship stands at the company building, where nothing can be
/// scanned.
pub fn is_at_company(ship: &Ship) -> (there: bool)
    ensures
        there == same_ignoring_ascii_case(ship@.location, "COMPANY"@),
{
    eq_ignore_ascii_case(ship.location.as_str(), "COMPANY")
}

/// Sends the ship to a destination. A name that is a destination moves the
/// ship there, and the location is kept in upper case; any other name
/// leaves the ship where it is. Returns whether the ship moved.
pub fn travel_to(ship: &mut Ship, moon: &str) -> (moved: bool)
    ensures
        moved == is_destination(moon@),
        moved ==> final(ship)@ == (ShipView {
            location: uppercase_of(moon@),
            ..old(ship)@
        }),
        !moved ==> *final(ship) == *old(ship),
{
    if is_known_moon(moon) {
        ship.location = to_uppercase(moon);
        true
    } else {
        false
    }
}

} // verus!
