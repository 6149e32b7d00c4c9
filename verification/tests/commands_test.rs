use terminal_company::commands::commands_fn::{is_at_company, travel_to};
use terminal_company::models::lists::{is_known_moon, moon_name, MOON_COUNT};
use terminal_company::models::scan_logic::moon_tier;
use terminal_company::models::types::Ship;

fn ship_at(location: &str) -> Ship {
    Ship {
        location: location.to_string(),
        number_operators_alive: 1,
        upgrades: vec!["Teleporter".to_string()],
        decorations: vec![],
    }
}

#[test]
fn test_is_at_company() {
    assert!(is_at_company(&ship_at("Company")));
    assert!(is_at_company(&ship_at("COMPANY")));
    assert!(is_at_company(&ship_at("company")));
    assert!(is_at_company(&ship_at("cOmPaNy")));
    assert!(!is_at_company(&ship_at("VOW")));
    assert!(!is_at_company(&ship_at("COMPANY ")));
    assert!(!is_at_company(&ship_at("")));
    assert!(!is_at_company(&ship_at("COMPAN")));
}

#[test]
fn test_moon_names() {
    assert_eq!(MOON_COUNT, 13);
    let names: Vec<&str> = (0..MOON_COUNT).map(moon_name).collect();
    assert_eq!(
        names,
        vec![
            "Experimentation",
            "Assurance",
            "Vow",
            "Offense",
            "March",
            "Adamance",
            "Rend",
            "Dine",
            "Titan",
            "Artifice",
            "Embrion",
            "Liquidation",
            "Company",
        ]
    );
    assert_eq!(moon_name(13), "Company");
    assert_eq!(moon_name(usize::MAX), "Company");
}

#[test]
fn test_moons_have_their_tiers() {
    let tiers: Vec<u8> = (0..12).map(|i| moon_tier(moon_name(i))).collect();
    assert_eq!(tiers, vec![1, 1, 1, 2, 2, 2, 3, 3, 3, 4, 4, 4]);
}

#[test]
fn test_is_known_moon() {
    for index in 0..MOON_COUNT {
        let name = moon_name(index);
        assert!(is_known_moon(name));
        assert!(is_known_moon(&name.to_uppercase()));
        assert!(is_known_moon(&name.to_lowercase()));
    }
    assert!(!is_known_moon(""));
    assert!(!is_known_moon("Moon"));
    assert!(!is_known_moon("Vow "));
    assert!(!is_known_moon("Vo"));
    // Only the letters A to Z are matched without regard to case.
    assert!(!is_known_moon("o\u{fb00}ense"));
}

#[test]
fn test_travel_to_known_moon() {
    let mut ship = ship_at("Company");
    assert!(travel_to(&mut ship, "titan"));
    assert_eq!(ship.location, "TITAN");
    assert_eq!(ship.number_operators_alive, 1);
    assert_eq!(ship.upgrades, vec!["Teleporter".to_string()]);
    assert!(ship.decorations.is_empty());
    assert!(!is_at_company(&ship));

    assert!(travel_to(&mut ship, "Company"));
    assert_eq!(ship.location, "COMPANY");
    assert!(is_at_company(&ship));
}

#[test]
fn test_travel_to_unknown_place_stays() {
    let mut ship = ship_at("VOW");
    let before = ship.clone();
    assert!(!travel_to(&mut ship, "Mars"));
    assert!(!travel_to(&mut ship, ""));
    assert_eq!(ship, before);
}
