use rand::rngs::StdRng;
use rand::SeedableRng;
use terminal_company::models::label_map::LabelMap;
use terminal_company::models::scan_cache::{
    weather_label, EngineError, ScanCache, SCRAP_MAX, SCRAP_MIN, WEATHER_COUNT,
};
use terminal_company::models::scan_logic::threat_of_owned;
use terminal_company::models::types::{Bestiary, CollectConfig, Monster, ScanData};

fn catalog() -> Bestiary {
    let mut monsters = vec![];
    for i in 0..9u32 {
        monsters.push(Monster {
            name: format!("Monster {}", i),
            entity_type: "Outside".to_string(),
            behavior: "Aggressive".to_string(),
            danger_level: if i % 3 == 0 { None } else { Some(10 * i) },
            power_level: 500 * (i + 1),
            spawn_condition: "Always".to_string(),
            moons: vec!["VOW".to_string(), "TITAN".to_string(), "EMBRION".to_string()],
            speed: None,
            notes: None,
        });
    }
    Bestiary { id: Some("bestiary".to_string()), monsters }
}

const WEATHERS: [&str; 5] = ["Clear", "Rainy", "Foggy", "Stormy", "Eclipsed"];

#[test]
fn test_weather_labels() {
    assert_eq!(WEATHER_COUNT, 5);
    assert_eq!(weather_label(0), "Clear");
    assert_eq!(weather_label(1), "Rainy");
    assert_eq!(weather_label(2), "Foggy");
    assert_eq!(weather_label(3), "Stormy");
    assert_eq!(weather_label(4), "Eclipsed");
    assert_eq!(weather_label(5), "Eclipsed");
    assert_eq!(weather_label(u32::MAX), "Eclipsed");
}

#[test]
fn test_scan_first_time_rolls_and_stores() {
    let bestiary = catalog();
    let mut cache = ScanCache::new();
    let mut rng = StdRng::seed_from_u64(10);
    assert!(!cache.has_scan("TITAN"));
    assert_eq!(cache.get("TITAN"), None);

    let scan = cache.scan("TITAN", Some(&bestiary), &mut rng).unwrap();
    assert!(WEATHERS.contains(&scan.weather.as_str()));
    assert!(SCRAP_MIN <= scan.scrap_value && scan.scrap_value <= SCRAP_MAX);
    assert_eq!((SCRAP_MIN, SCRAP_MAX), (100, 1000));
    assert!(3 <= scan.monsters.len() && scan.monsters.len() <= 5);
    assert_eq!(scan.threat_level, threat_of_owned(&scan.monsters));

    assert!(cache.has_scan("TITAN"));
    assert_eq!(cache.get("TITAN"), Some(&scan));
    assert_eq!(cache.len(), 1);
    assert_eq!(cache.location_at(0), "TITAN");
    assert_eq!(cache.scan_at(0), &scan);
}

#[test]
fn test_scan_twice_returns_the_same_scan_and_draws_nothing() {
    let bestiary = catalog();
    let mut cache = ScanCache::new();
    let mut rng = StdRng::seed_from_u64(11);
    let first = cache.scan("EMBRION", Some(&bestiary), &mut rng).unwrap();
    let after_first = rng.clone();

    let second = cache.scan("EMBRION", Some(&bestiary), &mut rng).unwrap();
    assert_eq!(second, first);
    assert_eq!(rng, after_first);
    assert_eq!(cache.len(), 1);

    // Not even the bestiary is needed for a location that has its scan.
    let third = cache.scan("EMBRION", None, &mut rng).unwrap();
    assert_eq!(third, first);
    assert_eq!(rng, after_first);

    // Nor does another bestiary change it.
    let other = Bestiary::default();
    for _ in 0..20 {
        assert_eq!(cache.scan("EMBRION", Some(&other), &mut rng).unwrap(), first);
    }
    assert_eq!(rng, after_first);
}

#[test]
fn test_scan_without_bestiary_fails_and_changes_nothing() {
    let bestiary = catalog();
    let mut cache = ScanCache::new();
    let mut rng = StdRng::seed_from_u64(12);
    let _ = cache.scan("VOW", Some(&bestiary), &mut rng).unwrap();
    let before_rng = rng.clone();

    let result = cache.scan("TITAN", None, &mut rng);
    assert_eq!(result, Err(EngineError::CatalogUnavailable));
    assert!(!cache.has_scan("TITAN"));
    assert_eq!(cache.len(), 1);
    assert_eq!(rng, before_rng);

    // The location can be scanned once the bestiary is there.
    let scan = cache.scan("TITAN", Some(&bestiary), &mut rng).unwrap();
    assert_eq!(cache.get("TITAN"), Some(&scan));
    assert_eq!(cache.len(), 2);
}

#[test]
fn test_scan_of_one_location_leaves_the_others() {
    let bestiary = catalog();
    let mut cache = ScanCache::new();
    let mut rng = StdRng::seed_from_u64(13);
    let vow = cache.scan("VOW", Some(&bestiary), &mut rng).unwrap();
    let titan = cache.scan("TITAN", Some(&bestiary), &mut rng).unwrap();
    let embrion = cache.scan("EMBRION", Some(&bestiary), &mut rng).unwrap();
    assert_eq!(cache.get("VOW"), Some(&vow));
    assert_eq!(cache.get("TITAN"), Some(&titan));
    assert_eq!(cache.get("EMBRION"), Some(&embrion));
    assert_eq!(cache.len(), 3);
    assert_eq!(cache.location_at(0), "VOW");
    assert_eq!(cache.location_at(1), "TITAN");
    assert_eq!(cache.location_at(2), "EMBRION");
    // Locations are kept letter for letter.
    assert!(!cache.has_scan("vow"));
}

#[test]
fn test_scan_rolls_every_weather_and_many_scrap_values() {
    let bestiary = catalog();
    let mut rng = StdRng::seed_from_u64(14);
    let mut weathers: Vec<String> = vec![];
    let mut scraps: Vec<u32> = vec![];
    for _ in 0..300 {
        let mut cache = ScanCache::new();
        let scan = cache.scan("VOW", Some(&bestiary), &mut rng).unwrap();
        assert!(WEATHERS.contains(&scan.weather.as_str()));
        assert!(100 <= scan.scrap_value && scan.scrap_value <= 1000);
        assert!(1 <= scan.monsters.len() && scan.monsters.len() <= 3);
        if !weathers.contains(&scan.weather) {
            weathers.push(scan.weather.clone());
        }
        if !scraps.contains(&scan.scrap_value) {
            scraps.push(scan.scrap_value);
        }
    }
    assert_eq!(weathers.len(), 5);
    assert!(scraps.len() > 100);
}

#[test]
fn test_scan_with_empty_bestiary() {
    let mut cache = ScanCache::new();
    let mut rng = StdRng::seed_from_u64(15);
    let scan = cache.scan("REND", Some(&Bestiary::default()), &mut rng).unwrap();
    assert!(scan.monsters.is_empty());
    assert_eq!(scan.threat_level, 0);
    assert_eq!(cache.get("REND"), Some(&scan));
}

#[test]
fn test_restore_keeps_the_first_scan() {
    let mut cache = ScanCache::new();
    let saved = ScanData {
        weather: "Foggy".to_string(),
        threat_level: 12,
        scrap_value: 480,
        monsters: vec![],
    };
    let later = ScanData {
        weather: "Clear".to_string(),
        threat_level: 0,
        scrap_value: 999,
        monsters: vec![],
    };
    assert!(cache.restore("DINE".to_string(), saved.clone()));
    assert!(!cache.restore("DINE".to_string(), later));
    assert_eq!(cache.get("DINE"), Some(&saved));
    assert_eq!(cache.len(), 1);

    // A scan of the restored location yields the saved scan.
    let mut rng = StdRng::seed_from_u64(16);
    let untouched = rng.clone();
    assert_eq!(cache.scan("DINE", None, &mut rng), Ok(saved));
    assert_eq!(rng, untouched);
}

fn cache_with(location: &str, weather: &str, threat_level: u32, scrap_value: u32) -> ScanCache {
    let mut cache = ScanCache::new();
    let scan = ScanData { weather: weather.to_string(), threat_level, scrap_value, monsters: vec![] };
    assert!(cache.restore(location.to_string(), scan));
    cache
}

#[test]
fn test_collection_chance() {
    let cache = cache_with("VOW", "Eclipsed", 40, 200);
    let config = CollectConfig::default();
    // 50 + 15 - 30 - 20
    assert_eq!(cache.collection_chance("VOW", 15, Some(&config)), Ok(15));
    // 50 + 0 - 30 - 20 = 0 -> 1
    assert_eq!(cache.collection_chance("VOW", 0, Some(&config)), Ok(1));
    assert_eq!(cache.collection_chance("VOW", 200, Some(&config)), Ok(200));
}

#[test]
fn test_collection_chance_errors() {
    let cache = cache_with("VOW", "Clear", 0, 200);
    let config = CollectConfig::default();
    assert_eq!(
        cache.collection_chance("TITAN", 0, Some(&config)),
        Err(EngineError::NoScanForLocation)
    );
    // The missing scan comes first.
    assert_eq!(cache.collection_chance("TITAN", 0, None), Err(EngineError::NoScanForLocation));
    assert_eq!(cache.collection_chance("VOW", 0, None), Err(EngineError::ConfigurationUnavailable));
    assert_eq!(
        ScanCache::new().collection_chance("VOW", 0, Some(&config)),
        Err(EngineError::NoScanForLocation)
    );
}

#[test]
fn test_collection_attempt() {
    let cache = cache_with("VOW", "Clear", 0, 345);
    let mut sure = CollectConfig { id: None, base_chance: 100, weather_mods: LabelMap::new() };
    let mut rng = StdRng::seed_from_u64(17);
    for _ in 0..500 {
        assert_eq!(cache.collection_attempt("VOW", 0, Some(&sure), &mut rng), Ok(Some(345)));
    }
    // The scan stays: the chance and the scrap value are as before.
    assert_eq!(cache.collection_chance("VOW", 0, Some(&sure)), Ok(100));
    assert_eq!(cache.get("VOW").unwrap().scrap_value, 345);

    sure.base_chance = 30;
    let mut successes = 0;
    for _ in 0..1000 {
        match cache.collection_attempt("VOW", 0, Some(&sure), &mut rng) {
            Ok(Some(credits)) => {
                assert_eq!(credits, 345);
                successes += 1;
            }
            Ok(None) => {}
            Err(error) => panic!("unexpected error: {:?}", error),
        }
    }
    assert!(200 <= successes && successes <= 400, "{}", successes);
}

#[test]
fn test_collection_attempt_errors_draw_nothing() {
    let cache = cache_with("VOW", "Clear", 0, 345);
    let config = CollectConfig::default();
    let mut rng = StdRng::seed_from_u64(18);
    let untouched = rng.clone();
    assert_eq!(
        cache.collection_attempt("MARCH", 0, Some(&config), &mut rng),
        Err(EngineError::NoScanForLocation)
    );
    assert_eq!(
        cache.collection_attempt("MARCH", 0, None, &mut rng),
        Err(EngineError::NoScanForLocation)
    );
    assert_eq!(
        cache.collection_attempt("VOW", 0, None, &mut rng),
        Err(EngineError::ConfigurationUnavailable)
    );
    assert_eq!(rng, untouched);
}

#[test]
fn test_engine_error_messages() {
    assert_eq!(EngineError::CatalogUnavailable.message(), "the bestiary is not available");
    assert_eq!(
        EngineError::ConfigurationUnavailable.message(),
        "the collection configuration is not available"
    );
    assert_eq!(EngineError::NoScanForLocation.message(), "the location has not been scanned");
}
