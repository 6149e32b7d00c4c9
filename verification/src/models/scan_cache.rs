//! The scans of a session, one per location, and the operations that the
//! game runs against them.

use crate::models::collect_credits::{chance_of, outcome_of, CollectCreditsEvent, ROLL_LIMIT};
use crate::models::label_map::LabelMap;
use crate::models::scan_logic::{generate_scan_data, is_scan_of};
use crate::models::types::{
    Bestiary, BestiaryView, CollectConfig, CollectConfigView, ScanData, ScanDataView,
};
use crate::random::random_in_range;
use rand::rngs::StdRng;
use vstd::prelude::*;

verus! {

/// Why an operation of the engine did not go through. None of these ends
/// the session.
#[derive(Debug, Clone, Copy, PartialEq, Eq, Structural)]
pub enum EngineError {
    /// The bestiary could not be had, so no new scan was made.
    CatalogUnavailable,
    /// The collection configuration could not be had.
    ConfigurationUnavailable,
    /// The location has not been scanned yet.
    NoScanForLocation,
}

impl EngineError {
    /// A sentence that says what went wrong.
    pub fn message(&self) -> (text: &'static str)
        ensures
            text@ == (match *self {
                EngineError::CatalogUnavailable => "the bestiary is not available"@,
                EngineError::ConfigurationUnavailable => "the collection configuration is not available"@,
                EngineError::NoScanForLocation => "the location has not been scanned"@,
            }),
    {
        match self {
            EngineError::CatalogUnavailable => "the bestiary is not available",
            EngineError::ConfigurationUnavailable => "the collection configuration is not available",
            EngineError::NoScanForLocation => "the location has not been scanned",
        }
    }
}

/// How many weather conditions there are.
pub const WEATHER_COUNT: u32 = 5;

/// The least scrap value that a scan can find.
pub const SCRAP_MIN: u32 = 100;

/// The greatest scrap value that a scan can find.
pub const SCRAP_MAX: u32 = 1000;

/// The name of the weather condition at a position of the fixed list. A
/// position past the end of the list counts as the last.
pub open spec fn weather_name(index: int) -> Seq<char> {
    if index == 0 {
        "Clear"@
    } else if index == 1 {
        "Rainy"@
    } else if index == 2 {
        "Foggy"@
    } else if index == 3 {
        "Stormy"@
    } else {
        "Eclipsed"@
    }
}

/// The name of the weather condition at a position of the fixed list.
pub fn weather_label(index: u32) -> (label: &'static str)
    ensures
        label@ == weather_name(index as int),
{
    if index == 0 {
        "Clear"
    } else if index == 1 {
        "Rainy"
    } else if index == 2 {
        "Foggy"
    } else if index == 3 {
        "Stormy"
    } else {
        "Eclipsed"
    }
}

/// Whether `scan` is a possible first scan of `location`: a scan of it under
/// one of the weather conditions, with a scrap value from `SCRAP_MIN` to
/// `SCRAP_MAX`.
pub open spec fn is_fresh_scan(
    bestiary: BestiaryView,
    location: Seq<char>,
    scan: ScanDataView,
) -> bool {
    &&& SCRAP_MIN <= scan.scrap_value <= SCRAP_MAX
    &&& exists|index: int|
        0 <= index < WEATHER_COUNT && is_scan_of(
            bestiary,
            location,
            #[trigger] weather_name(index),
            scan.scrap_value,
            scan,
        )
}

/// The view of the result of a scan.
pub open spec fn scan_result_view(
    result: Result<ScanData, EngineError>,
) -> Result<ScanDataView, EngineError> {
    match result {
        Ok(scan) => Ok(scan@),
        Err(error) => Err(error),
    }
}

/// Whether a scan of `location` can lead from the cache `before` to the
/// cache `after` with the given result.
///
/// A location that was scanned before yields its scan again and the cache
/// stays as it is. A new location needs the bestiary: without it the scan
/// fails and the cache stays as it is; with it the result is a fresh scan,
/// which the cache then holds for the location.
pub open spec fn is_scan_step(
    before: Map<Seq<char>, ScanDataView>,
    location: Seq<char>,
    bestiary: Option<BestiaryView>,
    after: Map<Seq<char>, ScanDataView>,
    result: Result<ScanDataView, EngineError>,
) -> bool {
    if before.contains_key(location) {
        after == before && result == Ok::<ScanDataView, EngineError>(before[location])
    } else {
        match bestiary {
            None => after == before && result == Err::<ScanDataView, EngineError>(
                EngineError::CatalogUnavailable,
            ),
            Some(catalog) => {
                &&& result is Ok
                &&& is_fresh_scan(catalog, location, result->Ok_0)
                &&& after == before.insert(location, result->Ok_0)
            },
        }
    }
}

/// The view of an optional bestiary.
pub open spec fn catalog_view(bestiary: Option<&Bestiary>) -> Option<BestiaryView> {
    match bestiary {
        Some(catalog) => Some(catalog@),
        None => None,
    }
}

/// The view of an optional configuration.
pub open spec fn config_view(config: Option<&CollectConfig>) -> Option<CollectConfigView> {
    match config {
        Some(rules) => Some(rules@),
        None => None,
    }
}

/// What asking for the chance of a collection yields: an error where the
/// location has no scan or, with a scan, where the configuration is missing,
/// and the chance otherwise.
pub open spec fn chance_result(
    scans: Map<Seq<char>, ScanDataView>,
    location: Seq<char>,
    player_bonus: int,
    config: Option<CollectConfigView>,
) -> Result<int, EngineError> {
    if !scans.contains_key(location) {
        Err(EngineError::NoScanForLocation)
    } else {
        match config {
            None => Err(EngineError::ConfigurationUnavailable),
            Some(rules) => Ok(chance_of(scans[location], rules, player_bonus)),
        }
    }
}

/// Whether `result` can come of a collection attempt: the error that asking
/// for the chance yields, or else what a trial with that chance and some
/// roll from 0 to 99 yields for the scrap value of the location's scan.
pub open spec fn is_attempt_result(
    scans: Map<Seq<char>, ScanDataView>,
    location: Seq<char>,
    player_bonus: int,
    config: Option<CollectConfigView>,
    result: Result<Option<u32>, EngineError>,
) -> bool {
    match chance_result(scans, location, player_bonus, config) {
        Err(error) => result == Err::<Option<u32>, EngineError>(error),
        Ok(chance) => {
            &&& result is Ok
            &&& exists|roll: int|
                0 <= roll < ROLL_LIMIT && result->Ok_0 == #[trigger] outcome_of(
                    chance,
                    roll,
                    scans[location].scrap_value as u32,
                )
        },
    }
}

/// The scans of a session. A location gets its scan when it is first
/// scanned and keeps it from then on.
#[derive(Debug, PartialEq, Eq)]
pub struct ScanCache {
    scans: LabelMap<ScanData>,
}

impl View for ScanCache {
    type V = Map<Seq<char>, ScanDataView>;

    closed spec fn view(&self) -> Map<Seq<char>, ScanDataView> {
        self.scans@.map_values(|scan: ScanData| scan@)
    }
}

impl ScanCache {
    /// The locations in the order in which they were first scanned.
    pub closed spec fn locations(&self) -> Seq<Seq<char>> {
        self.scans.labels()
    }

    /// The cache of a session in which nothing has been scanned.
    pub fn new() -> (cache: Self)
        ensures
            cache@ == Map::<Seq<char>, ScanDataView>::empty(),
            cache.locations() == Seq::<Seq<char>>::empty(),
    {
        let cache = ScanCache { scans: LabelMap::new() };
        assert(cache@ =~= Map::<Seq<char>, ScanDataView>::empty());
        cache
    }

    /// How many locations have been scanned. The locations are distinct, and
    /// they are the keys of the view.
    pub fn len(&self) -> (count: usize)
        ensures
            count == self.locations().len(),
            count == self@.len(),
            self.locations().no_duplicates(),
            forall|location: Seq<char>|
                self@.contains_key(location) <==> self.locations().contains(location),
    {
        let count = self.scans.len();
        proof {
            assert(self@.dom() =~= self.scans@.dom());
        }
        count
    }

    /// The location at position `index` of the order of first scans.
    pub fn location_at(&self, index: usize) -> (location: &String)
        requires
            index < self.locations().len(),
        ensures
            location@ == self.locations()[index as int],
    {
        self.scans.label_at(index)
    }

    /// The scan of the location at position `index` of the order of first
    /// scans.
    pub fn scan_at(&self, index: usize) -> (scan: &ScanData)
        requires
            index < self.locations().len(),
        ensures
            self@.contains_key(self.locations()[index as int]),
            scan@ == self@[self.locations()[index as int]],
    {
        self.scans.value_at(index)
    }

    /// Whether `location` has been scanned.
    pub fn has_scan(&self, location: &str) -> (found: bool)
        ensures
            found == self@.contains_key(location@),
    {
        self.scans.contains_key(location)
    }

    /// The scan of `location`, if it has been scanned.
    pub fn get(&self, location: &str) -> (scan: Option<&ScanData>)
        ensures
            match scan {
                Some(found) => self@.contains_key(location@) && found@ == self@[location@],
                None => !self@.contains_key(location@),
            },
    {
        self.scans.get(location)
    }

    /// Puts back the scan of a location, as when a saved session is loaded.
    /// A location that already has a scan keeps it. Returns whether the scan
    /// went in.
    pub fn restore(&mut self, location: String, scan: ScanData) -> (stored: bool)
        ensures
            stored == !old(self)@.contains_key(location@),
            stored ==> final(self)@ == old(self)@.insert(location@, scan@),
            stored ==> final(self).locations() == old(self).locations().push(location@),
            !stored ==> final(self)@ == old(self)@,
            !stored ==> final(self).locations() == old(self).locations(),
    {
        if self.scans.contains_key(location.as_str()) {
            false
        } else {
            self.scans.insert(location, scan);
            assert(self@ =~= old(self)@.insert(location@, scan@));
            true
        }
    }

    /// Scans `location`.
    ///
    /// A location that was scanned before yields a copy of its scan: the
    /// cache stays as it is, the bestiary is not looked at and nothing is
    /// drawn. For a new location the bestiary is needed. Without it the scan
    /// fails with `CatalogUnavailable`, the cache stays as it is and nothing
    /// is drawn. With it a weather condition and a scrap value are drawn, the
    /// location is scanned against the bestiary, and the cache holds the
    /// result from then on.
    pub fn scan(
        &mut self,
        location: &str,
        bestiary: Option<&Bestiary>,
        rng: &mut StdRng,
    ) -> (result: Result<ScanData, EngineError>)
        ensures
            is_scan_step(
                old(self)@,
                location@,
                catalog_view(bestiary),
                final(self)@,
                scan_result_view(result),
            ),
            old(self)@.contains_key(location@) || bestiary is None ==> *final(rng) == *old(rng),
            old(self)@.contains_key(location@) ==> final(self).locations()
                == old(self).locations(),
            !old(self)@.contains_key(location@) && bestiary is Some ==> final(self).locations()
                == old(self).locations().push(location@),
    {
        match self.scans.get(location) {
            Some(found) => {
                return Ok(found.clone());
            },
            None => {},
        }
        let catalog = match bestiary {
            Some(catalog) => catalog,
            None => {
                return Err(EngineError::CatalogUnavailable);
            },
        };
        let weather_index = random_in_range(rng, 0, WEATHER_COUNT - 1);
        let weather = weather_label(weather_index);
        let scrap_value = random_in_range(rng, SCRAP_MIN, SCRAP_MAX);
        let scan = generate_scan_data(location, weather, scrap_value, catalog, rng);
        let copy = scan.clone();
        self.scans.insert(location.to_string(), scan);
        proof {
            assert(is_scan_of(
                catalog@,
                location@,
                weather_name(weather_index as int),
                copy@.scrap_value,
                copy@,
            ));
            assert(self@ =~= old(self)@.insert(location@, copy@));
        }
        Ok(copy)
    }

    /// The chance of a collection attempt on `location`, in percent.
    ///
    /// Fails with `NoScanForLocation` where the location has not been
    /// scanned, whatever the configuration; with a scan, fails with
    /// `ConfigurationUnavailable` where there is no configuration.
    pub fn collection_chance(
        &self,
        location: &str,
        player_bonus: i32,
        config: Option<&CollectConfig>,
    ) -> (result: Result<i64, EngineError>)
        ensures
            chance_result(self@, location@, player_bonus as int, config_view(config))
                == (match result {
                Ok(chance) => Ok::<int, EngineError>(chance as int),
                Err(error) => Err::<int, EngineError>(error),
            }),
    {
        let scan_data = match self.scans.get(location) {
            Some(found) => found,
            None => {
                return Err(EngineError::NoScanForLocation);
            },
        };
        let rules = match config {
            Some(rules) => rules,
            None => {
                return Err(EngineError::ConfigurationUnavailable);
            },
        };
        let event = CollectCreditsEvent { scan_data, player_bonus, config: rules };
        Ok(event.calculate_chance())
    }

    /// Makes one collection attempt on `location`: a trial with the chance
    /// that [`ScanCache::collection_chance`] gives, which yields the scrap
    /// value of the location's scan or nothing. The scan stays in the cache
    /// either way.
    ///
    /// Fails as `collection_chance` does, and then nothing is drawn.
    pub fn collection_attempt(
        &self,
        location: &str,
        player_bonus: i32,
        config: Option<&CollectConfig>,
        rng: &mut StdRng,
    ) -> (result: Result<Option<u32>, EngineError>)
        ensures
            is_attempt_result(
                self@,
                location@,
                player_bonus as int,
                config_view(config),
                result,
            ),
            result is Err ==> *final(rng) == *old(rng),
            result matches Ok(Some(amount)) ==> amount == self@[location@].scrap_value,
    {
        let scan_data = match self.scans.get(location) {
            Some(found) => found,
            None => {
                return Err(EngineError::NoScanForLocation);
            },
        };
        let rules = match config {
            Some(rules) => rules,
            None => {
                return Err(EngineError::ConfigurationUnavailable);
            },
        };
        let event = CollectCreditsEvent { scan_data, player_bonus, config: rules };
        let credits = event.attempt(rng);
        proof {
            let roll = choose|roll: int|
                0 <= roll < ROLL_LIMIT && credits == #[trigger] outcome_of(
                    event.chance(),
                    roll,
                    scan_data.scrap_value,
                );
            assert(credits == outcome_of(
                chance_of(self@[location@], rules@, player_bonus as int),
                roll,
                self@[location@].scrap_value as u32,
            ));
        }
        Ok(credits)
    }
}

/// A second scan of a location yields the scan that the first one yielded,
/// whatever bestiary it is given, and leaves the cache as the first one left
/// it.
pub proof fn lemma_scan_is_idempotent(
    start: Map<Seq<char>, ScanDataView>,
    location: Seq<char>,
    first_bestiary: Option<BestiaryView>,
    middle: Map<Seq<char>, ScanDataView>,
    first: Result<ScanDataView, EngineError>,
    second_bestiary: Option<BestiaryView>,
    end: Map<Seq<char>, ScanDataView>,
    second: Result<ScanDataView, EngineError>,
)
    requires
        is_scan_step(start, location, first_bestiary, middle, first),
        first is Ok,
        is_scan_step(middle, location, second_bestiary, end, second),
    ensures
        second == first,
        end == middle,
{
}

/// A scan of any location leaves every scan that the cache already holds as
/// it is.
pub proof fn lemma_scan_keeps_entries(
    before: Map<Seq<char>, ScanDataView>,
    location: Seq<char>,
    bestiary: Option<BestiaryView>,
    after: Map<Seq<char>, ScanDataView>,
    result: Result<ScanDataView, EngineError>,
    other: Seq<char>,
)
    requires
        is_scan_step(before, location, bestiary, after, result),
        before.contains_key(other),
    ensures
        after.contains_key(other),
        after[other] == before[other],
{
}

} // verus!
