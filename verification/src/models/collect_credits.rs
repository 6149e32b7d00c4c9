//! Collecting credits: the chance of an attempt and the trial that decides
//! it.

use crate::models::types::{CollectConfig, CollectConfigView, ScanData, ScanDataView};
use crate::random::random_in_range;
use rand::rngs::StdRng;
use vstd::prelude::*;

verus! {

/// The least chance that an attempt can have, in percent.
pub const MIN_CHANCE: i64 = 1;

/// One more than the greatest roll of a trial: a roll is at least 0 and
/// below this.
pub const ROLL_LIMIT: u32 = 100;

/// What the weather adds to the chance: the modifier that the configuration
/// holds for it, and nothing where it holds none.
pub open spec fn weather_modifier(mods: Map<Seq<char>, i32>, weather: Seq<char>) -> int {
    if mods.contains_key(weather) {
        mods[weather] as int
    } else {
        0
    }
}

/// The chance of success in percent: base chance plus player bonus plus
/// weather modifier, minus half the threat level rounded down, and never
/// below `MIN_CHANCE`. There is no upper limit: a chance of 100 or more
/// always succeeds.
pub open spec fn chance_of(scan: ScanDataView, config: CollectConfigView, player_bonus: int) -> int {
    let raw = config.base_chance + player_bonus + weather_modifier(
        config.weather_mods,
        scan.weather,
    ) - scan.threat_level / 2;
    if raw < MIN_CHANCE {
        MIN_CHANCE as int
    } else {
        raw
    }
}

/// What a trial with the given roll yields: the scrap value where the roll
/// is below the chance, and nothing otherwise.
pub open spec fn outcome_of(chance: int, roll: int, scrap_value: u32) -> Option<u32> {
    if roll < chance {
        Some(scrap_value)
    } else {
        None
    }
}

/// Decides a trial whose roll is already drawn.
pub fn resolve_attempt(chance: i64, roll: u32, scrap_value: u32) -> (credits: Option<u32>)
    ensures
        credits == outcome_of(chance as int, roll as int, scrap_value),
{
    if (roll as i64) < chance {
        Some(scrap_value)
    } else {
        None
    }
}

/// A trial yields the scrap value or nothing. Whatever the roll, it yields
/// the scrap value where the chance is `ROLL_LIMIT` or more, and the chance
/// is never so low that no roll succeeds.
pub proof fn lemma_trial_outcomes(
    scan: ScanDataView,
    config: CollectConfigView,
    player_bonus: int,
    roll: int,
    scrap_value: u32,
)
    requires
        0 <= roll < ROLL_LIMIT,
    ensures
        chance_of(scan, config, player_bonus) >= MIN_CHANCE,
        outcome_of(chance_of(scan, config, player_bonus), roll, scrap_value) is None || outcome_of(
            chance_of(scan, config, player_bonus),
            roll,
            scrap_value,
        ) == Some(scrap_value),
        chance_of(scan, config, player_bonus) >= ROLL_LIMIT ==> outcome_of(
            chance_of(scan, config, player_bonus),
            roll,
            scrap_value,
        ) == Some(scrap_value),
        outcome_of(chance_of(scan, config, player_bonus), 0, scrap_value) == Some(scrap_value),
{
}

/// One collection attempt on a scanned location.
pub struct CollectCreditsEvent<'scan> {
    pub scan_data: &'scan ScanData,
    pub player_bonus: i32,
    pub config: &'scan CollectConfig,
}

impl<'scan> CollectCreditsEvent<'scan> {
    /// The chance of this attempt, as [`chance_of`] defines it.
    pub open spec fn chance(&self) -> int {
        chance_of(self.scan_data@, self.config@, self.player_bonus as int)
    }

    /// The chance of success in percent. It is at least `MIN_CHANCE` and may
    /// be above 100.
    pub fn calculate_chance(&self) -> (chance: i64)
        ensures
            chance == self.chance(),
            chance >= MIN_CHANCE,
    {
        let modifier: i64 = match self.config.weather_mods.get(self.scan_data.weather.as_str()) {
            Some(delta) => *delta as i64,
            None => 0,
        };
        let half_threat: i64 = (self.scan_data.threat_level / 2) as i64;
        let raw: i64 = self.config.base_chance as i64 + self.player_bonus as i64 + modifier
            - half_threat;
        if raw < MIN_CHANCE {
            MIN_CHANCE
        } else {
            raw
        }
    }

    /// Makes the attempt: draws one roll from 0 to 99 and succeeds where
    /// the roll is below the chance. Success yields the scrap value of the
    /// scan, failure yields nothing.
    pub fn attempt(&self, rng: &mut StdRng) -> (credits: Option<u32>)
        ensures
            exists|roll: int|
                0 <= roll < ROLL_LIMIT && credits == #[trigger] outcome_of(
                    self.chance(),
                    roll,
                    self.scan_data.scrap_value,
                ),
            credits matches Some(amount) ==> amount == self.scan_data.scrap_value,
            self.chance() >= ROLL_LIMIT ==> credits == Some(self.scan_data.scrap_value),
    {
        let chance = self.calculate_chance();
        let roll = random_in_range(rng, 0, ROLL_LIMIT - 1);
        let credits = resolve_attempt(chance, roll, self.scan_data.scrap_value);
        assert(credits == outcome_of(self.chance(), roll as int, self.scan_data.scrap_value));
        credits
    }
}

} // verus!
