//! The data that the engine reads and produces, each with its view.

use crate::models::label_map::LabelMap;
use vstd::prelude::*;

verus! {

/// How many units of `Monster::power_level` make a power of one.
pub const POWER_SCALE: u32 = 1000;

/// The mathematical content of a [`Monster`].
pub struct MonsterView {
    pub name: Seq<char>,
    pub entity_type: Seq<char>,
    pub behavior: Seq<char>,
    pub danger_level: Option<u32>,
    pub power_level: nat,
    pub spawn_condition: Seq<char>,
    pub moons: Seq<Seq<char>>,
    pub speed: Option<Seq<char>>,
    pub notes: Option<Seq<char>>,
}

/// One entry of the bestiary.
///
/// `danger_level` is a rating out of 100, absent for an unrated monster.
/// `power_level` is a fixed-point number in thousandths: 2500 is a power of
/// two and a half. `moons` lists the locations on which the monster can be
/// met, each written as the location is stored.
#[derive(Debug, PartialEq, Eq)]
pub struct Monster {
    pub name: String,
    pub entity_type: String,
    pub behavior: String,
    pub danger_level: Option<u32>,
    pub power_level: u32,
    pub spawn_condition: String,
    pub moons: Vec<String>,
    pub speed: Option<String>,
    pub notes: Option<String>,
}

/// The view of an optional string.
pub open spec fn text_of(value: Option<String>) -> Option<Seq<char>> {
    match value {
        Some(text) => Some(text@),
        None => None,
    }
}

/// The views of a sequence of strings, in order.
pub open spec fn texts_of(values: Seq<String>) -> Seq<Seq<char>> {
    values.map_values(|text: String| text@)
}

/// The views of a sequence of monsters, in order.
pub open spec fn monster_views(monsters: Seq<Monster>) -> Seq<MonsterView> {
    monsters.map_values(|monster: Monster| monster@)
}

/// The views of a sequence of borrowed monsters, in order.
pub open spec fn borrowed_monster_views(monsters: Seq<&Monster>) -> Seq<MonsterView> {
    monsters.map_values(|monster: &Monster| monster@)
}

impl View for Monster {
    type V = MonsterView;

    open spec fn view(&self) -> MonsterView {
        MonsterView {
            name: self.name@,
            entity_type: self.entity_type@,
            behavior: self.behavior@,
            danger_level: self.danger_level,
            power_level: self.power_level as nat,
            spawn_condition: self.spawn_condition@,
            moons: texts_of(self.moons@),
            speed: text_of(self.speed),
            notes: text_of(self.notes),
        }
    }
}

/// A copy of an optional string.
pub fn clone_text(value: &Option<String>) -> (copy: Option<String>)
    ensures
        text_of(copy) == text_of(*value),
{
    match value {
        Some(text) => Some(text.clone()),
        None => None,
    }
}

/// A copy of a list of strings.
pub fn clone_texts(values: &Vec<String>) -> (copy: Vec<String>)
    ensures
        texts_of(copy@) == texts_of(values@),
{
    let mut copy: Vec<String> = Vec::new();
    let mut i: usize = 0;
    while i < values.len()
        invariant
            i <= values.len(),
            copy.len() == i,
            forall|j: int| 0 <= j < i ==> copy@[j]@ == values@[j]@,
        decreases values.len() - i,
    {
        copy.push(values[i].clone());
        i += 1;
    }
    assert(texts_of(copy@) =~= texts_of(values@));
    copy
}

impl Clone for Monster {
    fn clone(&self) -> (copy: Self)
        ensures
            copy@ == self@,
    {
        Monster {
            name: self.name.clone(),
            entity_type: self.entity_type.clone(),
            behavior: self.behavior.clone(),
            danger_level: self.danger_level,
            power_level: self.power_level,
            spawn_condition: self.spawn_condition.clone(),
            moons: clone_texts(&self.moons),
            speed: clone_text(&self.speed),
            notes: clone_text(&self.notes),
        }
    }
}

/// A copy of a list of monsters.
pub fn clone_monsters(monsters: &Vec<Monster>) -> (copy: Vec<Monster>)
    ensures
        monster_views(copy@) == monster_views(monsters@),
{
    let mut copy: Vec<Monster> = Vec::new();
    let mut i: usize = 0;
    while i < monsters.len()
        invariant
            i <= monsters.len(),
            copy.len() == i,
            forall|j: int| 0 <= j < i ==> copy@[j]@ == monsters@[j]@,
        decreases monsters.len() - i,
    {
        copy.push(monsters[i].clone());
        i += 1;
    }
    assert(monster_views(copy@) =~= monster_views(monsters@));
    copy
}

/// The mathematical content of a [`Bestiary`].
pub struct BestiaryView {
    pub id: Option<Seq<char>>,
    pub monsters: Seq<MonsterView>,
}

/// The catalog of monsters, read by a scan and never changed by it.
#[derive(Debug, PartialEq, Eq)]
pub struct Bestiary {
    pub id: Option<String>,
    pub monsters: Vec<Monster>,
}

impl View for Bestiary {
    type V = BestiaryView;

    open spec fn view(&self) -> BestiaryView {
        BestiaryView { id: text_of(self.id), monsters: monster_views(self.monsters@) }
    }
}

impl Clone for Bestiary {
    fn clone(&self) -> (copy: Self)
        ensures
            copy@ == self@,
    {
        Bestiary { id: clone_text(&self.id), monsters: clone_monsters(&self.monsters) }
    }
}

impl Default for Bestiary {
    /// The empty catalog under the identifier `bestiary`.
    fn default() -> (bestiary: Self)
        ensures
            bestiary@ == (BestiaryView { id: Some("bestiary"@), monsters: Seq::empty() }),
    {
        let bestiary = Bestiary { id: Some("bestiary".to_string()), monsters: Vec::new() };
        assert(bestiary@.monsters =~= Seq::empty());
        bestiary
    }
}

/// The mathematical content of a [`ScanData`].
pub struct ScanDataView {
    pub weather: Seq<char>,
    pub threat_level: nat,
    pub scrap_value: nat,
    pub monsters: Seq<MonsterView>,
}

/// What one scan of a location found.
#[derive(Debug, PartialEq, Eq)]
pub struct ScanData {
    pub weather: String,
    pub threat_level: u32,
    pub scrap_value: u32,
    pub monsters: Vec<Monster>,
}

impl View for ScanData {
    type V = ScanDataView;

    open spec fn view(&self) -> ScanDataView {
        ScanDataView {
            weather: self.weather@,
            threat_level: self.threat_level as nat,
            scrap_value: self.scrap_value as nat,
            monsters: monster_views(self.monsters@),
        }
    }
}

impl Clone for ScanData {
    fn clone(&self) -> (copy: Self)
        ensures
            copy@ == self@,
    {
        ScanData {
            weather: self.weather.clone(),
            threat_level: self.threat_level,
            scrap_value: self.scrap_value,
            monsters: clone_monsters(&self.monsters),
        }
    }
}

/// The mathematical content of a [`CollectConfig`].
pub struct CollectConfigView {
    pub id: Option<Seq<char>>,
    pub base_chance: int,
    pub weather_mods: Map<Seq<char>, i32>,
}

/// The rules of a collection attempt: the nominal chance in percent, which
/// may lie outside 0 to 100, and what each weather adds to it.
#[derive(Debug, PartialEq, Eq)]
pub struct CollectConfig {
    pub id: Option<String>,
    pub base_chance: i32,
    pub weather_mods: LabelMap<i32>,
}

impl View for CollectConfig {
    type V = CollectConfigView;

    open spec fn view(&self) -> CollectConfigView {
        CollectConfigView {
            id: text_of(self.id),
            base_chance: self.base_chance as int,
            weather_mods: self.weather_mods@,
        }
    }
}

/// The weather modifiers of the default configuration.
pub open spec fn default_weather_mods() -> Map<Seq<char>, i32> {
    Map::<Seq<char>, i32>::empty().insert("Clear"@, 20i32).insert("Rainy"@, -5i32).insert(
        "Foggy"@,
        -10i32,
    ).insert("Stormy"@, -20i32).insert("Eclipsed"@, -30i32)
}

impl Default for CollectConfig {
    /// A base chance of 50 under the identifier `collect_config`, with a
    /// bonus in clear weather and a malus in every other.
    fn default() -> (config: Self)
        ensures
            config@ == (CollectConfigView {
                id: Some("collect_config"@),
                base_chance: 50,
                weather_mods: default_weather_mods(),
            }),
    {
        let mut weather_mods: LabelMap<i32> = LabelMap::new();
        weather_mods.insert("Clear".to_string(), 20);
        weather_mods.insert("Rainy".to_string(), -5);
        weather_mods.insert("Foggy".to_string(), -10);
        weather_mods.insert("Stormy".to_string(), -20);
        weather_mods.insert("Eclipsed".to_string(), -30);
        CollectConfig { id: Some("collect_config".to_string()), base_chance: 50, weather_mods }
    }
}

impl Clone for CollectConfig {
    fn clone(&self) -> (copy: Self)
        ensures
            copy@ == self@,
    {
        let count = self.weather_mods.len();
        let mut weather_mods: LabelMap<i32> = LabelMap::new();
        let mut i: usize = 0;
        while i < count
            invariant
                i <= count == self.weather_mods.labels().len(),
                forall|label: Seq<char>|
                    self.weather_mods@.contains_key(label) <==> self.weather_mods.labels().contains(
                        label,
                    ),
                forall|label: Seq<char>|
                    weather_mods@.contains_key(label) <==> self.weather_mods.labels().take(
                        i as int,
                    ).contains(label),
                forall|label: Seq<char>| #[trigger]
                    weather_mods@.contains_key(label) ==> weather_mods@[label]
                        == self.weather_mods@[label],
            decreases count - i,
        {
            let label = self.weather_mods.label_at(i);
            let delta = *self.weather_mods.value_at(i);
            let ghost before = self.weather_mods.labels().take(i as int);
            weather_mods.insert(label.clone(), delta);
            proof {
                let after = self.weather_mods.labels().take(i + 1);
                assert(after =~= before.push(label@));
                assert forall|other: Seq<char>|
                    weather_mods@.contains_key(other) <==> after.contains(other) by {
                    if after.contains(other) {
                        let j = choose|j: int| 0 <= j < after.len() && after[j] == other;
                        if j < i {
                            assert(before[j] == other);
                        }
                    }
                    if before.contains(other) {
                        let j = choose|j: int| 0 <= j < before.len() && before[j] == other;
                        assert(after[j] == other);
                    }
                    assert(after[i as int] == label@);
                }
            }
            i += 1;
        }
        proof {
            assert(self.weather_mods.labels().take(i as int) =~= self.weather_mods.labels());
            assert(weather_mods@ =~= self.weather_mods@);
        }
        CollectConfig { id: clone_text(&self.id), base_chance: self.base_chance, weather_mods }
    }
}

/// The mathematical content of a [`Ship`].
pub struct ShipView {
    pub location: Seq<char>,
    pub number_operators_alive: nat,
    pub upgrades: Seq<Seq<char>>,
    pub decorations: Seq<Seq<char>>,
}

/// The ship of the crew. Its location is where scans and collections take
/// place.
#[derive(Debug, PartialEq, Eq)]
pub struct Ship {
    pub location: String,
    pub number_operators_alive: u32,
    pub upgrades: Vec<String>,
    pub decorations: Vec<String>,
}

impl View for Ship {
    type V = ShipView;

    open spec fn view(&self) -> ShipView {
        ShipView {
            location: self.location@,
            number_operators_alive: self.number_operators_alive as nat,
            upgrades: texts_of(self.upgrades@),
            decorations: texts_of(self.decorations@),
        }
    }
}

impl Clone for Ship {
    fn clone(&self) -> (copy: Self)
        ensures
            copy@ == self@,
    {
        Ship {
            location: self.location.clone(),
            number_operators_alive: self.number_operators_alive,
            upgrades: clone_texts(&self.upgrades),
            decorations: clone_texts(&self.decorations),
        }
    }
}

} // verus!
