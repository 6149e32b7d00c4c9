//! Scanning a location: its tier, the monsters that can be met there, the
//! subset that a scan finds and the threat that the subset poses.

use crate::models::types::{
    borrowed_monster_views, monster_views, Bestiary, BestiaryView, Monster, MonsterView, ScanData,
    ScanDataView, POWER_SCALE,
};
use crate::random::{random_in_range, shuffle_in_place};
use crate::utils::text::{same_text, to_uppercase, uppercase_of};
use rand::rngs::StdRng;
use vstd::prelude::*;

verus! {

/// How many units of a danger factor make a factor of one.
pub const DANGER_SCALE: u32 = 20;

/// The greatest rating on the danger scale.
pub const DANGER_MAX: u32 = 100;

/// How many units of danger factor times power make one point of threat:
/// `DANGER_SCALE` times `POWER_SCALE`.
pub const THREAT_SCALE: u64 = 20_000;

/// The tier of a location whose name is already in upper case: one of four
/// fixed groups of three locations, and tier 1 for every other name.
pub open spec fn tier_of_uppercase(upper: Seq<char>) -> u8 {
    if upper == "EXPERIMENTATION"@ || upper == "ASSURANCE"@ || upper == "VOW"@ {
        1
    } else if upper == "OFFENSE"@ || upper == "MARCH"@ || upper == "ADAMANCE"@ {
        2
    } else if upper == "REND"@ || upper == "DINE"@ || upper == "TITAN"@ {
        3
    } else if upper == "ARTIFICE"@ || upper == "EMBRION"@ || upper == "LIQUIDATION"@ {
        4
    } else {
        1
    }
}

/// The tier of a location, whatever the case of its name.
pub open spec fn tier_of(moon: Seq<char>) -> u8 {
    tier_of_uppercase(uppercase_of(moon))
}

/// The tier of a location whose name is already in upper case.
pub fn tier_for_uppercase(upper: &str) -> (tier: u8)
    ensures
        tier == tier_of_uppercase(upper@),
        1 <= tier <= 4,
{
    if same_text(upper, "EXPERIMENTATION") || same_text(upper, "ASSURANCE") || same_text(
        upper,
        "VOW",
    ) {
        1
    } else if same_text(upper, "OFFENSE") || same_text(upper, "MARCH") || same_text(
        upper,
        "ADAMANCE",
    ) {
        2
    } else if same_text(upper, "REND") || same_text(upper, "DINE") || same_text(upper, "TITAN") {
        3
    } else if same_text(upper, "ARTIFICE") || same_text(upper, "EMBRION") || same_text(
        upper,
        "LIQUIDATION",
    ) {
        4
    } else {
        1
    }
}

/// The difficulty tier of a location, from 1 to 4. The name is matched
/// without regard to case, and a name that is not known has tier 1.
pub fn moon_tier(moon: &str) -> (tier: u8)
    ensures
        tier == tier_of(moon@),
        1 <= tier <= 4,
{
    let upper = to_uppercase(moon);
    tier_for_uppercase(upper.as_str())
}

/// Whether a monster can be met on a location: the location is one of the
/// monster's moons, letter for letter.
pub open spec fn roams(monster: MonsterView, moon: Seq<char>) -> bool {
    monster.moons.contains(moon)
}

/// The monsters of a catalog that can be met on a location, in catalog
/// order.
pub open spec fn candidates_for(monsters: Seq<MonsterView>, moon: Seq<char>) -> Seq<MonsterView> {
    monsters.filter(|monster: MonsterView| roams(monster, moon))
}

/// Whether `monster` can be met on `moon`.
pub fn roams_on(monster: &Monster, moon: &str) -> (found: bool)
    ensures
        found == roams(monster@, moon@),
{
    let mut i: usize = 0;
    while i < monster.moons.len()
        invariant
            i <= monster.moons@.len(),
            forall|j: int| 0 <= j < i ==> monster@.moons[j] != moon@,
        decreases monster.moons@.len() - i,
    {
        if same_text(monster.moons[i].as_str(), moon) {
            assert(monster@.moons[i as int] == moon@);
            return true;
        }
        i += 1;
    }
    false
}

/// The monsters of the bestiary that can be met on `moon`, in catalog order.
pub fn monsters_for_moon<'a>(bestiary: &'a Bestiary, moon: &str) -> (found: Vec<&'a Monster>)
    ensures
        borrowed_monster_views(found@) == candidates_for(bestiary@.monsters, moon@),
{
    let ghost wanted = |monster: MonsterView| roams(monster, moon@);
    let mut found: Vec<&'a Monster> = Vec::new();
    let mut i: usize = 0;
    proof {
        assert(bestiary@.monsters.take(0) =~= Seq::<MonsterView>::empty());
        reveal_with_fuel(Seq::filter, 1);
        assert(borrowed_monster_views(found@) =~= Seq::<MonsterView>::empty());
    }
    while i < bestiary.monsters.len()
        invariant
            i <= bestiary.monsters@.len(),
            wanted == |monster: MonsterView| roams(monster, moon@),
            borrowed_monster_views(found@) == bestiary@.monsters.take(i as int).filter(wanted),
        decreases bestiary.monsters@.len() - i,
    {
        let monster = &bestiary.monsters[i];
        proof {
            let before = bestiary@.monsters.take(i as int);
            assert(bestiary@.monsters.take(i + 1) =~= before.push(monster@));
            Seq::lemma_filter_push(before, monster@, wanted);
        }
        if roams_on(monster, moon) {
            let ghost earlier = found@;
            found.push(monster);
            assert(borrowed_monster_views(found@) =~= borrowed_monster_views(earlier).push(
                monster@,
            ));
        }
        i += 1;
    }
    assert(bestiary@.monsters.take(i as int) =~= bestiary@.monsters);
    found
}

/// The danger factor of a rating, in twentieths: a rating of 20 is a factor
/// of one, and an unrated monster counts with a factor of one.
pub open spec fn danger_factor(level: Option<u32>) -> nat {
    match level {
        Some(rating) => rating as nat,
        None => DANGER_SCALE as nat,
    }
}

/// The danger factor of a rating, in twentieths.
pub fn danger_value(level: &Option<u32>) -> (factor: u32)
    ensures
        factor == danger_factor(*level),
{
    match level {
        Some(rating) => *rating,
        None => DANGER_SCALE,
    }
}

/// Danger factor times power, in units of which `THREAT_SCALE` make one
/// point of threat.
pub open spec fn raw_threat(monster: MonsterView) -> nat {
    danger_factor(monster.danger_level) * monster.power_level
}

/// What one monster adds to the threat level: its danger factor times its
/// power, rounded up to a whole number.
pub open spec fn contribution(monster: MonsterView) -> nat {
    ((raw_threat(monster) + (THREAT_SCALE - 1)) / (THREAT_SCALE as int)) as nat
}

/// The sum of the contributions of a list of monsters.
pub open spec fn threat_sum(monsters: Seq<MonsterView>) -> nat
    decreases monsters.len(),
{
    if monsters.len() == 0 {
        0
    } else {
        threat_sum(monsters.drop_last()) + contribution(monsters.last())
    }
}

/// The threat level of a list of monsters: the sum of their contributions,
/// and `u32::MAX` where the sum is larger than that.
pub open spec fn threat_level_of(monsters: Seq<MonsterView>) -> nat {
    if threat_sum(monsters) <= u32::MAX {
        threat_sum(monsters)
    } else {
        u32::MAX as nat
    }
}

/// A contribution is the ceiling of danger factor times power: the least
/// whole number of threat points that is not below the product. It is zero
/// only where the product is zero.
pub proof fn lemma_contribution_is_ceiling(monster: MonsterView)
    ensures
        THREAT_SCALE == DANGER_SCALE * POWER_SCALE,
        contribution(monster) * THREAT_SCALE >= raw_threat(monster),
        raw_threat(monster) > (contribution(monster) - 1) * THREAT_SCALE,
        contribution(monster) == 0 <==> raw_threat(monster) == 0,
{
    assert(DANGER_SCALE * POWER_SCALE == 20_000) by (nonlinear_arith)
        requires
            DANGER_SCALE == 20,
            POWER_SCALE == 1000,
    ;
}

/// What one monster adds to the threat level.
pub fn monster_contribution(monster: &Monster) -> (points: u64)
    ensures
        points == contribution(monster@),
{
    let factor: u64 = danger_value(&monster.danger_level) as u64;
    let power: u64 = monster.power_level as u64;
    assert(factor * power <= 0xFFFF_FFFF * 0xFFFF_FFFF) by (nonlinear_arith)
        requires
            factor <= 0xFFFF_FFFF,
            power <= 0xFFFF_FFFF,
    ;
    (factor * power + (THREAT_SCALE - 1)) / THREAT_SCALE
}

/// The threat level of a list of monsters: the sum of what each adds, held
/// at `u32::MAX` where the sum is larger. The empty list has threat 0.
pub fn calculate_threat_level(monsters: &[&Monster]) -> (threat: u32)
    ensures
        threat == threat_level_of(borrowed_monster_views(monsters@)),
{
    let ghost views = borrowed_monster_views(monsters@);
    let mut threat: u32 = 0;
    let mut i: usize = 0;
    assert(views.take(0) =~= Seq::<MonsterView>::empty());
    while i < monsters.len()
        invariant
            i <= monsters@.len(),
            views == borrowed_monster_views(monsters@),
            threat == threat_level_of(views.take(i as int)),
        decreases monsters@.len() - i,
    {
        let points = monster_contribution(monsters[i]);
        proof {
            let before = views.take(i as int);
            let after = views.take(i + 1);
            assert(after.drop_last() =~= before);
            assert(after.last() == monsters@[i as int]@);
        }
        if points > (u32::MAX - threat) as u64 {
            threat = u32::MAX;
        } else {
            threat = threat + points as u32;
        }
        i += 1;
    }
    assert(views.take(i as int) =~= views);
    threat
}

/// The least and the greatest number of monsters that a scan of a location
/// of the given tier looks for. A tier outside 1 to 4 looks for exactly one.
pub open spec fn monster_count_range(tier: u8) -> (nat, nat) {
    if tier == 1 {
        (1, 3)
    } else if tier == 2 {
        (2, 4)
    } else if tier == 3 {
        (3, 5)
    } else if tier == 4 {
        (4, 6)
    } else {
        (1, 1)
    }
}

/// Draws how many monsters a scan of a location of the given tier looks
/// for. A tier from 1 to 4 takes one draw; any other tier takes none.
pub fn draw_monster_count(tier: u8, rng: &mut StdRng) -> (count: u32)
    ensures
        monster_count_range(tier).0 <= count <= monster_count_range(tier).1,
        !(1 <= tier <= 4) ==> *final(rng) == *old(rng),
{
    if tier == 1 {
        random_in_range(rng, 1, 3)
    } else if tier == 2 {
        random_in_range(rng, 2, 4)
    } else if tier == 3 {
        random_in_range(rng, 3, 5)
    } else if tier == 4 {
        random_in_range(rng, 4, 6)
    } else {
        1
    }
}

/// Whether `order` lists each of the positions `0` to `len - 1` exactly once.
pub open spec fn is_shuffle(order: Seq<usize>, len: nat) -> bool {
    &&& order.len() == len
    &&& forall|i: int| 0 <= i < order.len() ==> (#[trigger] order[i]) < len
    &&& forall|i: int, j: int| 0 <= i < j < order.len() ==> order[i] != order[j]
}

/// The positions `0` to `len - 1` in rising order.
pub open spec fn rising(len: nat) -> Seq<usize> {
    Seq::new(len, |i: int| i as usize)
}

/// A sequence that holds the same values as the rising positions, each as
/// often, lists each position exactly once.
pub proof fn lemma_rearranged_is_shuffle(order: Seq<usize>, len: nat)
    requires
        len <= usize::MAX,
        order.to_multiset() == rising(len).to_multiset(),
    ensures
        is_shuffle(order, len),
{
    broadcast use vstd::seq_lib::group_to_multiset_ensures;

    let start = rising(len);
    assert(order.len() == len) by {
        assert(order.to_multiset().len() == order.len());
        assert(start.to_multiset().len() == start.len());
    }
    assert forall|i: int| 0 <= i < order.len() implies (#[trigger] order[i]) < len by {
        assert(order.to_multiset().count(order[i]) > 0);
        assert(start.contains(order[i]));
        let j = choose|j: int| 0 <= j < start.len() && start[j] == order[i];
        assert(start[j] == j);
    }
    assert(start.no_duplicates());
    start.lemma_multiset_has_no_duplicates();
    order.lemma_multiset_has_no_duplicates_conv();
}

/// The positions `0` to `len - 1` in an order drawn from `rng`.
pub fn shuffled_positions(len: usize, rng: &mut StdRng) -> (order: Vec<usize>)
    ensures
        is_shuffle(order@, len as nat),
{
    let mut order: Vec<usize> = Vec::new();
    let mut i: usize = 0;
    while i < len
        invariant
            i <= len,
            order@ == rising(i as nat),
        decreases len - i,
    {
        order.push(i);
        assert(order@ =~= rising((i + 1) as nat));
        i += 1;
    }
    shuffle_in_place(rng, &mut order);
    proof {
        lemma_rearranged_is_shuffle(order@, len as nat);
    }
    order
}

/// The monsters that a scan finds: the candidates at the first `count`
/// positions of `order`, or at all of them where there are fewer.
pub open spec fn selection(
    candidates: Seq<MonsterView>,
    order: Seq<usize>,
    count: nat,
) -> Seq<MonsterView> {
    Seq::new(
        if count <= order.len() {
            count
        } else {
            order.len()
        },
        |i: int| candidates[order[i] as int],
    )
}

/// Copies of the candidates at the first `count` positions of `order`, or at
/// all of them where there are fewer.
pub fn select_monsters(
    candidates: &Vec<&Monster>,
    order: &Vec<usize>,
    count: u32,
) -> (selected: Vec<Monster>)
    requires
        forall|i: int| 0 <= i < order@.len() ==> (#[trigger] order@[i]) < candidates@.len(),
    ensures
        monster_views(selected@) == selection(
            borrowed_monster_views(candidates@),
            order@,
            count as nat,
        ),
{
    let wanted: usize = if (count as usize) <= order.len() {
        count as usize
    } else {
        order.len()
    };
    let mut selected: Vec<Monster> = Vec::new();
    let mut i: usize = 0;
    while i < wanted
        invariant
            i <= wanted <= order@.len(),
            forall|j: int| 0 <= j < order@.len() ==> (#[trigger] order@[j]) < candidates@.len(),
            selected@.len() == i,
            forall|j: int| 0 <= j < i ==> (#[trigger] selected@[j])@ == candidates@[order@[j] as int]@,
        decreases wanted - i,
    {
        selected.push(candidates[order[i]].clone());
        i += 1;
    }
    assert(monster_views(selected@) =~= selection(
        borrowed_monster_views(candidates@),
        order@,
        count as nat,
    ));
    selected
}

/// Whether `scan` is a possible scan of `moon` against a bestiary, under the
/// given weather and scrap value: it holds the candidates at the first
/// positions of some shuffle, as many as some count in the range of the
/// location's tier asks for, and the threat level of those monsters.
pub open spec fn is_scan_of(
    bestiary: BestiaryView,
    moon: Seq<char>,
    weather: Seq<char>,
    scrap_value: nat,
    scan: ScanDataView,
) -> bool {
    let candidates = candidates_for(bestiary.monsters, moon);
    let range = monster_count_range(tier_of(moon));
    &&& scan.weather == weather
    &&& scan.scrap_value == scrap_value
    &&& scan.threat_level == threat_level_of(scan.monsters)
    &&& exists|count: nat, order: Seq<usize>|
        range.0 <= count <= range.1 && is_shuffle(order, candidates.len())
            && scan.monsters == #[trigger] selection(candidates, order, count)
}

/// The scan that follows from a count and an order already drawn.
pub fn assemble_scan_data(
    candidates: &Vec<&Monster>,
    order: &Vec<usize>,
    count: u32,
    weather: &str,
    scrap_value: u32,
) -> (scan: ScanData)
    requires
        forall|i: int| 0 <= i < order@.len() ==> (#[trigger] order@[i]) < candidates@.len(),
    ensures
        scan@.weather == weather@,
        scan@.scrap_value == scrap_value,
        scan@.monsters == selection(borrowed_monster_views(candidates@), order@, count as nat),
        scan@.threat_level == threat_level_of(scan@.monsters),
{
    let monsters = select_monsters(candidates, order, count);
    let threat_level = threat_of_owned(&monsters);
    ScanData { weather: weather.to_string(), threat_level, scrap_value, monsters }
}

/// The threat level of a list of monsters that the caller owns.
pub fn threat_of_owned(monsters: &Vec<Monster>) -> (threat: u32)
    ensures
        threat == threat_level_of(monster_views(monsters@)),
{
    let mut borrowed: Vec<&Monster> = Vec::new();
    let mut i: usize = 0;
    while i < monsters.len()
        invariant
            i <= monsters@.len(),
            borrowed@.len() == i,
            forall|j: int| 0 <= j < i ==> *(#[trigger] borrowed@[j]) == monsters@[j],
        decreases monsters@.len() - i,
    {
        borrowed.push(&monsters[i]);
        i += 1;
    }
    assert(borrowed_monster_views(borrowed@) =~= monster_views(monsters@));
    calculate_threat_level(borrowed.as_slice())
}

/// Scans `moon` under the given weather and scrap value.
///
/// The monsters of the bestiary that can be met on the location are the
/// candidates. A count is drawn from the range of the location's tier, the
/// candidates are shuffled, and the scan holds copies of the first `count`
/// of them, or of all where there are fewer, with their threat level. With
/// no candidate the scan holds no monster and has threat 0.
pub fn generate_scan_data(
    moon: &str,
    weather: &str,
    scrap_value: u32,
    bestiary: &Bestiary,
    rng: &mut StdRng,
) -> (scan: ScanData)
    ensures
        is_scan_of(bestiary@, moon@, weather@, scrap_value as nat, scan@),
{
    let candidates = monsters_for_moon(bestiary, moon);
    let tier = moon_tier(moon);
    let count = draw_monster_count(tier, rng);
    let order = shuffled_positions(candidates.len(), rng);
    let scan = assemble_scan_data(&candidates, &order, count, weather, scrap_value);
    proof {
        let found = candidates_for(bestiary@.monsters, moon@);
        assert(found.len() == candidates@.len());
        assert(scan@.monsters == selection(found, order@, count as nat));
    }
    scan
}

/// The threat level of a list of monsters is zero exactly where the list is
/// empty or every monster in it contributes nothing.
pub proof fn lemma_threat_zero(monsters: Seq<MonsterView>)
    ensures
        threat_level_of(monsters) == 0 <==> forall|i: int|
            0 <= i < monsters.len() ==> contribution(#[trigger] monsters[i]) == 0,
    decreases monsters.len(),
{
    if monsters.len() > 0 {
        let front = monsters.drop_last();
        lemma_threat_zero(front);
        if threat_level_of(monsters) == 0 {
            assert forall|i: int| 0 <= i < monsters.len() implies contribution(
                #[trigger] monsters[i],
            ) == 0 by {
                if i < front.len() {
                    assert(front[i] == monsters[i]);
                }
            }
        } else if threat_sum(front) != 0 {
            let i = choose|i: int| 0 <= i < front.len() && contribution(#[trigger] front[i]) != 0;
            assert(front[i] == monsters[i]);
        }
    }
}

/// The number of monsters in a scan never exceeds the number of candidates
/// nor the upper end of the range of the location's tier. It reaches the
/// lower end of the range where there are that many candidates, and is the
/// number of candidates where there are fewer.
pub proof fn lemma_scan_size(
    bestiary: BestiaryView,
    moon: Seq<char>,
    weather: Seq<char>,
    scrap_value: nat,
    scan: ScanDataView,
)
    requires
        is_scan_of(bestiary, moon, weather, scrap_value, scan),
    ensures
        1 <= tier_of(moon) <= 4,
        scan.monsters.len() <= candidates_for(bestiary.monsters, moon).len(),
        scan.monsters.len() <= monster_count_range(tier_of(moon)).1,
        candidates_for(bestiary.monsters, moon).len() >= monster_count_range(tier_of(moon)).0
            ==> scan.monsters.len() >= monster_count_range(tier_of(moon)).0,
        candidates_for(bestiary.monsters, moon).len() < monster_count_range(tier_of(moon)).0
            ==> scan.monsters.len() == candidates_for(bestiary.monsters, moon).len(),
{
    let candidates = candidates_for(bestiary.monsters, moon);
    let range = monster_count_range(tier_of(moon));
    let (count, order) = choose|count: nat, order: Seq<usize>|
        range.0 <= count <= range.1 && is_shuffle(order, candidates.len()) && scan.monsters
            == #[trigger] selection(candidates, order, count);
    assert(scan.monsters.len() == if count <= order.len() {
        count
    } else {
        order.len()
    });
}

/// Every monster of a scan is one of the candidates, and the scan takes no
/// position among the candidates twice.
pub proof fn lemma_scan_picks_candidates(
    bestiary: BestiaryView,
    moon: Seq<char>,
    weather: Seq<char>,
    scrap_value: nat,
    scan: ScanDataView,
)
    requires
        is_scan_of(bestiary, moon, weather, scrap_value, scan),
    ensures
        exists|positions: Seq<int>|
            {
                &&& positions.len() == scan.monsters.len()
                &&& positions.no_duplicates()
                &&& forall|i: int|
                    0 <= i < positions.len() ==> {
                        &&& 0 <= #[trigger] positions[i] < candidates_for(
                            bestiary.monsters,
                            moon,
                        ).len()
                        &&& scan.monsters[i] == candidates_for(
                            bestiary.monsters,
                            moon,
                        )[positions[i]]
                    }
            },
        forall|i: int|
            0 <= i < scan.monsters.len() ==> roams(#[trigger] scan.monsters[i], moon)
                && bestiary.monsters.contains(scan.monsters[i]),
{
    let candidates = candidates_for(bestiary.monsters, moon);
    let range = monster_count_range(tier_of(moon));
    let (count, order) = choose|count: nat, order: Seq<usize>|
        range.0 <= count <= range.1 && is_shuffle(order, candidates.len()) && scan.monsters
            == #[trigger] selection(candidates, order, count);
    let positions = Seq::new(scan.monsters.len(), |i: int| order[i] as int);
    assert(positions.len() == scan.monsters.len());
    assert(positions.no_duplicates()) by {
        assert forall|i: int, j: int|
            0 <= i < positions.len() && 0 <= j < positions.len() && i != j implies positions[i]
            != positions[j] by {
            if i < j {
                assert(order[i] != order[j]);
            } else {
                assert(order[j] != order[i]);
            }
        }
    }
    assert forall|i: int| 0 <= i < positions.len() implies {
        &&& 0 <= #[trigger] positions[i] < candidates.len()
        &&& scan.monsters[i] == candidates[positions[i]]
    } by {
        assert(order[i] < candidates.len());
    }
    let wanted = |monster: MonsterView| roams(monster, moon);
    assert forall|i: int| 0 <= i < scan.monsters.len() implies roams(
        #[trigger] scan.monsters[i],
        moon,
    ) && bestiary.monsters.contains(scan.monsters[i]) by {
        let at = positions[i];
        assert(scan.monsters[i] == candidates[at]);
        bestiary.monsters.lemma_filter_pred(wanted, at);
        assert(candidates.contains(candidates[at]));
        bestiary.monsters.lemma_filter_contains_rev(wanted, candidates[at]);
    }
}

/// Whether the rating of a monster lies on the danger scale, from 0 to
/// `DANGER_MAX`. An unrated monster counts as on the scale.
pub open spec fn is_rated_on_scale(monster: MonsterView) -> bool {
    match monster.danger_level {
        Some(rating) => rating <= DANGER_MAX,
        None => true,
    }
}

/// The most that a monster rated on the scale can add to the threat level.
pub open spec fn max_contribution() -> nat {
    21_474_837
}

/// A monster rated on the scale adds at most `max_contribution()`, and a
/// list of such monsters adds at most that for each of them.
pub proof fn lemma_threat_sum_bound(monsters: Seq<MonsterView>)
    requires
        forall|i: int| 0 <= i < monsters.len() ==> is_rated_on_scale(#[trigger] monsters[i]),
        forall|i: int| 0 <= i < monsters.len() ==> (#[trigger] monsters[i]).power_level <= u32::MAX,
    ensures
        threat_sum(monsters) <= monsters.len() * max_contribution(),
    decreases monsters.len(),
{
    if monsters.len() > 0 {
        let front = monsters.drop_last();
        let last = monsters.last();
        assert forall|i: int| 0 <= i < front.len() implies is_rated_on_scale(#[trigger] front[i])
            && front[i].power_level <= u32::MAX by {
            assert(front[i] == monsters[i]);
        }
        lemma_threat_sum_bound(front);
        assert(is_rated_on_scale(monsters[monsters.len() - 1]));
        assert(monsters[monsters.len() - 1].power_level <= u32::MAX);
        assert(raw_threat(last) <= 100 * 0xFFFF_FFFF) by (nonlinear_arith)
            requires
                raw_threat(last) == danger_factor(last.danger_level) * last.power_level,
                danger_factor(last.danger_level) <= 100,
                last.power_level <= 0xFFFF_FFFF,
        ;
        assert(contribution(last) <= max_contribution());
        assert(monsters.len() * max_contribution() == front.len() * max_contribution()
            + max_contribution()) by (nonlinear_arith)
            requires
                monsters.len() == front.len() + 1,
        ;
    }
}

/// Where every monster of the bestiary is rated on the scale, the threat
/// level of a scan is the plain sum of what its monsters add: the sum stays
/// below `u32::MAX`.
pub proof fn lemma_scan_threat_is_sum(
    bestiary: BestiaryView,
    moon: Seq<char>,
    weather: Seq<char>,
    scrap_value: nat,
    scan: ScanDataView,
)
    requires
        is_scan_of(bestiary, moon, weather, scrap_value, scan),
        forall|i: int|
            0 <= i < bestiary.monsters.len() ==> is_rated_on_scale(#[trigger] bestiary.monsters[i])
                && bestiary.monsters[i].power_level <= u32::MAX,
    ensures
        scan.threat_level == threat_sum(scan.monsters),
{
    lemma_scan_size(bestiary, moon, weather, scrap_value, scan);
    lemma_scan_picks_candidates(bestiary, moon, weather, scrap_value, scan);
    assert forall|i: int| 0 <= i < scan.monsters.len() implies is_rated_on_scale(
        #[trigger] scan.monsters[i],
    ) && scan.monsters[i].power_level <= u32::MAX by {
        assert(bestiary.monsters.contains(scan.monsters[i]));
        let at = choose|at: int|
            0 <= at < bestiary.monsters.len() && bestiary.monsters[at] == scan.monsters[i];
        assert(is_rated_on_scale(bestiary.monsters[at]));
    }
    lemma_threat_sum_bound(scan.monsters);
    assert(scan.monsters.len() * max_contribution() <= 6 * max_contribution())
        by (nonlinear_arith)
        requires
            scan.monsters.len() <= 6,
    ;
}

} // verus!
