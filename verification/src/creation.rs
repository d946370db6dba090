//! Authoritative new-player option catalog and validation.
//!
//! Starter offer IDs and ship IDs are the stable identifiers of the starting
//! offer catalog. Ship prose and crew establishments are read from the
//! admitted catalog records; no product identity or source PDF is consulted
//! at runtime.

use vstd::prelude::*;
use vstd::multiset::Multiset;
use std::collections::HashSet;
use vstd::string::StrSliceExecFns;
pub use crate::ship_catalog::{ship_catalog_revision, ship_combat_spec, ship_electronics_dm};
pub use crate::starting_offers::{
    offer_catalog_revision, offer_summaries, ship_options, starting_offer_terms, starting_offers,
    validate_refit_options, ShipRecord,
    StarterCatalog, StartingOffer,
};
pub use crate::ship_status::{
    ship_market_catalog, ship_runtime_components, ship_status_spec, RuntimeComponent, RuntimeShip,
};
use crate::catalog_text::{
    back_char, back_white, char_test, chars_of, back_while, find_char, integer_in, line_end,
    lemma_next_char_bounds, parse_integer, range_equals, skip_char, skip_while, skip_white, text_in,
    trim_end, trim_start,
};
use crate::text::{
    decimal, decimal_spec, is_white, signed_decimal, signed_decimal_spec, text_equals, white,
};
use crate::wire::{
    CaptainCreationOptions, CharacteristicPointBuy, Characteristics, CrewCreation, PersonDraft,
    PlayerCreation, StartingCrewSlot, StartingCrewPlan, ShipSubsystemKind, SkillId, SkillPool,
    SkillRating, SkillTraining, skill_index, skill_name, lemma_skill_index,
};

verus! {

pub const SETUP_REVISION: u64 = 1;

#[derive(Clone, Debug, PartialEq, Eq)]
pub struct ShipSubsystemTemplate {
    pub kind: ShipSubsystemKind,
    pub label: String,
    pub maximum_hits: u16,
    pub component_kind: String,
    pub component_id: String,
    pub displacement_millitons: u64,
    pub replacement_price_credits: u64,
}

#[derive(Clone, Debug, PartialEq, Eq)]
pub struct ShipRuntimeComponent {
    pub kind: String,
    pub component_id: String,
    pub quantity: u32,
    pub displacement_millitons: u64,
    pub price_credits: u64,
    pub pack_units: u32,
}

#[derive(Clone, Debug, PartialEq, Eq)]
pub struct ShipWeaponMountSpec {
    pub mount_id: String,
    pub weapons: Vec<String>,
    pub quantity: u16,
}

#[derive(Clone, Debug, PartialEq, Eq)]
pub struct ShipAmmunitionSpec {
    pub ammunition_id: String,
    pub quantity: u32,
}

#[derive(Clone, Debug, PartialEq, Eq)]
pub struct ShipCombatSpec {
    pub armor_points: u16,
    pub weapons: Vec<ShipWeaponMountSpec>,
    pub ammunition: Vec<ShipAmmunitionSpec>,
    pub screens: Vec<String>,
}

#[derive(Clone, Debug, PartialEq, Eq)]
pub struct ShipStatusSpec {
    pub tech_level: u8,
    pub construction_price_credits: u64,
    pub displacement_millitons: u64,
    pub jump_rating: u8,
    pub thrust_g: u8,
    pub fuel_capacity_millitons: u64,
    pub jump_fuel_millitons: u64,
    pub cargo_capacity_millitons: u64,
    pub passenger_berths: u16,
    pub low_berths: u16,
    pub monthly_life_support_credits: u64,
    pub life_support_capacity_persons: u16,
    pub has_fuel_scoop: bool,
    pub fuel_processing_millitons_per_day: u64,
    pub subsystems: Vec<ShipSubsystemTemplate>,
}

#[derive(Clone, Debug, PartialEq, Eq)]
pub struct ShipMarketCatalogEntry {
    pub catalog_id: u32,
    pub class_name: String,
    pub price_credits: u64,
    pub cargo_capacity_millitons: u64,
    pub displacement_millitons: u64,
    pub jump_rating: u8,
    pub minimum_crew: u16,
    pub tech_level: u8,
}

/// The BBS polity path of a new player: trade-or-combat emphasis in thirds,
/// then chaos-or-order stance in thirds, numbered one to nine.
pub open spec fn home_path_spec(trade_combat: u8, chaos_order: u8) -> u8 {
    let emphasis: int = if trade_combat < 34 {
        0
    } else if trade_combat < 67 {
        1
    } else {
        2
    };
    let order: int = if chaos_order >= 67 {
        0
    } else if chaos_order >= 34 {
        1
    } else {
        2
    };
    (emphasis * 3 + order + 1) as u8
}

pub fn home_path(trade_combat: u8, chaos_order: u8) -> (r: u8)
    ensures
        r == home_path_spec(trade_combat, chaos_order),
        1 <= r <= 9,
{
    let emphasis: u8 = if trade_combat < 34 {
        0
    } else if trade_combat < 67 {
        1
    } else {
        2
    };
    let order: u8 = if chaos_order >= 67 {
        0
    } else if chaos_order >= 34 {
        1
    } else {
        2
    };
    emphasis * 3 + order + 1
}

pub open spec fn captain_point_buy_spec() -> CharacteristicPointBuy {
    CharacteristicPointBuy { minimum: 2, maximum: 12, neutral: 7, budget: 12 }
}

/// The captain's characteristic point buy: scores from 2 to 12 around a
/// neutral 7, spending exactly 12 points.
pub fn captain_characteristic_point_buy() -> (r: CharacteristicPointBuy)
    ensures
        r == captain_point_buy_spec(),
{
    CharacteristicPointBuy { minimum: 2, maximum: 12, neutral: 7, budget: 12 }
}

pub open spec fn captain_pool_spec() -> SkillPool {
    SkillPool { level3: 0, level2: 3, level1: 6, level0: 3 }
}

/// The captain's skill slots: three at level 2, six at 1, three at 0.
pub fn captain_skill_pool() -> (r: SkillPool)
    ensures
        r == captain_pool_spec(),
{
    SkillPool { level3: 0, level2: 3, level1: 6, level0: 3 }
}

pub open spec fn crew_pool_spec() -> SkillPool {
    SkillPool { level3: 0, level2: 2, level1: 4, level0: 3 }
}

/// A crew member's skill slots: two at level 2, four at 1, three at 0.
pub fn crew_skill_pool() -> (r: SkillPool)
    ensures
        r == crew_pool_spec(),
{
    SkillPool { level3: 0, level2: 2, level1: 4, level0: 3 }
}

pub const CREW_CHARACTERISTIC_ARRAY: [u8; 6] = [10, 9, 8, 8, 7, 6];

// ---------------------------------------------------------------------------
// Training.

/// A skill level as it counts toward the skill total: negative levels count
/// as nothing.
pub open spec fn counted_level(level: i8) -> int {
    if level < 0 {
        0
    } else {
        level as int
    }
}

/// The CE skill total: the sum of the skill levels.
pub open spec fn skill_total(skills: Seq<SkillRating>) -> int
    decreases skills.len(),
{
    if skills.len() == 0 {
        0
    } else {
        skill_total(skills.drop_last()) + counted_level(skills.last().level)
    }
}

pub open spec fn has_rating(skills: Seq<SkillRating>, skill: SkillId) -> bool {
    exists|i: int| 0 <= i < skills.len() && (#[trigger] skills[i]).skill == skill
}

pub open spec fn is_first_rating(skills: Seq<SkillRating>, skill: SkillId, i: int) -> bool {
    &&& 0 <= i < skills.len()
    &&& skills[i].skill == skill
    &&& forall|j: int| 0 <= j < i ==> (#[trigger] skills[j]).skill != skill
}

/// The level of the first rating of the skill.
pub open spec fn rated_level(skills: Seq<SkillRating>, skill: SkillId) -> i8 {
    skills[choose|i: int| is_first_rating(skills, skill, i)].level
}

/// Weeks to train a skill one level up: the skill total plus the level to
/// reach.  Jack of All Trades cannot be trained, nor a skill the person
/// lacks or holds at a negative level.
pub open spec fn training_weeks_spec(skills: Seq<SkillRating>, skill: SkillId) -> Option<u16> {
    if skill == SkillId::JackOfAllTrades || !has_rating(skills, skill) {
        None
    } else {
        let level = rated_level(skills, skill);
        if level < 0 || skill_total(skills) + level + 1 > u16::MAX {
            None
        } else {
            Some((skill_total(skills) + level + 1) as u16)
        }
    }
}

proof fn lemma_first_rating(skills: Seq<SkillRating>, skill: SkillId, i: int)
    requires
        is_first_rating(skills, skill, i),
    ensures
        rated_level(skills, skill) == skills[i].level,
        has_rating(skills, skill),
{
    let c = choose|c: int| is_first_rating(skills, skill, c);
    assert(is_first_rating(skills, skill, c));
    if c < i {
        assert(skills[c].skill != skill);
    } else if c > i {
        assert(skills[i].skill != skill);
    }
}

pub fn required_training_weeks(skills: &[SkillRating], skill: SkillId) -> (r: Option<u16>)
    requires
        skill_total(skills@) <= u16::MAX,
    ensures
        r == training_weeks_spec(skills@, skill),
{
    if skill == SkillId::JackOfAllTrades {
        return None;
    }
    let mut index: usize = 0;
    while index < skills.len() && skills[index].skill != skill
        invariant
            index <= skills@.len(),
            forall|j: int| 0 <= j < index ==> (#[trigger] skills@[j]).skill != skill,
        decreases skills@.len() - index,
    {
        index = index + 1;
    }
    if index == skills.len() {
        return None;
    }
    proof {
        lemma_first_rating(skills@, skill, index as int);
    }
    let current_level = skills[index].level;
    if current_level < 0 {
        return None;
    }
    let mut total: u16 = 0;
    let mut k: usize = 0;
    while k < skills.len()
        invariant
            k <= skills@.len(),
            total == skill_total(skills@.take(k as int)),
            skill_total(skills@) <= u16::MAX,
        decreases skills@.len() - k,
    {
        proof {
            assert(skills@.take(k + 1).drop_last() =~= skills@.take(k as int));
            lemma_total_prefix(skills@, k + 1);
        }
        if skills[k].level > 0 {
            total = total + skills[k].level as u16;
        }
        k = k + 1;
    }
    proof {
        assert(skills@.take(skills@.len() as int) =~= skills@);
    }
    total.checked_add(current_level as u16 + 1)
}

/// A prefix's total is at most the whole total.
proof fn lemma_total_prefix(skills: Seq<SkillRating>, n: int)
    requires
        0 <= n <= skills.len(),
    ensures
        0 <= skill_total(skills.take(n)) <= skill_total(skills),
    decreases skills.len(),
{
    if n == skills.len() {
        assert(skills.take(n) =~= skills);
        lemma_total_nonnegative(skills);
    } else {
        lemma_total_prefix(skills.drop_last(), n);
        assert(skills.drop_last().take(n) =~= skills.take(n));
    }
}

proof fn lemma_total_nonnegative(skills: Seq<SkillRating>)
    ensures
        skill_total(skills) >= 0,
    decreases skills.len(),
{
    if skills.len() > 0 {
        lemma_total_nonnegative(skills.drop_last());
    }
}

pub fn initial_training(skills: &[SkillRating], skill: SkillId) -> (r: Option<SkillTraining>)
    requires
        skill_total(skills@) <= u16::MAX,
    ensures
        r == match training_weeks_spec(skills@, skill) {
            Some(weeks) => Some(SkillTraining { skill, needed_weeks: weeks, current_weeks: 0 }),
            None => None,
        },
{
    match required_training_weeks(skills, skill) {
        Some(needed_weeks) => Some(SkillTraining { skill, needed_weeks, current_weeks: 0 }),
        None => None,
    }
}

// ---------------------------------------------------------------------------
// The captain.

pub open spec fn captain_skills() -> Seq<SkillRating> {
    seq![
        SkillRating { skill: SkillId::Leadership, level: 2 },
        SkillRating { skill: SkillId::PilotSpacecraft, level: 2 },
        SkillRating { skill: SkillId::JackOfAllTrades, level: 2 },
        SkillRating { skill: SkillId::Astrogation, level: 1 },
        SkillRating { skill: SkillId::EngineerJump, level: 1 },
        SkillRating { skill: SkillId::EngineerManeuver, level: 1 },
        SkillRating { skill: SkillId::Admin, level: 1 },
        SkillRating { skill: SkillId::Persuade, level: 1 },
        SkillRating { skill: SkillId::Broker, level: 1 },
        SkillRating { skill: SkillId::VaccSuit, level: 0 },
        SkillRating { skill: SkillId::Mechanic, level: 0 },
        SkillRating { skill: SkillId::GunnerTurrets, level: 0 },
    ]
}

fn rating(skill: SkillId, level: i8) -> (r: SkillRating)
    ensures
        r == (SkillRating { skill, level }),
{
    SkillRating { skill, level }
}

/// The captain's creation options: the point buy, the skill pool, and a
/// default captain of nines with the standard skill package, training
/// Leadership.
pub fn captain_options() -> (r: CaptainCreationOptions)
    ensures
        r.setup_revision == SETUP_REVISION,
        r.characteristic_point_buy == captain_point_buy_spec(),
        r.skill_pool == captain_pool_spec(),
        r.default_captain.name@ == "Captain"@,
        r.default_captain.characteristics == (Characteristics {
            strength: 9,
            dexterity: 9,
            endurance: 9,
            intelligence: 9,
            education: 9,
            charisma: 9,
        }),
        r.default_captain.skills@ == captain_skills(),
        r.default_captain.training == (SkillTraining {
            skill: SkillId::Leadership,
            needed_weeks: 15,
            current_weeks: 0,
        }),
{
    let skills = vec![
        rating(SkillId::Leadership, 2),
        rating(SkillId::PilotSpacecraft, 2),
        rating(SkillId::JackOfAllTrades, 2),
        rating(SkillId::Astrogation, 1),
        rating(SkillId::EngineerJump, 1),
        rating(SkillId::EngineerManeuver, 1),
        rating(SkillId::Admin, 1),
        rating(SkillId::Persuade, 1),
        rating(SkillId::Broker, 1),
        rating(SkillId::VaccSuit, 0),
        rating(SkillId::Mechanic, 0),
        rating(SkillId::GunnerTurrets, 0),
    ];
    assert(skills@ =~= captain_skills());
    proof {
        reveal_with_fuel(skill_total, 13);
        lemma_first_rating(skills@, SkillId::Leadership, 0);
    }
    let training = initial_training(skills.as_slice(), SkillId::Leadership).unwrap();
    CaptainCreationOptions {
        setup_revision: SETUP_REVISION,
        characteristic_point_buy: captain_characteristic_point_buy(),
        skill_pool: captain_skill_pool(),
        default_captain: PersonDraft {
            name: String::from_str("Captain"),
            characteristics: Characteristics {
                strength: 9,
                dexterity: 9,
                endurance: 9,
                intelligence: 9,
                education: 9,
                charisma: 9,
            },
            training,
            skills,
        },
    }
}

// ---------------------------------------------------------------------------
// Validation of a person.

/// Nothing but white space.
pub open spec fn blank(s: Seq<char>) -> bool {
    forall|i: int| 0 <= i < s.len() ==> is_white(#[trigger] s[i])
}

fn labelled(label: &str, text: &str) -> (r: String)
    ensures
        r@ == label@ + text@,
{
    String::from_str(label).concat(text)
}

/// A name must hold something other than white space and at most 128 bytes.
pub fn validate_name(name: &str, label: &str) -> (r: Result<(), String>)
    ensures
        match r {
            Ok(()) => !blank(name@) && vstd::utf8::encode_utf8(name@).len() <= 128,
            Err(e) => (blank(name@) || vstd::utf8::encode_utf8(name@).len() > 128) && e@ == label@
                + " name must contain 1..=128 bytes"@,
        },
{
    let n = name.unicode_len();
    let mut i: usize = 0;
    while i < n && white(name.get_char(i))
        invariant
            i <= n,
            n == name@.len(),
            forall|j: int| 0 <= j < i ==> is_white(#[trigger] name@[j]),
        decreases n - i,
    {
        i = i + 1;
    }
    if i == n || name.as_bytes().len() > 128 {
        return Err(labelled(label, " name must contain 1..=128 bytes"));
    }
    Ok(())
}

/// The rating repeats a skill rated earlier.
pub open spec fn repeated_before(skills: Seq<SkillRating>, i: int) -> bool {
    exists|j: int| 0 <= j < i && (#[trigger] skills[j]).skill == skills[i].skill
}

/// A rating that the skill pool cannot accept: a repeated skill, a level
/// outside 0 to 3, or Jack of All Trades outside levels 1 and 2.
pub open spec fn rating_fault(skills: Seq<SkillRating>, i: int) -> bool {
    repeated_before(skills, i) || skills[i].level < 0 || skills[i].level > 3 || (skills[i].skill
        == SkillId::JackOfAllTrades && !(1 <= skills[i].level <= 2))
}

pub open spec fn has_fault(skills: Seq<SkillRating>) -> bool {
    exists|i: int| 0 <= i < skills.len() && #[trigger] rating_fault(skills, i)
}

pub open spec fn first_fault(skills: Seq<SkillRating>) -> int {
    choose|i: int|
        0 <= i < skills.len() && rating_fault(skills, i) && forall|j: int|
            0 <= j < i ==> !#[trigger] rating_fault(skills, j)
}

pub open spec fn fault_message(skills: Seq<SkillRating>, i: int, label: Seq<char>) -> Seq<char> {
    if repeated_before(skills, i) {
        label + " selects "@ + skill_name(skills[i].skill) + " more than once"@
    } else if skills[i].level < 0 || skills[i].level > 3 {
        label + " has an invalid skill level"@
    } else {
        label + " may select Jack of All Trades only at level 1 or 2"@
    }
}

/// Number of ratings at a level.
pub open spec fn level_count(skills: Seq<SkillRating>, level: int) -> int
    decreases skills.len(),
{
    if skills.len() == 0 {
        0
    } else {
        level_count(skills.drop_last(), level) + if skills.last().level == level {
            1int
        } else {
            0int
        }
    }
}

/// What is wrong with a person's skills for the pool, if anything: the
/// first faulty rating, or else slots left unused or overdrawn.
pub open spec fn skills_problem(skills: Seq<SkillRating>, pool: SkillPool, label: Seq<char>) -> Option<
    Seq<char>,
> {
    if has_fault(skills) {
        Some(fault_message(skills, first_fault(skills), label))
    } else if level_count(skills, 0) != pool.level0 || level_count(skills, 1) != pool.level1
        || level_count(skills, 2) != pool.level2 || level_count(skills, 3) != pool.level3 {
        Some(label + " skills do not consume the offered rating slots"@)
    } else {
        None
    }
}

proof fn lemma_first_fault(skills: Seq<SkillRating>, i: int)
    requires
        0 <= i < skills.len(),
        rating_fault(skills, i),
        forall|j: int| 0 <= j < i ==> !#[trigger] rating_fault(skills, j),
    ensures
        first_fault(skills) == i,
        has_fault(skills),
{
    let c = first_fault(skills);
    assert(0 <= i < skills.len() && rating_fault(skills, i) && forall|j: int|
        0 <= j < i ==> !#[trigger] rating_fault(skills, j));
    if c < i {
        assert(!rating_fault(skills, c));
    } else if c > i {
        assert(!rating_fault(skills, i));
    }
}

/// Skills without faults are at most one per skill, so at most 31.
proof fn lemma_faultless_total(skills: Seq<SkillRating>)
    requires
        !has_fault(skills),
    ensures
        skills.len() <= 31,
        skill_total(skills) <= 93,
{
    let indices = Seq::new(skills.len(), |i: int| skill_index(skills[i].skill));
    assert forall|a: int, b: int| 0 <= a < b < indices.len() implies indices[a] != indices[b] by {
        assert(!rating_fault(skills, b));
        if indices[a] == indices[b] {
            lemma_skill_index(skills[a].skill, skills[b].skill);
            assert(skills[a].skill == skills[b].skill);
        }
    }
    assert(indices.no_duplicates());
    indices.unique_seq_to_set();
    vstd::set_lib::lemma_int_range(0, 31);
    assert forall|x: int| indices.to_set().contains(x) implies vstd::set_lib::set_int_range(0, 31).contains(x) by {
        let i = choose|i: int| 0 <= i < indices.len() && indices[i] == x;
        lemma_skill_index(skills[i].skill, skills[i].skill);
    }
    vstd::set_lib::lemma_len_subset(indices.to_set(), vstd::set_lib::set_int_range(0, 31));
    assert forall|i: int| 0 <= i < skills.len() implies 0 <= #[trigger] skills[i].level <= 3 by {
        assert(!rating_fault(skills, i));
    }
    lemma_faultless_levels(skills);
}

proof fn lemma_faultless_levels(skills: Seq<SkillRating>)
    requires
        forall|i: int| 0 <= i < skills.len() ==> 0 <= #[trigger] skills[i].level <= 3,
    ensures
        skill_total(skills) <= 3 * skills.len(),
    decreases skills.len(),
{
    if skills.len() > 0 {
        lemma_faultless_levels(skills.drop_last());
    }
}

pub fn validate_skills(person: &PersonDraft, pool: SkillPool, label: &str) -> (r: Result<(), String>)
    ensures
        match skills_problem(person.skills@, pool, label@) {
            Some(message) => r matches Err(e) && e@ == message,
            None => r is Ok,
        },
{
    let skills = &person.skills;
    let mut counts: [usize; 4] = [0, 0, 0, 0];
    let mut i: usize = 0;
    while i < skills.len()
        invariant
            i <= skills@.len(),
            skills@ == person.skills@,
            forall|j: int| 0 <= j < i ==> !#[trigger] rating_fault(skills@, j),
            counts@[0] == level_count(skills@.take(i as int), 0),
            counts@[1] == level_count(skills@.take(i as int), 1),
            counts@[2] == level_count(skills@.take(i as int), 2),
            counts@[3] == level_count(skills@.take(i as int), 3),
            counts@.len() == 4,
            counts@[0] <= i && counts@[1] <= i && counts@[2] <= i && counts@[3] <= i,
        decreases skills@.len() - i,
    {
        let rating = skills[i];
        let mut j: usize = 0;
        while j < i && skills[j].skill != rating.skill
            invariant
                j <= i < skills@.len(),
                rating == skills@[i as int],
                forall|q: int| 0 <= q < j ==> (#[trigger] skills@[q]).skill != rating.skill,
            decreases i - j,
        {
            j = j + 1;
        }
        if j < i {
            proof {
                assert(repeated_before(skills@, i as int));
                lemma_first_fault(skills@, i as int);
            }
            let start = labelled(label, " selects ");
            let message = start.concat(rating.skill.name()).concat(" more than once");
            assert(message@ =~= fault_message(skills@, i as int, label@));
            return Err(message);
        }
        assert(!repeated_before(skills@, i as int));
        if rating.level < 0 || rating.level > 3 {
            proof {
                lemma_first_fault(skills@, i as int);
            }
            return Err(labelled(label, " has an invalid skill level"));
        }
        if rating.skill == SkillId::JackOfAllTrades && !(1 <= rating.level && rating.level <= 2) {
            proof {
                lemma_first_fault(skills@, i as int);
            }
            return Err(labelled(label, " may select Jack of All Trades only at level 1 or 2"));
        }
        let index = rating.level as usize;
        counts[index] = counts[index] + 1;
        proof {
            assert(skills@.take(i + 1).drop_last() =~= skills@.take(i as int));
        }
        i = i + 1;
    }
    proof {
        assert(skills@.take(skills@.len() as int) =~= skills@);
        assert(!has_fault(skills@));
    }
    if counts[0] != pool.level0 as usize || counts[1] != pool.level1 as usize || counts[2]
        != pool.level2 as usize || counts[3] != pool.level3 as usize {
        return Err(labelled(label, " skills do not consume the offered rating slots"));
    }
    Ok(())
}

/// What is wrong with the training a person starts with, if anything.
pub open spec fn training_problem(person: PersonDraft, label: Seq<char>) -> Option<Seq<char>> {
    match training_weeks_spec(person.skills@, person.training.skill) {
        None => Some(
            label + " training target must be an existing skill other than Jack of All Trades"@,
        ),
        Some(weeks) => if person.training.needed_weeks != weeks {
            Some(
                label + " training requires "@ + decimal_spec(weeks as nat) + " weeks, not "@
                    + decimal_spec(person.training.needed_weeks as nat),
            )
        } else if person.training.current_weeks != 0 {
            Some(label + " must begin with zero completed training weeks"@)
        } else {
            None
        },
    }
}

pub fn validate_initial_training(person: &PersonDraft, label: &str) -> (r: Result<(), String>)
    requires
        skill_total(person.skills@) <= u16::MAX,
    ensures
        match training_problem(*person, label@) {
            Some(message) => r matches Err(e) && e@ == message,
            None => r is Ok,
        },
{
    let expected = match required_training_weeks(person.skills.as_slice(), person.training.skill) {
        Some(weeks) => weeks,
        None => {
            return Err(
                labelled(
                    label,
                    " training target must be an existing skill other than Jack of All Trades",
                ),
            );
        },
    };
    if person.training.needed_weeks != expected {
        let first = labelled(label, " training requires ");
        let weeks = decimal(expected as u64);
        let middle = first.concat(weeks.as_str()).concat(" weeks, not ");
        let needed = decimal(person.training.needed_weeks as u64);
        let message = middle.concat(needed.as_str());
        assert(message@ =~= label@ + " training requires "@ + decimal_spec(expected as nat)
            + " weeks, not "@ + decimal_spec(person.training.needed_weeks as nat));
        return Err(message);
    }
    if person.training.current_weeks != 0 {
        return Err(labelled(label, " must begin with zero completed training weeks"));
    }
    Ok(())
}

/// Bytes of a name's UTF-8 encoding.
pub open spec fn name_bytes(name: String) -> int {
    vstd::utf8::encode_utf8(name@).len() as int
}

pub open spec fn characteristic_scores(c: Characteristics) -> Seq<u8> {
    seq![c.strength, c.dexterity, c.endurance, c.intelligence, c.education, c.charisma]
}

/// Points spent on the characteristics: each score less the neutral score.
pub open spec fn point_cost(c: Characteristics, neutral: u8) -> int {
    (c.strength - neutral) + (c.dexterity - neutral) + (c.endurance - neutral) + (c.intelligence
        - neutral) + (c.education - neutral) + (c.charisma - neutral)
}

/// What is wrong with a person for the point buy and skill pool, if
/// anything, checked in order: the name, the range of the scores, the
/// points spent, the skills, then the training.
pub open spec fn person_problem(
    person: PersonDraft,
    point_buy: CharacteristicPointBuy,
    pool: SkillPool,
    label: Seq<char>,
) -> Option<Seq<char>> {
    let scores = characteristic_scores(person.characteristics);
    if blank(person.name@) || name_bytes(person.name) > 128 {
        Some(label + " name must contain 1..=128 bytes"@)
    } else if exists|i: int|
        0 <= i < 6 && (#[trigger] scores[i] < point_buy.minimum || scores[i] > point_buy.maximum) {
        Some(
            label + " characteristics must be between "@ + decimal_spec(point_buy.minimum as nat)
                + " and "@ + decimal_spec(point_buy.maximum as nat),
        )
    } else if point_cost(person.characteristics, point_buy.neutral) != point_buy.budget {
        Some(
            label + " characteristics spend "@ + signed_decimal_spec(
                point_cost(person.characteristics, point_buy.neutral),
            ) + " points; exactly "@ + signed_decimal_spec(point_buy.budget as int)
                + " are required"@,
        )
    } else {
        match skills_problem(person.skills@, pool, label) {
            Some(message) => Some(message),
            None => training_problem(person, label),
        }
    }
}

pub fn validate_person(
    person: &PersonDraft,
    point_buy: CharacteristicPointBuy,
    pool: SkillPool,
    label: &str,
) -> (r: Result<(), String>)
    ensures
        match person_problem(*person, point_buy, pool, label@) {
            Some(message) => r matches Err(e) && e@ == message,
            None => r is Ok,
        },
{
    match validate_name(person.name.as_str(), label) {
        Ok(()) => {},
        Err(e) => {
            return Err(e);
        },
    }
    let scores = person.characteristics.values();
    let mut k: usize = 0;
    while k < 6
        invariant
            k <= 6,
            !blank(person.name@),
            name_bytes(person.name) <= 128,
            scores@ == characteristic_scores(person.characteristics),
            forall|i: int|
                0 <= i < k ==> !(#[trigger] scores@[i] < point_buy.minimum || scores@[i]
                    > point_buy.maximum),
        decreases 6 - k,
    {
        if scores[k] < point_buy.minimum || scores[k] > point_buy.maximum {
            let first = labelled(label, " characteristics must be between ");
            let low = decimal(point_buy.minimum as u64);
            let middle = first.concat(low.as_str()).concat(" and ");
            let high = decimal(point_buy.maximum as u64);
            let message = middle.concat(high.as_str());
            assert(message@ =~= label@ + " characteristics must be between "@ + decimal_spec(
                point_buy.minimum as nat,
            ) + " and "@ + decimal_spec(point_buy.maximum as nat));
            assert(scores@[k as int] < point_buy.minimum || scores@[k as int] > point_buy.maximum);
            return Err(message);
        }
        k = k + 1;
    }
    assert(!exists|i: int|
        0 <= i < 6 && (#[trigger] scores@[i] < point_buy.minimum || scores@[i]
            > point_buy.maximum));
    let neutral = point_buy.neutral as i16;
    let c = person.characteristics;
    let cost: i16 = (c.strength as i16 - neutral) + (c.dexterity as i16 - neutral) + (
    c.endurance as i16 - neutral) + (c.intelligence as i16 - neutral) + (c.education as i16
        - neutral) + (c.charisma as i16 - neutral);
    if cost != point_buy.budget {
        let first = labelled(label, " characteristics spend ");
        let spent = signed_decimal(cost as i64);
        let middle = first.concat(spent.as_str()).concat(" points; exactly ");
        let budget = signed_decimal(point_buy.budget as i64);
        let message = middle.concat(budget.as_str()).concat(" are required");
        assert(message@ =~= label@ + " characteristics spend "@ + signed_decimal_spec(cost as int)
            + " points; exactly "@ + signed_decimal_spec(point_buy.budget as int)
            + " are required"@);
        return Err(message);
    }
    match validate_skills(person, pool, label) {
        Ok(()) => {},
        Err(e) => {
            return Err(e);
        },
    }
    proof {
        lemma_faultless_total(person.skills@);
    }
    validate_initial_training(person, label)
}


// ---------------------------------------------------------------------------
// Standard crew templates.

/// The standard template that a crew role draws its default member from.
#[derive(Clone, Copy, Debug, PartialEq, Eq, Structural)]
pub enum CrewTemplate {
    Command,
    Pilot,
    Navigator,
    Engineer,
    SensorsOperator,
    ScreenOperator,
    TurretGunner,
    BayGunner,
    Gunner,
    Medic,
    Marine,
    FlightCrew,
    Steward,
    Other,
}

/// The template of a catalog crew role; a role not listed gets the general
/// hand's template.
pub open spec fn crew_template_spec(role: Seq<char>) -> CrewTemplate {
    if role == "command"@ {
        CrewTemplate::Command
    } else if role == "pilot"@ {
        CrewTemplate::Pilot
    } else if role == "navigator"@ {
        CrewTemplate::Navigator
    } else if role == "engineer"@ {
        CrewTemplate::Engineer
    } else if role == "sensors-operator"@ {
        CrewTemplate::SensorsOperator
    } else if role == "screen-operator"@ {
        CrewTemplate::ScreenOperator
    } else if role == "turret-gunner"@ {
        CrewTemplate::TurretGunner
    } else if role == "bay-gunner"@ {
        CrewTemplate::BayGunner
    } else if role == "gunner"@ {
        CrewTemplate::Gunner
    } else if role == "medic"@ {
        CrewTemplate::Medic
    } else if role == "marine"@ {
        CrewTemplate::Marine
    } else if role == "flight-crew"@ {
        CrewTemplate::FlightCrew
    } else if role == "steward"@ {
        CrewTemplate::Steward
    } else {
        CrewTemplate::Other
    }
}

pub fn crew_template(role: &str) -> (r: CrewTemplate)
    ensures
        r == crew_template_spec(role@),
{
    if text_equals(role, "command") {
        CrewTemplate::Command
    } else if text_equals(role, "pilot") {
        CrewTemplate::Pilot
    } else if text_equals(role, "navigator") {
        CrewTemplate::Navigator
    } else if text_equals(role, "engineer") {
        CrewTemplate::Engineer
    } else if text_equals(role, "sensors-operator") {
        CrewTemplate::SensorsOperator
    } else if text_equals(role, "screen-operator") {
        CrewTemplate::ScreenOperator
    } else if text_equals(role, "turret-gunner") {
        CrewTemplate::TurretGunner
    } else if text_equals(role, "bay-gunner") {
        CrewTemplate::BayGunner
    } else if text_equals(role, "gunner") {
        CrewTemplate::Gunner
    } else if text_equals(role, "medic") {
        CrewTemplate::Medic
    } else if text_equals(role, "marine") {
        CrewTemplate::Marine
    } else if text_equals(role, "flight-crew") {
        CrewTemplate::FlightCrew
    } else if text_equals(role, "steward") {
        CrewTemplate::Steward
    } else {
        CrewTemplate::Other
    }
}

/// The name a default crew member of the template is given.
pub open spec fn crew_name_spec(template: CrewTemplate) -> Seq<char> {
    match template {
        CrewTemplate::Command => "Exec"@,
        CrewTemplate::Pilot => "Ace"@,
        CrewTemplate::Navigator => "Nav"@,
        CrewTemplate::Engineer => "Chief"@,
        CrewTemplate::SensorsOperator => "Sensors"@,
        CrewTemplate::ScreenOperator => "Screens"@,
        CrewTemplate::TurretGunner => "Turrets"@,
        CrewTemplate::BayGunner => "Bays"@,
        CrewTemplate::Gunner => "Guns"@,
        CrewTemplate::Medic => "Doc"@,
        CrewTemplate::Marine => "Sarge"@,
        CrewTemplate::FlightCrew => "Deck"@,
        CrewTemplate::Steward => "Purser"@,
        CrewTemplate::Other => "Bosun"@,
    }
}

pub fn default_crew_name(role: &str) -> (r: &'static str)
    ensures
        r@ == crew_name_spec(crew_template_spec(role@)),
{
    match crew_template(role) {
        CrewTemplate::Command => "Exec",
        CrewTemplate::Pilot => "Ace",
        CrewTemplate::Navigator => "Nav",
        CrewTemplate::Engineer => "Chief",
        CrewTemplate::SensorsOperator => "Sensors",
        CrewTemplate::ScreenOperator => "Screens",
        CrewTemplate::TurretGunner => "Turrets",
        CrewTemplate::BayGunner => "Bays",
        CrewTemplate::Gunner => "Guns",
        CrewTemplate::Medic => "Doc",
        CrewTemplate::Marine => "Sarge",
        CrewTemplate::FlightCrew => "Deck",
        CrewTemplate::Steward => "Purser",
        CrewTemplate::Other => "Bosun",
    }
}

/// The characteristics of the template's default member.
pub open spec fn template_characteristics(template: CrewTemplate) -> Characteristics {
    match template {
        CrewTemplate::Command => Characteristics {
            strength: 6,
            dexterity: 7,
            endurance: 8,
            intelligence: 9,
            education: 8,
            charisma: 10,
        },
        CrewTemplate::Pilot => Characteristics {
            strength: 6,
            dexterity: 10,
            endurance: 8,
            intelligence: 9,
            education: 8,
            charisma: 7,
        },
        CrewTemplate::Navigator => Characteristics {
            strength: 6,
            dexterity: 8,
            endurance: 8,
            intelligence: 10,
            education: 9,
            charisma: 7,
        },
        CrewTemplate::Engineer => Characteristics {
            strength: 7,
            dexterity: 8,
            endurance: 8,
            intelligence: 9,
            education: 10,
            charisma: 6,
        },
        CrewTemplate::SensorsOperator => Characteristics {
            strength: 6,
            dexterity: 8,
            endurance: 8,
            intelligence: 10,
            education: 9,
            charisma: 7,
        },
        CrewTemplate::ScreenOperator => Characteristics {
            strength: 6,
            dexterity: 8,
            endurance: 8,
            intelligence: 10,
            education: 9,
            charisma: 7,
        },
        CrewTemplate::TurretGunner => Characteristics {
            strength: 7,
            dexterity: 10,
            endurance: 8,
            intelligence: 9,
            education: 8,
            charisma: 6,
        },
        CrewTemplate::BayGunner => Characteristics {
            strength: 7,
            dexterity: 10,
            endurance: 8,
            intelligence: 9,
            education: 8,
            charisma: 6,
        },
        CrewTemplate::Gunner => Characteristics {
            strength: 7,
            dexterity: 10,
            endurance: 8,
            intelligence: 9,
            education: 8,
            charisma: 6,
        },
        CrewTemplate::Medic => Characteristics {
            strength: 6,
            dexterity: 8,
            endurance: 8,
            intelligence: 9,
            education: 10,
            charisma: 7,
        },
        CrewTemplate::Marine => Characteristics {
            strength: 10,
            dexterity: 8,
            endurance: 9,
            intelligence: 8,
            education: 7,
            charisma: 6,
        },
        CrewTemplate::FlightCrew => Characteristics {
            strength: 6,
            dexterity: 10,
            endurance: 8,
            intelligence: 9,
            education: 8,
            charisma: 7,
        },
        CrewTemplate::Steward => Characteristics {
            strength: 6,
            dexterity: 7,
            endurance: 8,
            intelligence: 9,
            education: 8,
            charisma: 10,
        },
        CrewTemplate::Other => Characteristics {
            strength: 8,
            dexterity: 8,
            endurance: 10,
            intelligence: 7,
            education: 9,
            charisma: 6,
        },
    }
}

pub fn crew_characteristics(role: &str) -> (r: Characteristics)
    ensures
        r == template_characteristics(crew_template_spec(role@)),
{
    match crew_template(role) {
        CrewTemplate::Command => Characteristics {
            strength: 6,
            dexterity: 7,
            endurance: 8,
            intelligence: 9,
            education: 8,
            charisma: 10,
        },
        CrewTemplate::Pilot => Characteristics {
            strength: 6,
            dexterity: 10,
            endurance: 8,
            intelligence: 9,
            education: 8,
            charisma: 7,
        },
        CrewTemplate::Navigator => Characteristics {
            strength: 6,
            dexterity: 8,
            endurance: 8,
            intelligence: 10,
            education: 9,
            charisma: 7,
        },
        CrewTemplate::Engineer => Characteristics {
            strength: 7,
            dexterity: 8,
            endurance: 8,
            intelligence: 9,
            education: 10,
            charisma: 6,
        },
        CrewTemplate::SensorsOperator => Characteristics {
            strength: 6,
            dexterity: 8,
            endurance: 8,
            intelligence: 10,
            education: 9,
            charisma: 7,
        },
        CrewTemplate::ScreenOperator => Characteristics {
            strength: 6,
            dexterity: 8,
            endurance: 8,
            intelligence: 10,
            education: 9,
            charisma: 7,
        },
        CrewTemplate::TurretGunner => Characteristics {
            strength: 7,
            dexterity: 10,
            endurance: 8,
            intelligence: 9,
            education: 8,
            charisma: 6,
        },
        CrewTemplate::BayGunner => Characteristics {
            strength: 7,
            dexterity: 10,
            endurance: 8,
            intelligence: 9,
            education: 8,
            charisma: 6,
        },
        CrewTemplate::Gunner => Characteristics {
            strength: 7,
            dexterity: 10,
            endurance: 8,
            intelligence: 9,
            education: 8,
            charisma: 6,
        },
        CrewTemplate::Medic => Characteristics {
            strength: 6,
            dexterity: 8,
            endurance: 8,
            intelligence: 9,
            education: 10,
            charisma: 7,
        },
        CrewTemplate::Marine => Characteristics {
            strength: 10,
            dexterity: 8,
            endurance: 9,
            intelligence: 8,
            education: 7,
            charisma: 6,
        },
        CrewTemplate::FlightCrew => Characteristics {
            strength: 6,
            dexterity: 10,
            endurance: 8,
            intelligence: 9,
            education: 8,
            charisma: 7,
        },
        CrewTemplate::Steward => Characteristics {
            strength: 6,
            dexterity: 7,
            endurance: 8,
            intelligence: 9,
            education: 8,
            charisma: 10,
        },
        CrewTemplate::Other => Characteristics {
            strength: 8,
            dexterity: 8,
            endurance: 10,
            intelligence: 7,
            education: 9,
            charisma: 6,
        },
    }
}

/// The nine skills of the template's default member, primary skill first.
pub open spec fn template_skills(template: CrewTemplate) -> Seq<SkillId> {
    match template {
        CrewTemplate::Command => seq![SkillId::Leadership, SkillId::Admin, SkillId::TacticsNaval, SkillId::Persuade, SkillId::Communications, SkillId::Computer, SkillId::VaccSuit, SkillId::Etiquette, SkillId::Carouse],
        CrewTemplate::Pilot => seq![SkillId::PilotSpacecraft, SkillId::PilotSmallCraft, SkillId::Astrogation, SkillId::Communications, SkillId::Mechanic, SkillId::VaccSuit, SkillId::Computer, SkillId::Recon, SkillId::Admin],
        CrewTemplate::Navigator => seq![SkillId::Astrogation, SkillId::Computer, SkillId::Communications, SkillId::Electronics, SkillId::PilotSpacecraft, SkillId::VaccSuit, SkillId::Admin, SkillId::Investigate, SkillId::Recon],
        CrewTemplate::Engineer => seq![SkillId::EngineerJump, SkillId::EngineerManeuver, SkillId::EngineerPower, SkillId::EngineerLifeSupport, SkillId::Mechanic, SkillId::VaccSuit, SkillId::Electronics, SkillId::Computer, SkillId::Admin],
        CrewTemplate::SensorsOperator => seq![SkillId::Communications, SkillId::Electronics, SkillId::Computer, SkillId::Investigate, SkillId::Recon, SkillId::VaccSuit, SkillId::Astrogation, SkillId::Admin, SkillId::Mechanic],
        CrewTemplate::ScreenOperator => seq![SkillId::GunnerScreens, SkillId::Electronics, SkillId::Computer, SkillId::EngineerPower, SkillId::VaccSuit, SkillId::Mechanic, SkillId::Communications, SkillId::TacticsNaval, SkillId::Recon],
        CrewTemplate::TurretGunner => seq![SkillId::GunnerTurrets, SkillId::Computer, SkillId::Electronics, SkillId::VaccSuit, SkillId::Recon, SkillId::Mechanic, SkillId::Communications, SkillId::TacticsNaval, SkillId::PilotSmallCraft],
        CrewTemplate::BayGunner => seq![SkillId::GunnerCapital, SkillId::GunnerTurrets, SkillId::Computer, SkillId::Electronics, SkillId::VaccSuit, SkillId::Mechanic, SkillId::Communications, SkillId::TacticsNaval, SkillId::Recon],
        CrewTemplate::Gunner => seq![SkillId::GunnerTurrets, SkillId::GunnerCapital, SkillId::Computer, SkillId::Electronics, SkillId::VaccSuit, SkillId::Mechanic, SkillId::Communications, SkillId::TacticsNaval, SkillId::Recon],
        CrewTemplate::Medic => seq![SkillId::Medicine, SkillId::EngineerLifeSupport, SkillId::Computer, SkillId::Admin, SkillId::Persuade, SkillId::VaccSuit, SkillId::Investigate, SkillId::Carouse, SkillId::Mechanic],
        CrewTemplate::Marine => seq![SkillId::GunCombat, SkillId::TacticsMilitary, SkillId::Recon, SkillId::VaccSuit, SkillId::Melee, SkillId::Stealth, SkillId::Medicine, SkillId::Leadership, SkillId::Mechanic],
        CrewTemplate::FlightCrew => seq![SkillId::PilotSmallCraft, SkillId::Mechanic, SkillId::PilotSpacecraft, SkillId::Electronics, SkillId::Communications, SkillId::VaccSuit, SkillId::GunnerTurrets, SkillId::Recon, SkillId::EngineerManeuver],
        CrewTemplate::Steward => seq![SkillId::Etiquette, SkillId::Admin, SkillId::Persuade, SkillId::Carouse, SkillId::Broker, SkillId::Medicine, SkillId::Communications, SkillId::Computer, SkillId::VaccSuit],
        CrewTemplate::Other => seq![SkillId::Mechanic, SkillId::VaccSuit, SkillId::EngineerLifeSupport, SkillId::Communications, SkillId::TradeCargomaster, SkillId::Admin, SkillId::Computer, SkillId::Recon, SkillId::Medicine],
    }
}

pub fn crew_skills(role: &str) -> (r: [SkillId; 9])
    ensures
        r@ == template_skills(crew_template_spec(role@)),
{
    match crew_template(role) {
        CrewTemplate::Command => [SkillId::Leadership, SkillId::Admin, SkillId::TacticsNaval, SkillId::Persuade, SkillId::Communications, SkillId::Computer, SkillId::VaccSuit, SkillId::Etiquette, SkillId::Carouse],
        CrewTemplate::Pilot => [SkillId::PilotSpacecraft, SkillId::PilotSmallCraft, SkillId::Astrogation, SkillId::Communications, SkillId::Mechanic, SkillId::VaccSuit, SkillId::Computer, SkillId::Recon, SkillId::Admin],
        CrewTemplate::Navigator => [SkillId::Astrogation, SkillId::Computer, SkillId::Communications, SkillId::Electronics, SkillId::PilotSpacecraft, SkillId::VaccSuit, SkillId::Admin, SkillId::Investigate, SkillId::Recon],
        CrewTemplate::Engineer => [SkillId::EngineerJump, SkillId::EngineerManeuver, SkillId::EngineerPower, SkillId::EngineerLifeSupport, SkillId::Mechanic, SkillId::VaccSuit, SkillId::Electronics, SkillId::Computer, SkillId::Admin],
        CrewTemplate::SensorsOperator => [SkillId::Communications, SkillId::Electronics, SkillId::Computer, SkillId::Investigate, SkillId::Recon, SkillId::VaccSuit, SkillId::Astrogation, SkillId::Admin, SkillId::Mechanic],
        CrewTemplate::ScreenOperator => [SkillId::GunnerScreens, SkillId::Electronics, SkillId::Computer, SkillId::EngineerPower, SkillId::VaccSuit, SkillId::Mechanic, SkillId::Communications, SkillId::TacticsNaval, SkillId::Recon],
        CrewTemplate::TurretGunner => [SkillId::GunnerTurrets, SkillId::Computer, SkillId::Electronics, SkillId::VaccSuit, SkillId::Recon, SkillId::Mechanic, SkillId::Communications, SkillId::TacticsNaval, SkillId::PilotSmallCraft],
        CrewTemplate::BayGunner => [SkillId::GunnerCapital, SkillId::GunnerTurrets, SkillId::Computer, SkillId::Electronics, SkillId::VaccSuit, SkillId::Mechanic, SkillId::Communications, SkillId::TacticsNaval, SkillId::Recon],
        CrewTemplate::Gunner => [SkillId::GunnerTurrets, SkillId::GunnerCapital, SkillId::Computer, SkillId::Electronics, SkillId::VaccSuit, SkillId::Mechanic, SkillId::Communications, SkillId::TacticsNaval, SkillId::Recon],
        CrewTemplate::Medic => [SkillId::Medicine, SkillId::EngineerLifeSupport, SkillId::Computer, SkillId::Admin, SkillId::Persuade, SkillId::VaccSuit, SkillId::Investigate, SkillId::Carouse, SkillId::Mechanic],
        CrewTemplate::Marine => [SkillId::GunCombat, SkillId::TacticsMilitary, SkillId::Recon, SkillId::VaccSuit, SkillId::Melee, SkillId::Stealth, SkillId::Medicine, SkillId::Leadership, SkillId::Mechanic],
        CrewTemplate::FlightCrew => [SkillId::PilotSmallCraft, SkillId::Mechanic, SkillId::PilotSpacecraft, SkillId::Electronics, SkillId::Communications, SkillId::VaccSuit, SkillId::GunnerTurrets, SkillId::Recon, SkillId::EngineerManeuver],
        CrewTemplate::Steward => [SkillId::Etiquette, SkillId::Admin, SkillId::Persuade, SkillId::Carouse, SkillId::Broker, SkillId::Medicine, SkillId::Communications, SkillId::Computer, SkillId::VaccSuit],
        CrewTemplate::Other => [SkillId::Mechanic, SkillId::VaccSuit, SkillId::EngineerLifeSupport, SkillId::Communications, SkillId::TradeCargomaster, SkillId::Admin, SkillId::Computer, SkillId::Recon, SkillId::Medicine],
    }
}


/// Levels of a default member's nine skills, in the order of the skills.
pub open spec fn crew_levels_spec() -> Seq<i8> {
    seq![2, 2, 1, 1, 1, 1, 0, 0, 0]
}

/// The ratings of the template's default member.
pub open spec fn template_ratings(template: CrewTemplate) -> Seq<SkillRating> {
    Seq::new(
        9,
        |i: int| SkillRating { skill: template_skills(template)[i], level: crew_levels_spec()[i] },
    )
}

/// The crew characteristic array, whose scores every default member
/// holds in some order.
pub open spec fn crew_array_spec() -> Seq<u8> {
    seq![10, 9, 8, 8, 7, 6]
}

/// None of the first `k` ratings is of the skill.
spec fn skill_absent(skills: Seq<SkillRating>, k: int, skill: SkillId) -> bool
    decreases k,
{
    if k <= 0 {
        true
    } else {
        skills[k - 1].skill != skill && skill_absent(skills, k - 1, skill)
    }
}

/// Each of the first `k` ratings is new and at a level the pool accepts.
spec fn ratings_ok_upto(skills: Seq<SkillRating>, k: int) -> bool
    decreases k,
{
    if k <= 0 {
        true
    } else {
        let last = skills[k - 1];
        &&& ratings_ok_upto(skills, k - 1)
        &&& 0 <= last.level <= 3
        &&& (last.skill == SkillId::JackOfAllTrades ==> 1 <= last.level <= 2)
        &&& skill_absent(skills, k - 1, last.skill)
    }
}

/// Skill total of the first `k` ratings.
spec fn total_upto(skills: Seq<SkillRating>, k: int) -> int
    decreases k,
{
    if k <= 0 {
        0
    } else {
        total_upto(skills, k - 1) + counted_level(skills[k - 1].level)
    }
}

/// Ratings at a level among the first `k`.
spec fn count_upto(skills: Seq<SkillRating>, k: int, level: int) -> int
    decreases k,
{
    if k <= 0 {
        0
    } else {
        count_upto(skills, k - 1, level) + if skills[k - 1].level == level {
            1int
        } else {
            0int
        }
    }
}

proof fn lemma_prefix_sums(skills: Seq<SkillRating>, k: int)
    requires
        0 <= k <= skills.len(),
    ensures
        skill_total(skills.take(k)) == total_upto(skills, k),
        forall|level: int| #[trigger] level_count(skills.take(k), level) == count_upto(skills, k, level),
    decreases k,
{
    if k > 0 {
        lemma_prefix_sums(skills, k - 1);
        assert(skills.take(k).drop_last() =~= skills.take(k - 1));
        assert forall|level: int| #[trigger] level_count(skills.take(k), level) == count_upto(skills, k, level) by {
            assert(level_count(skills.take(k - 1), level) == count_upto(skills, k - 1, level));
        }
    } else {
        assert forall|level: int| #[trigger] level_count(skills.take(k), level) == count_upto(skills, k, level) by {
            assert(skills.take(k).len() == 0);
        }
    }
}

proof fn lemma_skill_absent(skills: Seq<SkillRating>, k: int, skill: SkillId)
    requires
        skill_absent(skills, k, skill),
    ensures
        forall|j: int| 0 <= j < k ==> (#[trigger] skills[j]).skill != skill,
    decreases k,
{
    if k > 0 {
        lemma_skill_absent(skills, k - 1, skill);
    }
}

proof fn lemma_ratings_ok_upto(skills: Seq<SkillRating>, k: int)
    requires
        0 <= k <= skills.len(),
        ratings_ok_upto(skills, k),
    ensures
        forall|i: int| 0 <= i < k ==> !#[trigger] rating_fault(skills, i),
    decreases k,
{
    if k > 0 {
        lemma_ratings_ok_upto(skills, k - 1);
        lemma_skill_absent(skills, k - 1, skills[k - 1].skill);
        assert forall|i: int| 0 <= i < k implies !#[trigger] rating_fault(skills, i) by {
            if i == k - 1 && repeated_before(skills, i) {
                let j = choose|j: int| 0 <= j < i && (#[trigger] skills[j]).skill == skills[i].skill;
                assert(skills[j].skill != skills[k - 1].skill);
            }
        }
    }
}

/// The ratings of every default member share the same levels, so their
/// totals and level counts are those of the crew levels.
proof fn lemma_template_levels(template: CrewTemplate)
    ensures
        skill_total(template_ratings(template)) == 8,
        level_count(template_ratings(template), 0) == 3,
        level_count(template_ratings(template), 1) == 4,
        level_count(template_ratings(template), 2) == 2,
        level_count(template_ratings(template), 3) == 0,
{
    let ratings = template_ratings(template);
    lemma_prefix_sums(ratings, 9);
    assert(ratings.take(9) =~= ratings);
    reveal_with_fuel(total_upto, 10);
    reveal_with_fuel(count_upto, 10);
    assert(total_upto(ratings, 9) == 8);
    assert(count_upto(ratings, 9, 0) == 3);
    assert(count_upto(ratings, 9, 1) == 4);
    assert(count_upto(ratings, 9, 2) == 2);
    assert(count_upto(ratings, 9, 3) == 0);
}

proof fn lemma_template_ratings_ok(template: CrewTemplate)
    ensures
        !has_fault(template_ratings(template)),
        template_skills(template)[0] != SkillId::JackOfAllTrades,
{
    reveal_with_fuel(ratings_ok_upto, 10);
    reveal_with_fuel(skill_absent, 9);
    match template {
        CrewTemplate::Command => {
            assert(ratings_ok_upto(template_ratings(CrewTemplate::Command), 9));
        },
        CrewTemplate::Pilot => {
            assert(ratings_ok_upto(template_ratings(CrewTemplate::Pilot), 9));
        },
        CrewTemplate::Navigator => {
            assert(ratings_ok_upto(template_ratings(CrewTemplate::Navigator), 9));
        },
        CrewTemplate::Engineer => {
            assert(ratings_ok_upto(template_ratings(CrewTemplate::Engineer), 9));
        },
        CrewTemplate::SensorsOperator => {
            assert(ratings_ok_upto(template_ratings(CrewTemplate::SensorsOperator), 9));
        },
        CrewTemplate::ScreenOperator => {
            assert(ratings_ok_upto(template_ratings(CrewTemplate::ScreenOperator), 9));
        },
        CrewTemplate::TurretGunner => {
            assert(ratings_ok_upto(template_ratings(CrewTemplate::TurretGunner), 9));
        },
        CrewTemplate::BayGunner => {
            assert(ratings_ok_upto(template_ratings(CrewTemplate::BayGunner), 9));
        },
        CrewTemplate::Gunner => {
            assert(ratings_ok_upto(template_ratings(CrewTemplate::Gunner), 9));
        },
        CrewTemplate::Medic => {
            assert(ratings_ok_upto(template_ratings(CrewTemplate::Medic), 9));
        },
        CrewTemplate::Marine => {
            assert(ratings_ok_upto(template_ratings(CrewTemplate::Marine), 9));
        },
        CrewTemplate::FlightCrew => {
            assert(ratings_ok_upto(template_ratings(CrewTemplate::FlightCrew), 9));
        },
        CrewTemplate::Steward => {
            assert(ratings_ok_upto(template_ratings(CrewTemplate::Steward), 9));
        },
        CrewTemplate::Other => {
            assert(ratings_ok_upto(template_ratings(CrewTemplate::Other), 9));
        },
    }
    lemma_ratings_ok_upto(template_ratings(template), 9);
}

/// Every crew template's default member fits the crew skill pool exactly
/// and holds the crew characteristic array in some order, so a default
/// member always passes the skill checks, whatever the label.
pub proof fn lemma_crew_templates_are_valid(template: CrewTemplate, label: Seq<char>)
    ensures
        skills_problem(template_ratings(template), crew_pool_spec(), label) is None,
        characteristic_scores(template_characteristics(template)).to_multiset()
            =~= crew_array_spec().to_multiset(),
{
    lemma_template_levels(template);
    lemma_template_ratings_ok(template);
    broadcast use vstd::seq_lib::group_to_multiset_ensures;
    broadcast use vstd::multiset::group_multiset_axioms;
    let c = template_characteristics(template);
    lemma_six_multiset(crew_array_spec());
    lemma_six_multiset(characteristic_scores(c));
}

/// The multiset of six scores, written out.
proof fn lemma_six_multiset(s: Seq<u8>)
    requires
        s.len() == 6,
    ensures
        s.to_multiset() =~= Multiset::empty().insert(s[0]).insert(s[1]).insert(s[2]).insert(
            s[3],
        ).insert(s[4]).insert(s[5]),
{
    broadcast use vstd::seq_lib::group_to_multiset_ensures;
    broadcast use vstd::multiset::group_multiset_axioms;
    let s0 = Seq::<u8>::empty();
    let s1 = s0.push(s[0]);
    let s2 = s1.push(s[1]);
    let s3 = s2.push(s[2]);
    let s4 = s3.push(s[3]);
    let s5 = s4.push(s[4]);
    let s6 = s5.push(s[5]);
    assert(s =~= s6);
    vstd::multiset::lemma_multiset_empty_len(s0.to_multiset());
    assert(s0.to_multiset() =~= Multiset::empty());
}


/// A default crew member for the role: the template's name and
/// characteristics, its nine skills at the crew levels, and training in the
/// primary skill from the start, which takes the skill total 8 plus the
/// level 3 to reach: 11 weeks.
pub fn default_crew(role: &str, _number: usize) -> (r: PersonDraft)
    ensures
        r.name@ == crew_name_spec(crew_template_spec(role@)),
        r.characteristics == template_characteristics(crew_template_spec(role@)),
        r.skills@ == template_ratings(crew_template_spec(role@)),
        r.training == (SkillTraining {
            skill: template_skills(crew_template_spec(role@))[0],
            needed_weeks: 11,
            current_weeks: 0,
        }),
{
    let ghost template = crew_template_spec(role@);
    let skills = crew_skills(role);
    let levels: [i8; 9] = [2, 2, 1, 1, 1, 1, 0, 0, 0];
    let mut ratings: Vec<SkillRating> = Vec::new();
    let mut i: usize = 0;
    while i < 9
        invariant
            i <= 9,
            ratings@.len() == i,
            skills@ == template_skills(template),
            levels@ == crew_levels_spec(),
            forall|j: int|
                0 <= j < i ==> #[trigger] ratings@[j] == (SkillRating {
                    skill: skills@[j],
                    level: levels@[j],
                }),
        decreases 9 - i,
    {
        ratings.push(SkillRating { skill: skills[i], level: levels[i] });
        i = i + 1;
    }
    assert(ratings@ =~= template_ratings(template));
    proof {
        lemma_template_levels(template);
        lemma_template_ratings_ok(template);
        lemma_first_rating(ratings@, skills@[0], 0);
    }
    let training = match initial_training(ratings.as_slice(), skills[0]) {
        Some(training) => training,
        None => {
            proof {
                assert(false);
            }
            SkillTraining { skill: skills[0], needed_weeks: 0, current_weeks: 0 }
        },
    };
    PersonDraft {
        name: String::from_str(default_crew_name(role)),
        characteristics: crew_characteristics(role),
        training,
        skills: ratings,
    }
}


// ---------------------------------------------------------------------------
// Validation of a whole creation.

/// `i` is the first position of a slot with the id.
pub open spec fn is_slot_position(slots: Seq<StartingCrewSlot>, slot_id: u16, i: int) -> bool {
    &&& 0 <= i < slots.len()
    &&& slots[i].slot_id == slot_id
    &&& forall|j: int| 0 <= j < i ==> (#[trigger] slots[j]).slot_id != slot_id
}

pub open spec fn has_slot(slots: Seq<StartingCrewSlot>, slot_id: u16) -> bool {
    exists|i: int| 0 <= i < slots.len() && (#[trigger] slots[i]).slot_id == slot_id
}

/// The first slot with the id.
pub open spec fn slot_of(slots: Seq<StartingCrewSlot>, slot_id: u16) -> StartingCrewSlot {
    slots[choose|i: int| is_slot_position(slots, slot_id, i)]
}

/// Record `k` names a slot that an earlier record named.
pub open spec fn slot_repeated(crew: Seq<CrewCreation>, k: int) -> bool {
    exists|j: int| 0 <= j < k && (#[trigger] crew[j]).slot_id == crew[k].slot_id
}

/// What is wrong with crew record `k`, if anything, checked in order: a
/// slot named twice, a slot the offer lacks, the name, then whether the
/// slot's default skills can train the chosen skill.
pub open spec fn crew_record_problem(
    crew: Seq<CrewCreation>,
    slots: Seq<StartingCrewSlot>,
    k: int,
) -> Option<Seq<char>> {
    let record = crew[k];
    let slot_text = decimal_spec(record.slot_id as nat);
    if slot_repeated(crew, k) {
        Some("crew slot "@ + slot_text + " was submitted more than once"@)
    } else if !has_slot(slots, record.slot_id) {
        Some("crew slot "@ + slot_text + " is not in this offer"@)
    } else if blank(record.name@) || name_bytes(record.name) > 128 {
        Some("crew member name must contain 1..=128 bytes"@)
    } else if training_weeks_spec(
        slot_of(slots, record.slot_id).default_crew.skills@,
        record.training_skill,
    ) is None {
        Some(
            slot_of(slots, record.slot_id).role@ + " cannot train "@ + skill_name(
                record.training_skill,
            ) + " from this starting skill package"@,
        )
    } else {
        None
    }
}

/// The problem of the first faulty crew record from the `k`th on, if any.
pub open spec fn first_crew_problem(crew: Seq<CrewCreation>, slots: Seq<StartingCrewSlot>, k: int) -> Option<
    Seq<char>,
>
    decreases crew.len() - k,
{
    if k < 0 || k >= crew.len() {
        None
    } else {
        match crew_record_problem(crew, slots, k) {
            Some(message) => Some(message),
            None => first_crew_problem(crew, slots, k + 1),
        }
    }
}

/// What is wrong with a creation, if anything, given what the catalog
/// answers for its offer: the check of its refit selection and the crew
/// plan of the offer, if the offer is available.  Checked in order: the
/// setup revision, the captain, the ship name, the refit, the plan, the
/// number of crew records, then each record.
pub open spec fn creation_problem(
    creation: PlayerCreation,
    refit: Result<(u64, u64), String>,
    plan: Option<StartingCrewPlan>,
) -> Option<Seq<char>> {
    if creation.setup_revision != SETUP_REVISION {
        Some(
            "setup revision "@ + decimal_spec(creation.setup_revision as nat)
                + " is stale; current revision is "@ + decimal_spec(SETUP_REVISION as nat),
        )
    } else if person_problem(
        creation.captain,
        captain_point_buy_spec(),
        captain_pool_spec(),
        "captain"@,
    ) is Some {
        person_problem(creation.captain, captain_point_buy_spec(), captain_pool_spec(), "captain"@)
    } else if blank(creation.ship_name@) {
        Some("ship name must not be blank"@)
    } else {
        match refit {
            Err(e) => Some(e@),
            Ok(_) => match plan {
                None => Some("starting offer is not available for this BBS polity"@),
                Some(plan) => if creation.crew@.len() != plan.slots@.len() {
                    Some(
                        "offer requires "@ + decimal_spec(plan.slots@.len())
                            + " initial crew records; received "@ + decimal_spec(
                            creation.crew@.len(),
                        ),
                    )
                } else {
                    first_crew_problem(creation.crew@, plan.slots@, 0)
                },
            },
        }
    }
}

/// Every slot's default member has a skill total that fits a `u16`.
pub open spec fn plan_totals_fit(plan: Option<StartingCrewPlan>) -> bool {
    plan matches Some(p) ==> forall|i: int|
        0 <= i < p.slots@.len() ==> skill_total((#[trigger] p.slots@[i]).default_crew.skills@)
            <= u16::MAX
}

proof fn lemma_slot_position(slots: Seq<StartingCrewSlot>, slot_id: u16, i: int)
    requires
        is_slot_position(slots, slot_id, i),
    ensures
        slot_of(slots, slot_id) == slots[i],
        has_slot(slots, slot_id),
{
    let c = choose|c: int| is_slot_position(slots, slot_id, c);
    assert(is_slot_position(slots, slot_id, i));
    if c < i {
        assert(slots[c].slot_id != slot_id);
    } else if c > i {
        assert(slots[i].slot_id != slot_id);
    }
}

proof fn lemma_first_crew_problem_skip(crew: Seq<CrewCreation>, slots: Seq<StartingCrewSlot>, k: int)
    requires
        0 <= k <= crew.len(),
        forall|j: int| 0 <= j < k ==> #[trigger] crew_record_problem(crew, slots, j) is None,
    ensures
        first_crew_problem(crew, slots, 0) == first_crew_problem(crew, slots, k),
    decreases k,
{
    if k > 0 {
        lemma_first_crew_problem_skip(crew, slots, k - 1);
    }
}

fn blank_text(s: &str) -> (r: bool)
    ensures
        r == blank(s@),
{
    let n = s.unicode_len();
    let mut i: usize = 0;
    while i < n
        invariant
            i <= n,
            n == s@.len(),
            forall|j: int| 0 <= j < i ==> is_white(#[trigger] s@[j]),
        decreases n - i,
    {
        if !white(s.get_char(i)) {
            return false;
        }
        i = i + 1;
    }
    true
}

fn check_crew_record(crew: &Vec<CrewCreation>, slots: &Vec<StartingCrewSlot>, k: usize, repeated: bool) -> (r:
    Result<(), String>)
    requires
        k < crew@.len(),
        repeated == slot_repeated(crew@, k as int),
        forall|i: int|
            0 <= i < slots@.len() ==> skill_total((#[trigger] slots@[i]).default_crew.skills@)
                <= u16::MAX,
    ensures
        match crew_record_problem(crew@, slots@, k as int) {
            Some(message) => r matches Err(e) && e@ == message,
            None => r is Ok,
        },
{
    let record = &crew[k];
    if repeated {
        let message = String::from_str("crew slot ").concat(
            decimal(record.slot_id as u64).as_str(),
        ).concat(" was submitted more than once");
        return Err(message);
    }
    assert(!slot_repeated(crew@, k as int));
    let mut p: usize = 0;
    while p < slots.len() && slots[p].slot_id != record.slot_id
        invariant
            p <= slots@.len(),
            forall|q: int| 0 <= q < p ==> (#[trigger] slots@[q]).slot_id != record.slot_id,
        decreases slots@.len() - p,
    {
        p = p + 1;
    }
    if p == slots.len() {
        let message = String::from_str("crew slot ").concat(
            decimal(record.slot_id as u64).as_str(),
        ).concat(" is not in this offer");
        return Err(message);
    }
    proof {
        lemma_slot_position(slots@, record.slot_id, p as int);
    }
    match validate_name(record.name.as_str(), "crew member") {
        Ok(()) => {},
        Err(e) => {
            proof {
                reveal_strlit("crew member");
                reveal_strlit(" name must contain 1..=128 bytes");
                reveal_strlit("crew member name must contain 1..=128 bytes");
                assert("crew member"@ + " name must contain 1..=128 bytes"@
                    =~= "crew member name must contain 1..=128 bytes"@);
            }
            return Err(e);
        },
    }
    let slot = &slots[p];
    match initial_training(slot.default_crew.skills.as_slice(), record.training_skill) {
        Some(_) => Ok(()),
        None => {
            let message = String::from_str(slot.role.as_str()).concat(" cannot train ").concat(
                record.training_skill.name(),
            ).concat(" from this starting skill package");
            Err(message)
        },
    }
}

/// Checks a whole creation, given what the catalog answers for its offer:
/// `refit`, the check of the refit selection, and `plan`, the crew plan of
/// the offer if it is available to the player's polity.
pub fn validate_creation(
    creation: &PlayerCreation,
    refit: Result<(u64, u64), String>,
    plan: Option<StartingCrewPlan>,
) -> (r: Result<(), String>)
    requires
        plan_totals_fit(plan),
    ensures
        match creation_problem(*creation, refit, plan) {
            Some(message) => r matches Err(e) && e@ == message,
            None => r is Ok,
        },
{
    broadcast use vstd::std_specs::hash::group_hash_axioms;

    let ghost refit_answer = refit;
    let ghost plan_answer = plan;
    if creation.setup_revision != SETUP_REVISION {
        let message = String::from_str("setup revision ").concat(
            decimal(creation.setup_revision).as_str(),
        ).concat(" is stale; current revision is ").concat(decimal(SETUP_REVISION).as_str());
        return Err(message);
    }
    match validate_person(
        &creation.captain,
        captain_characteristic_point_buy(),
        captain_skill_pool(),
        "captain",
    ) {
        Ok(()) => {},
        Err(e) => {
            return Err(e);
        },
    }
    if blank_text(creation.ship_name.as_str()) {
        return Err(String::from_str("ship name must not be blank"));
    }
    match refit {
        Ok(_) => {},
        Err(e) => {
            return Err(e);
        },
    }
    let chosen = match plan {
        Some(chosen) => chosen,
        None => {
            return Err(String::from_str("starting offer is not available for this BBS polity"));
        },
    };
    if creation.crew.len() != chosen.slots.len() {
        let message = String::from_str("offer requires ").concat(
            decimal(chosen.slots.len() as u64).as_str(),
        ).concat(" initial crew records; received ").concat(
            decimal(creation.crew.len() as u64).as_str(),
        );
        return Err(message);
    }
    assert(creation_problem(*creation, refit_answer, plan_answer) == first_crew_problem(
        creation.crew@,
        chosen.slots@,
        0,
    ));
    let mut submitted: HashSet<u16> = HashSet::new();
    let mut k: usize = 0;
    while k < creation.crew.len()
        invariant
            k <= creation.crew@.len(),
            forall|id: u16|
                #[trigger] submitted@.contains(id) <==> exists|j: int|
                    0 <= j < k && (#[trigger] creation.crew@[j]).slot_id == id,
            refit_answer == refit,
            plan_answer == plan,
            creation_problem(*creation, refit_answer, plan_answer) == first_crew_problem(
                creation.crew@,
                chosen.slots@,
                0,
            ),
            forall|i: int|
                0 <= i < chosen.slots@.len() ==> skill_total(
                    (#[trigger] chosen.slots@[i]).default_crew.skills@,
                ) <= u16::MAX,
            forall|j: int|
                0 <= j < k ==> #[trigger] crew_record_problem(creation.crew@, chosen.slots@, j) is None,
        decreases creation.crew@.len() - k,
    {
        let repeated = !submitted.insert(creation.crew[k].slot_id);
        proof {
            let id = creation.crew@[k as int].slot_id;
            if repeated {
                let j = choose|j: int| 0 <= j < k && (#[trigger] creation.crew@[j]).slot_id == id;
                assert(slot_repeated(creation.crew@, k as int));
            }
            assert forall|x: u16| #[trigger] submitted@.contains(x) <==> exists|j: int|
                0 <= j < k + 1 && (#[trigger] creation.crew@[j]).slot_id == x by {
                if x == id {
                    assert(creation.crew@[k as int].slot_id == x);
                }
            }
        }
        match check_crew_record(&creation.crew, &chosen.slots, k, repeated) {
            Ok(()) => {},
            Err(e) => {
                proof {
                    lemma_first_crew_problem_skip(creation.crew@, chosen.slots@, k as int);
                }
                return Err(e);
            },
        }
        k = k + 1;
    }
    proof {
        lemma_first_crew_problem_skip(creation.crew@, chosen.slots@, k as int);
    }
    Ok(())
}


// ---------------------------------------------------------------------------
// The crew establishment of a ship.

/// Reading the `[[crew]]` tables of a ship's catalog record, line by line:
/// whether the reader is in a crew table, where the role read in it
/// stands, the quantity read in it, and the roles read so far, each with
/// where its text stands and its quantity.
pub open spec fn crew_line(
    s: Seq<char>,
    a: int,
    b: int,
    state: (bool, Option<(int, int)>, u16, Seq<((int, int), u16)>),
) -> (bool, Option<(int, int)>, u16, Seq<((int, int), u16)>) {
    let t = s.subrange(a, b);
    if t.len() >= 2 && t[0] == '[' && t[1] == '[' {
        let out = if state.0 && state.1 is Some {
            state.3.push((state.1->0, state.2))
        } else {
            state.3
        };
        (t == "[[crew]]"@, if state.0 {
            None
        } else {
            state.1
        }, 1, out)
    } else if !state.0 {
        state
    } else if t.len() >= 7 && t.take(7) == "role = "@ {
        let qa = skip_while(s, char_test('"'), a + 7, b);
        (state.0, Some((qa, back_while(s, char_test('"'), qa, b))), state.2, state.3)
    } else if t.len() >= 11 && t.take(11) == "quantity = "@ {
        (state.0, state.1, match parse_integer(s.subrange(a + 11, b), 0, 65535) {
            Some(v) => v as u16,
            None => 1,
        }, state.3)
    } else {
        state
    }
}

/// The reader after the lines of `[i, end)`, each trimmed of white space.
pub open spec fn crew_scan(
    s: Seq<char>,
    i: int,
    end: int,
    state: (bool, Option<(int, int)>, u16, Seq<((int, int), u16)>),
) -> (bool, Option<(int, int)>, u16, Seq<((int, int), u16)>)
    decreases end - i,
{
    if i >= end {
        state
    } else {
        let e = line_end(s, i, end);
        proof {
            lemma_next_char_bounds(s, '\n', i, end);
        }
        let next = crew_line(s, trim_start(s, i, e), trim_end(s, i, e), state);
        if e < end {
            crew_scan(s, e + 1, end, next)
        } else {
            next
        }
    }
}

/// The roles of a ship's crew tables, in order, with their quantities: a
/// table counts once it names its role; a quantity that is missing or does
/// not read as a `u16` counts as one.
pub open spec fn crew_role_ranges(s: Seq<char>) -> Seq<((int, int), u16)> {
    let last = crew_scan(s, 0, s.len() as int, (false, None, 1, Seq::empty()));
    if last.0 && last.1 is Some {
        last.3.push((last.1->0, last.2))
    } else {
        last.3
    }
}

/// The roles of a ship's crew tables, each with its quantity.
pub open spec fn crew_roles_spec(s: Seq<char>) -> Seq<(Seq<char>, u16)> {
    crew_role_ranges(s).map_values(|x: ((int, int), u16)| (s.subrange(x.0.0, x.0.1), x.1))
}

/// The roles as texts with their quantities.
pub open spec fn role_views(roles: Seq<(String, u16)>) -> Seq<(Seq<char>, u16)> {
    roles.map_values(|p: (String, u16)| (p.0@, p.1))
}

/// The roles read, each a text and a quantity, are those the ranges pick.
pub open spec fn roles_read(s: Seq<char>, roles: Seq<(String, u16)>, ranges: Seq<((int, int), u16)>) -> bool {
    &&& roles.len() == ranges.len()
    &&& forall|k: int|
        0 <= k < roles.len() ==> (#[trigger] roles[k]).0@ == s.subrange(ranges[k].0.0, ranges[k].0.1)
            && roles[k].1 == ranges[k].1
}

/// The roles and quantities of the `[[crew]]` tables of a ship's catalog
/// record.
pub fn crew_roles(source: &str) -> (r: Vec<(String, u16)>)
    ensures
        roles_read(source@, r@, crew_role_ranges(source@)),
        role_views(r@) == crew_roles_spec(source@),
{
    let s = chars_of(source);
    let crew_header = chars_of("[[crew]]");
    let role_key = chars_of("role = ");
    let quantity_key = chars_of("quantity = ");
    proof {
        reveal_strlit("role = ");
        reveal_strlit("quantity = ");
    }
    let n = s.len();
    let mut in_crew = false;
    let mut role: Option<(usize, usize)> = None;
    let mut quantity: u16 = 1;
    let mut out: Vec<(String, u16)> = Vec::new();
    let ghost mut ranges: Seq<((int, int), u16)> = Seq::empty();
    let mut i: usize = 0;
    let ghost initial = (false, None::<(int, int)>, 1u16, Seq::<((int, int), u16)>::empty());
    while i < n
        invariant
            i <= n,
            n == s@.len(),
            s@ == source@,
            crew_header@ == "[[crew]]"@,
            role_key@ == "role = "@,
            role_key@.len() == 7,
            quantity_key@ == "quantity = "@,
            quantity_key@.len() == 11,
            role matches Some(r) ==> r.0 <= r.1 <= n,
            forall|k: int| 0 <= k < ranges.len() ==> 0 <= (#[trigger] ranges[k]).0.0 <= ranges[k].0.1 <= n,
            roles_read(s@, out@, ranges),
            crew_scan(s@, i as int, n as int, (in_crew, match role {
                Some(r) => Some((r.0 as int, r.1 as int)),
                None => None,
            }, quantity, ranges)) == crew_scan(s@, 0, n as int, initial),
        decreases n - i,
    {
        let ghost before = (in_crew, match role {
            Some(r) => Some((r.0 as int, r.1 as int)),
            None => None,
        }, quantity, ranges);
        let e = find_char(&s, '\n', i, n);
        let a = skip_white(&s, i, e);
        let b = back_white(&s, a, e);
        let ghost expected = crew_line(s@, a as int, b as int, before);
        assert(s@.subrange(a as int, b as int).len() == b - a);
        if b - a >= 2 && s[a] == '[' && s[a + 1] == '[' {
            assert(s@.subrange(a as int, b as int)[0] == s@[a as int]);
            assert(s@.subrange(a as int, b as int)[1] == s@[a + 1]);
            if in_crew {
                match role {
                    Some((x, y)) => {
                        out.push((text_in(source, &s, x, y), quantity));
                        proof {
                            let prior = ranges;
                            ranges = ranges.push(((x as int, y as int), quantity));
                            assert forall|k: int| 0 <= k < out@.len() implies (#[trigger] out@[k]).0@
                                == s@.subrange(ranges[k].0.0, ranges[k].0.1) && out@[k].1
                                == ranges[k].1 by {
                                if k < prior.len() {
                                    assert(ranges[k] == prior[k]);
                                }
                            }
                        }
                    },
                    None => {},
                }
                role = None;
            }
            in_crew = range_equals(&s, a, b, &crew_header);
            quantity = 1;
        } else if !in_crew {
        } else if b - a >= 7 && range_equals(&s, a, a + 7, &role_key) {
            assert(s@.subrange(a as int, b as int).take(7) =~= s@.subrange(a as int, a + 7));
            let qa = skip_char(&s, '"', a + 7, b);
            let qb = back_char(&s, '"', qa, b);
            role = Some((qa, qb));
        } else if b - a >= 11 && range_equals(&s, a, a + 11, &quantity_key) {
            assert(s@.subrange(a as int, b as int).take(11) =~= s@.subrange(a as int, a + 11));
            assert(s@.subrange(a as int, b as int).take(7) =~= s@.subrange(a as int, a + 7));
            quantity = match integer_in(&s, a + 11, b, 0, 65535) {
                Some(v) => v as u16,
                None => 1,
            };
        } else {
            if b - a >= 7 {
                assert(s@.subrange(a as int, b as int).take(7) =~= s@.subrange(a as int, a + 7));
            }
            if b - a >= 11 {
                assert(s@.subrange(a as int, b as int).take(11) =~= s@.subrange(a as int, a + 11));
            }
        }
        assert((in_crew, match role {
            Some(r) => Some((r.0 as int, r.1 as int)),
            None => None,
        }, quantity, ranges) == expected);
        if e < n {
            i = e + 1;
        } else {
            i = n;
        }
    }
    let ghost last = crew_scan(s@, 0, n as int, initial);
    if in_crew {
        match role {
            Some((x, y)) => {
                out.push((text_in(source, &s, x, y), quantity));
                proof {
                    let prior = ranges;
                    ranges = ranges.push(((x as int, y as int), quantity));
                    assert forall|k: int| 0 <= k < out@.len() implies (#[trigger] out@[k]).0@
                        == s@.subrange(ranges[k].0.0, ranges[k].0.1) && out@[k].1 == ranges[k].1 by {
                        if k < prior.len() {
                            assert(ranges[k] == prior[k]);
                        }
                    }
                }
            },
            None => {},
        }
    }
    proof {
        assert(ranges == crew_role_ranges(s@));
        assert(role_views(out@) =~= crew_roles_spec(s@));
    }
    out
}


/// `i` is the first role named `name`.
pub open spec fn is_first_role(roles: Seq<(Seq<char>, u16)>, name: Seq<char>, i: int) -> bool {
    &&& 0 <= i < roles.len()
    &&& roles[i].0 == name
    &&& forall|j: int| 0 <= j < i ==> (#[trigger] roles[j]).0 != name
}

pub open spec fn has_role(roles: Seq<(Seq<char>, u16)>, name: Seq<char>) -> bool {
    exists|i: int| 0 <= i < roles.len() && (#[trigger] roles[i]).0 == name
}

/// The role whose count gives up the player's own seat: the first command
/// role, or where there is none, the first pilot role.
pub open spec fn seat_role(roles: Seq<(Seq<char>, u16)>) -> Option<int> {
    if has_role(roles, "command"@) {
        Some(choose|i: int| is_first_role(roles, "command"@, i))
    } else if has_role(roles, "pilot"@) {
        Some(choose|i: int| is_first_role(roles, "pilot"@, i))
    } else {
        None
    }
}

/// The roles with the player's seat taken off, one position less, never
/// below none.
pub open spec fn crew_after_seat(roles: Seq<(Seq<char>, u16)>) -> Seq<(Seq<char>, u16)> {
    Seq::new(
        roles.len(),
        |k: int|
            (roles[k].0, if seat_role(roles) == Some(k) && roles[k].1 > 0 {
                (roles[k].1 - 1) as u16
            } else {
                roles[k].1
            }),
    )
}

/// The roles the player must staff: those with positions left after the
/// player's seat.
pub open spec fn staffed_roles(roles: Seq<(Seq<char>, u16)>) -> Seq<(Seq<char>, u16)> {
    crew_after_seat(roles).filter(|p: (Seq<char>, u16)| p.1 > 0)
}

/// The person is the standard default member for the role.
pub open spec fn default_member(person: PersonDraft, role: Seq<char>) -> bool {
    let template = crew_template_spec(role);
    &&& person.name@ == crew_name_spec(template)
    &&& person.characteristics == template_characteristics(template)
    &&& person.skills@ == template_ratings(template)
    &&& person.training == (SkillTraining {
        skill: template_skills(template)[0],
        needed_weeks: 11,
        current_weeks: 0,
    })
}

/// Slot `k` of a plan staffs the `k`th staffed role.
pub open spec fn slot_staffs(slot: StartingCrewSlot, k: int, role: (Seq<char>, u16)) -> bool {
    &&& slot.slot_id == (k + 1) as u16
    &&& slot.role@ == role.0
    &&& slot.required
    &&& slot.represented_positions == role.1
    &&& slot.skill_pool == crew_pool_spec()
    &&& default_member(slot.default_crew, role.0)
}

proof fn lemma_first_role(roles: Seq<(Seq<char>, u16)>, name: Seq<char>, i: int)
    requires
        is_first_role(roles, name, i),
    ensures
        (choose|c: int| is_first_role(roles, name, c)) == i,
        has_role(roles, name),
{
    let c = choose|c: int| is_first_role(roles, name, c);
    assert(is_first_role(roles, name, i));
    if c < i {
        assert(roles[c].0 != name);
    } else if c > i {
        assert(roles[i].0 != name);
    }
}

fn first_role(roles: &Vec<(String, u16)>, name: &str) -> (r: Option<usize>)
    ensures
        match r {
            Some(i) => is_first_role(role_views(roles@), name@, i as int),
            None => !has_role(role_views(roles@), name@),
        },
{
    let mut i: usize = 0;
    while i < roles.len()
        invariant
            i <= roles@.len(),
            forall|j: int| 0 <= j < i ==> (#[trigger] role_views(roles@)[j]).0 != name@,
        decreases roles@.len() - i,
    {
        if text_equals(roles[i].0.as_str(), name) {
            return Some(i);
        }
        i = i + 1;
    }
    None
}

/// The starting crew slots of an offer whose ship's catalog record is
/// `ship_source`, if the offer is available and the revision current: one
/// slot for each crew role with positions left once the player takes a
/// command seat, or failing one a pilot's, each held by the standard
/// member for the role.
pub fn crew_plan(revision: u64, offer_id: u32, ship_source: Option<&str>) -> (r: Option<
    StartingCrewPlan,
>)
    ensures
        revision != SETUP_REVISION || ship_source is None ==> r is None,
        revision == SETUP_REVISION && ship_source is Some ==> (r matches Some(plan) && {
            let staffed = staffed_roles(crew_roles_spec(ship_source->0@));
            &&& plan.setup_revision == SETUP_REVISION
            &&& plan.starting_offer_id == offer_id
            &&& plan.slots@.len() == staffed.len()
            &&& forall|k: int|
                0 <= k < staffed.len() ==> slot_staffs(#[trigger] plan.slots@[k], k, staffed[k])
        }),
{
    if revision != SETUP_REVISION {
        return None;
    }
    let source = match ship_source {
        Some(source) => source,
        None => {
            return None;
        },
    };
    let roles = crew_roles(source);
    let ghost views = role_views(roles@);
    let seat = match first_role(&roles, "command") {
        Some(i) => Some(i),
        None => first_role(&roles, "pilot"),
    };
    proof {
        match seat {
            Some(i) => {
                if has_role(views, "command"@) {
                    lemma_first_role(views, "command"@, i as int);
                } else {
                    lemma_first_role(views, "pilot"@, i as int);
                }
            },
            None => {},
        }
    }
    let ghost after = crew_after_seat(views);
    assert(seat_role(views) == match seat {
        Some(i) => Some(i as int),
        None => None::<int>,
    });
    let mut slots: Vec<StartingCrewSlot> = Vec::new();
    let mut k: usize = 0;
    while k < roles.len()
        invariant
            k <= roles@.len(),
            views == role_views(roles@),
            after == crew_after_seat(views),
            seat_role(views) == match seat {
                Some(i) => Some(i as int),
                None => None::<int>,
            },
            slots@.len() == after.take(k as int).filter(|p: (Seq<char>, u16)| p.1 > 0).len(),
            forall|q: int|
                0 <= q < slots@.len() ==> slot_staffs(
                    #[trigger] slots@[q],
                    q,
                    after.take(k as int).filter(|p: (Seq<char>, u16)| p.1 > 0)[q],
                ),
        decreases roles@.len() - k,
    {
        let count = match seat {
            Some(i) => if i == k && roles[k].1 > 0 {
                roles[k].1 - 1
            } else {
                roles[k].1
            },
            None => roles[k].1,
        };
        assert(after[k as int] == (views[k as int].0, count));
        let ghost prior = after.take(k as int).filter(|p: (Seq<char>, u16)| p.1 > 0);
        proof {
            reveal(Seq::filter);
            assert(after.take(k + 1).drop_last() =~= after.take(k as int));
        }
        if count > 0 {
            let index = slots.len();
            let role = roles[k].0.clone();
            let default = default_crew(role.as_str(), index + 1);
            slots.push(
                StartingCrewSlot {
                    slot_id: (index + 1) as u16,
                    role,
                    required: true,
                    represented_positions: count,
                    skill_pool: crew_skill_pool(),
                    default_crew: default,
                },
            );
            assert(after.take(k + 1).filter(|p: (Seq<char>, u16)| p.1 > 0) == prior.push(after[k as int]));
            assert forall|q: int| 0 <= q < slots@.len() implies slot_staffs(
                #[trigger] slots@[q],
                q,
                after.take(k + 1).filter(|p: (Seq<char>, u16)| p.1 > 0)[q],
            ) by {
                if q < index {
                }
            }
        } else {
            assert(after.take(k + 1).filter(|p: (Seq<char>, u16)| p.1 > 0) == prior);
        }
        k = k + 1;
    }
    assert(after.take(roles@.len() as int) =~= after);
    Some(StartingCrewPlan { setup_revision: SETUP_REVISION, starting_offer_id: offer_id, slots })
}

} // verus!
