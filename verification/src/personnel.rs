//! Cepheus Engine physical condition and the deliberately coarse ship-service
//! morale policy used by Cepheus Trader.

use vstd::prelude::*;
use crate::arith::{rotr, rotr_spec};
use crate::task_resolution::{characteristic_dm, characteristic_dm_spec};

verus! {

#[derive(Clone, Copy, Debug, PartialEq, Eq, Structural)]
pub struct PhysicalCondition {
    pub strength: u8,
    pub dexterity: u8,
    pub endurance: u8,
}

pub open spec fn is_dead(c: PhysicalCondition) -> bool {
    c.strength == 0 && c.dexterity == 0 && c.endurance == 0
}

pub open spec fn zero_count(c: PhysicalCondition) -> nat {
    (if c.strength == 0 { 1nat } else { 0nat }) + (if c.dexterity == 0 { 1nat } else { 0nat }) + (
    if c.endurance == 0 {
        1nat
    } else {
        0nat
    })
}

pub open spec fn is_seriously_wounded(c: PhysicalCondition, maximum: PhysicalCondition) -> bool {
    c.strength < maximum.strength && c.dexterity < maximum.dexterity && c.endurance
        < maximum.endurance
}

/// Characteristic points below the maximum, counting only shortfalls.
pub open spec fn missing_spec(c: PhysicalCondition, maximum: PhysicalCondition) -> nat {
    (if maximum.strength > c.strength { (maximum.strength - c.strength) as nat } else { 0nat }) + (
    if maximum.dexterity > c.dexterity {
        (maximum.dexterity - c.dexterity) as nat
    } else {
        0nat
    }) + (if maximum.endurance > c.endurance {
        (maximum.endurance - c.endurance) as nat
    } else {
        0nat
    })
}

/// The sum of the three physical characteristics.
pub open spec fn total_points(c: PhysicalCondition) -> nat {
    c.strength as nat + c.dexterity as nat + c.endurance as nat
}

impl PhysicalCondition {
    pub fn dead(self) -> (r: bool)
        ensures
            r == is_dead(self),
    {
        self.strength == 0 && self.dexterity == 0 && self.endurance == 0
    }

    /// Two or more characteristics at zero.
    pub fn unconscious(self) -> (r: bool)
        ensures
            r == (zero_count(self) >= 2),
    {
        let count: u8 = (if self.strength == 0 { 1u8 } else { 0u8 }) + (if self.dexterity == 0 {
            1u8
        } else {
            0u8
        }) + (if self.endurance == 0 {
            1u8
        } else {
            0u8
        });
        count >= 2
    }

    pub fn wounded(self, maximum: Self) -> (r: bool)
        ensures
            r == (self != maximum),
    {
        !(self.strength == maximum.strength && self.dexterity == maximum.dexterity
            && self.endurance == maximum.endurance)
    }

    pub fn seriously_wounded(self, maximum: Self) -> (r: bool)
        ensures
            r == is_seriously_wounded(self, maximum),
    {
        self.strength < maximum.strength && self.dexterity < maximum.dexterity && self.endurance
            < maximum.endurance
    }

    pub fn missing_points(self, maximum: Self) -> (r: u16)
        ensures
            r == missing_spec(self, maximum),
    {
        let s: u16 = if maximum.strength > self.strength {
            (maximum.strength - self.strength) as u16
        } else {
            0
        };
        let d: u16 = if maximum.dexterity > self.dexterity {
            (maximum.dexterity - self.dexterity) as u16
        } else {
            0
        };
        let e: u16 = if maximum.endurance > self.endurance {
            (maximum.endurance - self.endurance) as u16
        } else {
            0
        };
        s + d + e
    }
}

/// The characteristic that loses the next damage point: the largest
/// non-zero one, the earliest of equals (strength, dexterity, endurance).
pub open spec fn damage_target(c: PhysicalCondition) -> int {
    if c.strength != 0 && c.strength >= c.dexterity && c.strength >= c.endurance {
        0
    } else if c.dexterity != 0 && c.dexterity >= c.endurance {
        1
    } else if c.endurance != 0 {
        2
    } else {
        3
    }
}

pub open spec fn lower(c: PhysicalCondition, index: int) -> PhysicalCondition {
    if index == 0 {
        PhysicalCondition { strength: (c.strength - 1) as u8, ..c }
    } else if index == 1 {
        PhysicalCondition { dexterity: (c.dexterity - 1) as u8, ..c }
    } else {
        PhysicalCondition { endurance: (c.endurance - 1) as u8, ..c }
    }
}

/// Damage points spread one at a time until they run out or the person dies.
pub open spec fn spread_damage(c: PhysicalCondition, points: nat) -> PhysicalCondition
    decreases points,
{
    if points == 0 || is_dead(c) {
        c
    } else {
        spread_damage(lower(c, damage_target(c)), (points - 1) as nat)
    }
}

/// The outcome of `points` damage: an unhurt person first loses endurance,
/// then the remainder is spread.
pub open spec fn damage_spec(
    current: PhysicalCondition,
    maximum: PhysicalCondition,
    points: nat,
) -> PhysicalCondition {
    if current == maximum && points != 0 {
        let applied = if points <= current.endurance {
            points
        } else {
            current.endurance as nat
        };
        spread_damage(
            PhysicalCondition { endurance: (current.endurance - applied) as u8, ..current },
            (points - applied) as nat,
        )
    } else {
        spread_damage(current, points)
    }
}

proof fn lemma_spread_total(c: PhysicalCondition, points: nat)
    ensures
        total_points(spread_damage(c, points)) + (if points <= total_points(c) {
            points
        } else {
            total_points(c)
        }) == total_points(c),
    decreases points,
{
    if points > 0 && !is_dead(c) {
        lemma_spread_total(lower(c, damage_target(c)), (points - 1) as nat);
    }
}

/// Apply abstract damage using CE's mandatory first Endurance track and a
/// conservative automatic allocation thereafter. Starship casualty damage is
/// not an interactive personal-combat choice, so later points are spread to
/// preserve the greatest number of non-zero characteristics.
pub fn apply_damage(current: &mut PhysicalCondition, maximum: PhysicalCondition, points: u16)
    ensures
        *final(current) == damage_spec(*old(current), maximum, points as nat),
        total_points(*final(current)) + (if points <= total_points(*old(current)) {
            points as nat
        } else {
            total_points(*old(current))
        }) == total_points(*old(current)),
{
    let mut points = points;
    let ghost start = *current;
    let ghost total = points as nat;
    if *current == maximum && points != 0 {
        let applied: u16 = if points <= current.endurance as u16 {
            points
        } else {
            current.endurance as u16
        };
        current.endurance = current.endurance - applied as u8;
        points = points - applied;
    }
    let ghost middle = *current;
    let ghost middle_points = points as nat;
    assert(damage_spec(start, maximum, total) == spread_damage(middle, middle_points));
    proof {
        lemma_spread_total(middle, middle_points);
    }
    while points != 0 && !current.dead()
        invariant
            spread_damage(*current, points as nat) == spread_damage(middle, middle_points),
        decreases points,
    {
        let c = *current;
        if c.strength != 0 && c.strength >= c.dexterity && c.strength >= c.endurance {
            current.strength = current.strength - 1;
        } else if c.dexterity != 0 && c.dexterity >= c.endurance {
            current.dexterity = current.dexterity - 1;
        } else {
            current.endurance = current.endurance - 1;
        }
        assert(*current == lower(c, damage_target(c)));
        points = points - 1;
    }
}

/// The shortfall of characteristic `index` (0 strength, 1 dexterity, 2
/// endurance) against its maximum.
pub open spec fn shortfall(c: PhysicalCondition, maximum: PhysicalCondition, index: int) -> int {
    let (now, top) = if index == 0 {
        (c.strength, maximum.strength)
    } else if index == 1 {
        (c.dexterity, maximum.dexterity)
    } else {
        (c.endurance, maximum.endurance)
    };
    if top > now {
        top - now
    } else {
        0
    }
}

/// The least-damaged track: the smallest non-zero shortfall, endurance
/// before strength before dexterity among equals; 3 where none is short.
pub open spec fn restore_target(c: PhysicalCondition, maximum: PhysicalCondition) -> int {
    let ds = shortfall(c, maximum, 0);
    let dd = shortfall(c, maximum, 1);
    let de = shortfall(c, maximum, 2);
    if de != 0 && (ds == 0 || de <= ds) && (dd == 0 || de <= dd) {
        2
    } else if ds != 0 && (dd == 0 || ds <= dd) {
        0
    } else if dd != 0 {
        1
    } else {
        3
    }
}

/// Characteristic `index` raised by up to `points`, not past its maximum.
pub open spec fn fill(c: PhysicalCondition, maximum: PhysicalCondition, index: int, points: int) -> PhysicalCondition {
    let d = shortfall(c, maximum, index);
    let k = if points < d {
        points
    } else {
        d
    };
    if index == 0 {
        PhysicalCondition { strength: (c.strength + k) as u8, ..c }
    } else if index == 1 {
        PhysicalCondition { dexterity: (c.dexterity + k) as u8, ..c }
    } else if index == 2 {
        PhysicalCondition { endurance: (c.endurance + k) as u8, ..c }
    } else {
        c
    }
}

/// The points left after filling characteristic `index` from `points`.
pub open spec fn left_after(c: PhysicalCondition, maximum: PhysicalCondition, index: int, points: int) -> int {
    if index < 0 || index > 2 {
        points
    } else if points < shortfall(c, maximum, index) {
        0
    } else {
        points - shortfall(c, maximum, index)
    }
}

/// Points restored conservatively: the least-damaged track first, until it
/// is full or the points run out; then endurance, then strength, then
/// dexterity, each filled before the next.
pub open spec fn restore_spec(c: PhysicalCondition, maximum: PhysicalCondition, points: nat) -> PhysicalCondition {
    let first = restore_target(c, maximum);
    let c1 = fill(c, maximum, first, points as int);
    let p1 = left_after(c, maximum, first, points as int);
    let c2 = fill(c1, maximum, 2, p1);
    let p2 = left_after(c1, maximum, 2, p1);
    let c3 = fill(c2, maximum, 0, p2);
    let p3 = left_after(c2, maximum, 0, p2);
    fill(c3, maximum, 1, p3)
}

/// Raises characteristic `index` towards its maximum by up to `points`;
/// gives the points left.
fn fill_track(current: &mut PhysicalCondition, maximum: PhysicalCondition, index: u8, points: u16) -> (left: u16)
    ensures
        *final(current) == fill(*old(current), maximum, index as int, points as int),
        left == left_after(*old(current), maximum, index as int, points as int),
{
    let (now, top) = if index == 0 {
        (current.strength, maximum.strength)
    } else if index == 1 {
        (current.dexterity, maximum.dexterity)
    } else {
        (current.endurance, maximum.endurance)
    };
    let d: u16 = if top > now {
        (top - now) as u16
    } else {
        0
    };
    if index > 2 {
        return points;
    }
    let k: u16 = if points < d {
        points
    } else {
        d
    };
    if index == 0 {
        current.strength = current.strength + k as u8;
    } else if index == 1 {
        current.dexterity = current.dexterity + k as u8;
    } else {
        current.endurance = current.endurance + k as u8;
    }
    points - k
}

/// Restore points conservatively: first finish the least-damaged track so a
/// seriously wounded person leaves that state, then restore Endurance,
/// Strength, and Dexterity in that order.  Returns the points restored.
pub fn restore_points(
    current: &mut PhysicalCondition,
    maximum: PhysicalCondition,
    points: u16,
) -> (restored: u16)
    ensures
        *final(current) == restore_spec(*old(current), maximum, points as nat),
        restored == (if points <= missing_spec(*old(current), maximum) {
            points as nat
        } else {
            missing_spec(*old(current), maximum)
        }),
{
    let before = current.missing_points(maximum);
    let c = *current;
    let ds = if maximum.strength > c.strength { maximum.strength - c.strength } else { 0 };
    let dd = if maximum.dexterity > c.dexterity { maximum.dexterity - c.dexterity } else { 0 };
    let de = if maximum.endurance > c.endurance { maximum.endurance - c.endurance } else { 0 };
    let first: u8 = if de != 0 && (ds == 0 || de <= ds) && (dd == 0 || de <= dd) {
        2
    } else if ds != 0 && (dd == 0 || ds <= dd) {
        0
    } else if dd != 0 {
        1
    } else {
        3
    };
    assert(first == restore_target(c, maximum));
    let p1 = fill_track(current, maximum, first, points);
    let p2 = fill_track(current, maximum, 2, p1);
    let p3 = fill_track(current, maximum, 0, p2);
    let _ = fill_track(current, maximum, 1, p3);
    let after = current.missing_points(maximum);
    before - after
}

pub open spec fn natural_healing_spec(
    current: PhysicalCondition,
    maximum: PhysicalCondition,
    full_rest: bool,
    die: u8,
) -> int {
    let dm = characteristic_dm_spec(current.endurance) as int;
    if is_seriously_wounded(current, maximum) {
        if full_rest {
            dm
        } else {
            0
        }
    } else if full_rest {
        (if die < 1 {
            1
        } else if die > 6 {
            6
        } else {
            die as int
        }) + dm
    } else {
        1 + dm
    }
}

pub fn natural_healing_points(
    current: PhysicalCondition,
    maximum: PhysicalCondition,
    full_rest: bool,
    die: u8,
) -> (r: i16)
    ensures
        r == natural_healing_spec(current, maximum, full_rest, die),
{
    let endurance_dm = characteristic_dm(current.endurance) as i16;
    if current.seriously_wounded(maximum) {
        return if full_rest {
            endurance_dm
        } else {
            0
        };
    }
    if full_rest {
        let clamped: u8 = if die < 1 {
            1
        } else if die > 6 {
            6
        } else {
            die
        };
        clamped as i16 + endurance_dm
    } else {
        1 + endurance_dm
    }
}

pub fn medical_care_points(current_endurance: u8, medicine_level: i8) -> (r: i16)
    ensures
        r == 2 + characteristic_dm_spec(current_endurance) + medicine_level,
{
    2 + characteristic_dm(current_endurance) as i16 + medicine_level as i16
}

#[derive(Clone, Copy, Debug, PartialEq, Eq)]
pub struct StarvationCheck {
    pub first_die: u8,
    pub second_die: u8,
    pub total: i16,
    pub success: bool,
    pub damage: u8,
}

pub open spec fn entropy_die_spec(entropy: u64, shift: u32) -> u8 {
    ((rotr_spec(entropy, shift) % 6) + 1) as u8
}

fn entropy_die(entropy: u64, shift: u32) -> (r: u8)
    ensures
        r == entropy_die_spec(entropy, shift),
        1 <= r <= 6,
{
    ((rotr(entropy, shift) % 6) + 1) as u8
}

pub open spec fn starvation_spec(current_endurance: u8, previous_checks: u16, entropy: u64) -> StarvationCheck {
    let first = entropy_die_spec(entropy, 0);
    let second = entropy_die_spec(entropy ^ 0x9e37_79b9_7f4a_7c15u64, 29);
    let penalty: int = if previous_checks <= i16::MAX {
        previous_checks as int
    } else {
        i16::MAX as int
    };
    let total = first + second + characteristic_dm_spec(current_endurance) + 2 - penalty;
    let success = total >= 8;
    StarvationCheck {
        first_die: first,
        second_die: second,
        total: total as i16,
        success,
        damage: if success {
            0
        } else {
            entropy_die_spec(entropy ^ 0xd1b5_4a32_d192_ed03u64, 17)
        },
    }
}

/// Resolve the daily CE starvation check after the initial three days without
/// food. `previous_checks` is zero for the first check and supplies the
/// cumulative DM-1 on each later day. Water is handled separately by callers.
pub fn starvation_check(current_endurance: u8, previous_checks: u16, entropy: u64) -> (r: StarvationCheck)
    ensures
        r == starvation_spec(current_endurance, previous_checks, entropy),
        r.success <==> r.damage == 0,
        !r.success ==> 1 <= r.damage <= 6,
{
    let first_die = entropy_die(entropy, 0);
    let second_die = entropy_die(entropy ^ 0x9e37_79b9_7f4a_7c15u64, 29);
    let prior_penalty: i16 = if previous_checks <= 32767 {
        previous_checks as i16
    } else {
        i16::MAX
    };
    let total = first_die as i16 + second_die as i16 + characteristic_dm(current_endurance) as i16
        + 2 - prior_penalty;
    let success = total >= 8;
    let damage = if success {
        0
    } else {
        entropy_die(entropy ^ 0xd1b5_4a32_d192_ed03u64, 17)
    };
    StarvationCheck { first_die, second_die, total, success, damage }
}

#[derive(Clone, Copy, Debug, PartialEq, Eq, Structural)]
pub enum MoraleBand {
    Steady,
    Uneasy,
    Disaffected,
    Defiant,
    Broken,
}

pub open spec fn morale_band_spec(morale: u8) -> MoraleBand {
    if 60 <= morale <= 100 {
        MoraleBand::Steady
    } else if 40 <= morale <= 59 {
        MoraleBand::Uneasy
    } else if 20 <= morale <= 39 {
        MoraleBand::Disaffected
    } else if 1 <= morale <= 19 {
        MoraleBand::Defiant
    } else {
        MoraleBand::Broken
    }
}

pub fn morale_band(morale: u8) -> (r: MoraleBand)
    ensures
        r == morale_band_spec(morale),
{
    if 60 <= morale && morale <= 100 {
        MoraleBand::Steady
    } else if 40 <= morale && morale <= 59 {
        MoraleBand::Uneasy
    } else if 20 <= morale && morale <= 39 {
        MoraleBand::Disaffected
    } else if 1 <= morale && morale <= 19 {
        MoraleBand::Defiant
    } else {
        MoraleBand::Broken
    }
}

pub fn discretionary_morale_dm(morale: u8) -> (r: i8)
    ensures
        r == (match morale_band_spec(morale) {
            MoraleBand::Disaffected => -1i8,
            MoraleBand::Defiant | MoraleBand::Broken => -2i8,
            MoraleBand::Steady | MoraleBand::Uneasy => 0i8,
        }),
{
    match morale_band(morale) {
        MoraleBand::Disaffected => -1,
        MoraleBand::Defiant | MoraleBand::Broken => -2,
        MoraleBand::Steady | MoraleBand::Uneasy => 0,
    }
}

} // verus!
