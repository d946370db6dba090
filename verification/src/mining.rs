//! Asteroid prospecting, extraction, and field-refining rules.
//!
//! This module contains only independently expressed game mechanics.  Lodes
//! are persistent resources; a captain's observation of one is separate from
//! the resource itself so discoveries can remain private without creating an
//! exclusive claim.

use vstd::prelude::*;
use crate::arith::{rotl, rotl_spec, sat_mul, sat_mul_spec, wmul};

verus! {

pub const WATCH_SECONDS: u64 = 21_600;
pub const DAY_SECONDS: u64 = 86_400;
pub const MAXIMUM_JUMP_SECONDS: u64 = 662_400;
pub const SAFE_MARGIN_SECONDS: u64 = 86_400;

#[derive(Clone, Copy, Debug, PartialEq, Eq, Structural)]
pub enum ResourceKind {
    Silicate,
    Carbonaceous,
    Metal,
    WaterIce,
    Hydrocarbons,
    Crystals,
    PreciousMetals,
    Radioactives,
}

/// The description of a resource kind.
pub open spec fn resource_label(kind: ResourceKind) -> Seq<char> {
    match kind {
        ResourceKind::Silicate => "silicate and industrial minerals"@,
        ResourceKind::Carbonaceous => "carbonaceous material"@,
        ResourceKind::Metal => "metal-bearing ore"@,
        ResourceKind::WaterIce => "water ice"@,
        ResourceKind::Hydrocarbons => "hydrocarbon-bearing material"@,
        ResourceKind::Crystals => "gem and crystal material"@,
        ResourceKind::PreciousMetals => "precious-metal ore"@,
        ResourceKind::Radioactives => "radioactive ore"@,
    }
}

impl ResourceKind {
    pub fn label(self) -> (r: &'static str)
        ensures
            r@ == resource_label(self),
    {
        match self {
            Self::Silicate => "silicate and industrial minerals",
            Self::Carbonaceous => "carbonaceous material",
            Self::Metal => "metal-bearing ore",
            Self::WaterIce => "water ice",
            Self::Hydrocarbons => "hydrocarbon-bearing material",
            Self::Crystals => "gem and crystal material",
            Self::PreciousMetals => "precious-metal ore",
            Self::Radioactives => "radioactive ore",
        }
    }

    /// Existing trade-good IDs; an unrefined operation always uses ID 6.
    pub fn refined_commodity_id(self) -> (r: u16)
        ensures
            r == refined_commodity_spec(self),
    {
        match self {
            Self::Silicate | Self::Carbonaceous => 5,
            Self::Metal => 40,
            Self::WaterIce => 5,
            Self::Hydrocarbons => 30,
            Self::Crystals => 17,
            Self::PreciousMetals => 33,
            Self::Radioactives => 34,
        }
    }
}

pub open spec fn refined_commodity_spec(kind: ResourceKind) -> u16 {
    match kind {
        ResourceKind::Silicate | ResourceKind::Carbonaceous | ResourceKind::WaterIce => 5,
        ResourceKind::Metal => 40,
        ResourceKind::Hydrocarbons => 30,
        ResourceKind::Crystals => 17,
        ResourceKind::PreciousMetals => 33,
        ResourceKind::Radioactives => 34,
    }
}

#[derive(Clone, Copy, Debug, PartialEq, Eq)]
pub struct BeltComposition {
    pub icy: bool,
    pub carbonaceous_percent: u8,
    pub silicate_or_rock_percent: u8,
    pub metal_or_water_ice_percent: u8,
    pub hydrocarbon_percent: u8,
}

#[derive(Clone, Copy, Debug, PartialEq, Eq)]
pub struct LodeProfile {
    pub kind: ResourceKind,
    /// Feedstock still in place, measured in millitons.
    pub remaining_raw_millitons: u64,
    /// Saleable fraction of extracted feedstock, in whole percent.
    pub grade_percent: u8,
}

pub open spec fn die_spec(entropy: u64, shift: u32) -> u8 {
    (((rotl_spec(entropy, shift) ^ wmul(entropy, 0x9e37_79b9_7f4a_7c15u64)) % 6) + 1) as u8
}

fn die(entropy: u64, shift: u32) -> (r: u8)
    ensures
        r == die_spec(entropy, shift),
        1 <= r <= 6,
{
    (((rotl(entropy, shift) ^ entropy.wrapping_mul(0x9e37_79b9_7f4a_7c15u64)) % 6) + 1) as u8
}

pub open spec fn sat_add_u8(a: u8, b: u8) -> u8 {
    if a + b > 255 {
        255
    } else {
        (a + b) as u8
    }
}

/// The resource drawn from the belt composition before any exceptional find.
pub open spec fn belt_resource(selector: u8, belt: BeltComposition) -> ResourceKind {
    let carbon_end = belt.carbonaceous_percent;
    let silicate_end = sat_add_u8(carbon_end, belt.silicate_or_rock_percent);
    let metal_end = sat_add_u8(silicate_end, belt.metal_or_water_ice_percent);
    let hydrocarbon_end = sat_add_u8(metal_end, belt.hydrocarbon_percent);
    if selector < carbon_end {
        ResourceKind::Carbonaceous
    } else if selector < silicate_end {
        ResourceKind::Silicate
    } else if selector < hydrocarbon_end && selector >= metal_end {
        ResourceKind::Hydrocarbons
    } else if belt.icy {
        ResourceKind::WaterIce
    } else {
        ResourceKind::Metal
    }
}

/// The tons of a lode for each 2D6 total from 2 to 12.
pub open spec fn extent_tons_spec(two_d6: int) -> u64 {
    if two_d6 <= 2 {
        10
    } else if two_d6 == 3 {
        30
    } else if two_d6 == 4 {
        100
    } else if two_d6 == 5 {
        300
    } else if two_d6 == 6 {
        1_000
    } else if two_d6 == 7 {
        3_000
    } else if two_d6 == 8 {
        10_000
    } else if two_d6 == 9 {
        30_000
    } else if two_d6 == 10 {
        100_000
    } else if two_d6 == 11 {
        300_000
    } else {
        1_000_000
    }
}

pub open spec fn prospect_spec(entropy: u64, belt: BeltComposition, exceptional: bool) -> LodeProfile {
    let ordinary = belt_resource((entropy % 100) as u8, belt);
    let kind = if exceptional {
        let roll = die_spec(entropy, 19);
        if roll == 1 {
            ResourceKind::Crystals
        } else if roll == 2 {
            ResourceKind::PreciousMetals
        } else if roll == 3 {
            ResourceKind::Radioactives
        } else {
            ordinary
        }
    } else {
        ordinary
    };
    let grade: int = match kind {
        ResourceKind::Crystals | ResourceKind::PreciousMetals => 2 * die_spec(entropy, 43),
        ResourceKind::Radioactives => die_spec(entropy, 43) as int,
        _ => 5 * (die_spec(entropy, 43) + die_spec(entropy, 53)),
    };
    LodeProfile {
        kind,
        remaining_raw_millitons: (extent_tons_spec(die_spec(entropy, 7) + die_spec(entropy, 31)) * 1000) as u64,
        grade_percent: grade as u8,
    }
}

/// A higher extent roll never gives a smaller lode: the tons grow with the
/// 2D6 total, from 10 tons at 2 or less to a million tons at 12 or more,
/// each step of the ladder about three times the one before.
pub proof fn lemma_extent_grows_with_roll(a: int, b: int)
    ensures
        a <= b ==> extent_tons_spec(a) <= extent_tons_spec(b),
        a <= 2 ==> extent_tons_spec(a) == 10,
        a >= 12 ==> extent_tons_spec(a) == 1_000_000,
        3 <= a <= 12 ==> 3 * extent_tons_spec(a - 1) <= extent_tons_spec(a) <= 10 * extent_tons_spec(a - 1),
{
}

/// A lode's grade by its resource: twice one die for crystals and precious
/// metals, one die for radioactives, and five times two dice for anything
/// else; so between 1% and 60%.
pub proof fn lemma_grade_by_resource(entropy: u64, belt: BeltComposition, exceptional: bool)
    ensures
        ({
            let lode = prospect_spec(entropy, belt, exceptional);
            let d1 = die_spec(entropy, 43) as int;
            let d2 = die_spec(entropy, 53) as int;
            &&& (lode.kind == ResourceKind::Crystals || lode.kind == ResourceKind::PreciousMetals)
                ==> lode.grade_percent == 2 * d1
            &&& lode.kind == ResourceKind::Radioactives ==> lode.grade_percent == d1
            &&& !(lode.kind == ResourceKind::Crystals || lode.kind == ResourceKind::PreciousMetals
                || lode.kind == ResourceKind::Radioactives) ==> lode.grade_percent == 5 * (d1 + d2)
        }),
{
    assert(1 <= die_spec(entropy, 43) <= 6);
    assert(1 <= die_spec(entropy, 53) <= 6);
}

/// `a + b`, at most 255.
pub open spec fn capped_sum(a: int, b: int) -> int {
    if a + b > 255 {
        255
    } else {
        a + b
    }
}

/// An ordinary prospect draws its resource by where `entropy % 100` falls in
/// the belt's bands, laid end to end (each end at most 255): carbonaceous,
/// then silicate or rock, then metal or water ice (water ice exactly when the
/// belt is icy), then hydrocarbons; past them all, water ice for an icy
/// belt and metal otherwise.  An exceptional find is crystals, precious
/// metals or radioactives, or else the ordinary resource.
pub proof fn lemma_prospect_follows_the_bands(entropy: u64, belt: BeltComposition, exceptional: bool)
    ensures
        ({
            let s = (entropy % 100) as int;
            let carbon = belt.carbonaceous_percent as int;
            let silicate = capped_sum(carbon, belt.silicate_or_rock_percent as int);
            let metal = capped_sum(silicate, belt.metal_or_water_ice_percent as int);
            let hydrocarbon = capped_sum(metal, belt.hydrocarbon_percent as int);
            let kind = prospect_spec(entropy, belt, exceptional).kind;
            let ordinary = prospect_spec(entropy, belt, false).kind;
            &&& s < carbon ==> ordinary == ResourceKind::Carbonaceous
            &&& carbon <= s < silicate ==> ordinary == ResourceKind::Silicate
            &&& silicate <= s < metal ==> (ordinary == ResourceKind::WaterIce <==> belt.icy) && (ordinary
                == ResourceKind::Metal <==> !belt.icy)
            &&& silicate <= s && metal <= s < hydrocarbon ==> ordinary == ResourceKind::Hydrocarbons
            &&& silicate <= s && hydrocarbon <= s ==> (ordinary == ResourceKind::WaterIce <==> belt.icy) && (
            ordinary == ResourceKind::Metal <==> !belt.icy)
            &&& !exceptional ==> kind == ordinary
            &&& exceptional ==> kind == ordinary || kind == ResourceKind::Crystals || kind
                == ResourceKind::PreciousMetals || kind == ResourceKind::Radioactives
        }),
{
}

/// Creates a stable lode profile from server entropy and the generated belt
/// composition.  The extent ladder deliberately spans hand-workable finds to
/// deposits which can support years of traffic.
pub fn prospect(entropy: u64, belt: BeltComposition, exceptional: bool) -> (r: LodeProfile)
    ensures
        r == prospect_spec(entropy, belt, exceptional),
        1 <= r.grade_percent <= 60,
        10_000 <= r.remaining_raw_millitons <= 1_000_000_000,
{
    let selector = (entropy % 100) as u8;
    let carbon_end = belt.carbonaceous_percent;
    let silicate_end = carbon_end.saturating_add(belt.silicate_or_rock_percent);
    let metal_end = silicate_end.saturating_add(belt.metal_or_water_ice_percent);
    let hydrocarbon_end = metal_end.saturating_add(belt.hydrocarbon_percent);
    let mut kind = if selector < carbon_end {
        ResourceKind::Carbonaceous
    } else if selector < silicate_end {
        ResourceKind::Silicate
    } else if selector < metal_end {
        if belt.icy {
            ResourceKind::WaterIce
        } else {
            ResourceKind::Metal
        }
    } else if selector < hydrocarbon_end {
        ResourceKind::Hydrocarbons
    } else if belt.icy {
        ResourceKind::WaterIce
    } else {
        ResourceKind::Metal
    };
    if exceptional {
        kind = match die(entropy, 19) {
            1 => ResourceKind::Crystals,
            2 => ResourceKind::PreciousMetals,
            3 => ResourceKind::Radioactives,
            _ => kind,
        };
    }
    let extent_tons: [u64; 11] = [
        10, 30, 100, 300, 1_000, 3_000, 10_000, 30_000, 100_000, 300_000, 1_000_000,
    ];
    let two_d6 = (die(entropy, 7) + die(entropy, 31)) as usize;
    let index: usize = if two_d6 < 2 {
        0
    } else if two_d6 - 2 > 10 {
        10
    } else {
        two_d6 - 2
    };
    let grade_percent = match kind {
        ResourceKind::Crystals | ResourceKind::PreciousMetals => 2 * die(entropy, 43),
        ResourceKind::Radioactives => die(entropy, 43),
        _ => 5 * (die(entropy, 43) + die(entropy, 53)),
    };
    let r = LodeProfile {
        kind,
        remaining_raw_millitons: extent_tons[index] * 1_000,
        grade_percent,
    };
    assert(extent_tons@[index as int] == extent_tons_spec(two_d6 as int));
    r
}

/// One installed mining-drone set handles 1D6×10 tons of feedstock per day.
pub fn daily_drone_capacity_millitons(drone_sets: u32, roll: u8) -> (r: u64)
    ensures
        r == sat_mul_spec(
            sat_mul_spec(
                drone_sets as u64,
                if roll < 1 {
                    1u64
                } else if roll > 6 {
                    6u64
                } else {
                    roll as u64
                },
            ),
            10_000,
        ),
{
    let clamped: u64 = if roll < 1 {
        1
    } else if roll > 6 {
        6
    } else {
        roll as u64
    };
    sat_mul(sat_mul(drone_sets as u64, clamped), 10_000)
}

pub fn refined_output_millitons(raw_millitons: u64, grade_percent: u8, refinery_cap: u64) -> (r: u64)
    ensures
        r == (if sat_mul_spec(raw_millitons, grade_percent as u64) / 100 <= refinery_cap {
            sat_mul_spec(raw_millitons, grade_percent as u64) / 100
        } else {
            refinery_cap
        }),
{
    let output = sat_mul(raw_millitons, grade_percent as u64) / 100;
    if output <= refinery_cap {
        output
    } else {
        refinery_cap
    }
}

/// Fuel needed to run the power plant for a duration, rounded up so a ship can
/// never gain endurance from repeated settlement.
/// The power fuel burnt over a duration: none for no time or no tankage,
/// the whole tankage where the endurance is zero, else the tankage's share
/// of the duration over the endurance, rounded up and saturated.
pub open spec fn power_fuel_spec(capacity: u64, endurance: u64, duration: u64) -> int {
    if duration == 0 || capacity == 0 {
        0
    } else if endurance == 0 {
        capacity as int
    } else {
        let needed = (capacity * duration + endurance - 1) / endurance as int;
        if needed <= u64::MAX {
            needed
        } else {
            u64::MAX as int
        }
    }
}

proof fn lemma_ceil_subadditive(x1: int, x2: int, e: int)
    requires
        x1 >= 0,
        x2 >= 0,
        e > 0,
    ensures
        (x1 + e - 1) / e + (x2 + e - 1) / e >= (x1 + x2 + e - 1) / e,
{
    let q1 = (x1 + e - 1) / e;
    let q2 = (x2 + e - 1) / e;
    let q = (x1 + x2 + e - 1) / e;
    assert(q1 * e >= x1) by (nonlinear_arith)
        requires
            q1 == (x1 + e - 1) / e,
            e > 0,
    ;
    assert(q2 * e >= x2) by (nonlinear_arith)
        requires
            q2 == (x2 + e - 1) / e,
            e > 0,
    ;
    assert(q * e <= x1 + x2 + e - 1) by (nonlinear_arith)
        requires
            q == (x1 + x2 + e - 1) / e,
            e > 0,
    ;
    assert(q <= q1 + q2) by (nonlinear_arith)
        requires
            q * e <= x1 + x2 + e - 1,
            q1 * e >= x1,
            q2 * e >= x2,
            e > 0,
    ;
}

/// Settling the power fuel of two stretches separately never costs less
/// than settling their sum at once.
pub proof fn lemma_fuel_in_parts_costs_no_less(capacity: u64, endurance: u64, first: u64, second: u64)
    requires
        first + second <= u64::MAX,
    ensures
        power_fuel_spec(capacity, endurance, first) + power_fuel_spec(capacity, endurance, second)
            >= power_fuel_spec(capacity, endurance, (first + second) as u64),
{
    let total = (first + second) as u64;
    if first != 0 && second != 0 && capacity != 0 && endurance != 0 {
        let x1 = capacity * first;
        let x2 = capacity * second;
        assert(capacity * total == x1 + x2) by (nonlinear_arith)
            requires
                x1 == capacity * first,
                x2 == capacity * second,
                total == first + second,
        ;
        assert(x1 >= 0 && x2 >= 0) by (nonlinear_arith)
            requires
                x1 == capacity * first,
                x2 == capacity * second,
        ;
        lemma_ceil_subadditive(x1, x2, endurance as int);
    }
}

pub fn power_fuel_for_duration(
    power_fuel_capacity_millitons: u64,
    endurance_seconds: u64,
    duration_seconds: u64,
) -> (r: u64)
    ensures
        r == power_fuel_spec(power_fuel_capacity_millitons, endurance_seconds, duration_seconds),
        duration_seconds == 0 || power_fuel_capacity_millitons == 0 ==> r == 0,
        duration_seconds != 0 && power_fuel_capacity_millitons != 0 && endurance_seconds == 0 ==> r
            == power_fuel_capacity_millitons,
        duration_seconds != 0 && power_fuel_capacity_millitons != 0 && endurance_seconds != 0 ==> ({
            let needed = (power_fuel_capacity_millitons * duration_seconds + endurance_seconds - 1)
                / endurance_seconds as int;
            r == if needed <= u64::MAX {
                needed
            } else {
                u64::MAX as int
            }
        }),
{
    if duration_seconds == 0 || power_fuel_capacity_millitons == 0 {
        return 0;
    }
    if endurance_seconds == 0 {
        return power_fuel_capacity_millitons;
    }
    proof {
        assert(power_fuel_capacity_millitons as int * duration_seconds as int
            <= 0xffff_ffff_ffff_ffff * 0xffff_ffff_ffff_ffff) by (nonlinear_arith)
            requires
                power_fuel_capacity_millitons <= 0xffff_ffff_ffff_ffffu64,
                duration_seconds <= 0xffff_ffff_ffff_ffffu64,
        ;
    }
    let numerator = power_fuel_capacity_millitons as u128 * duration_seconds as u128;
    let needed = (numerator + endurance_seconds as u128 - 1) / endurance_seconds as u128;
    if needed <= u64::MAX as u128 {
        needed as u64
    } else {
        u64::MAX
    }
}

} // verus!
