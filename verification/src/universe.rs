//! The world profile that the trade, career, and construction rules read.

use vstd::prelude::*;

verus! {

pub const SOL_SYSTEM_ID: u64 = 1;
pub const EARTH_WORLD_ID: u64 = 1;

/// Starport classes, best first.
#[derive(Clone, Copy, Debug, PartialEq, Eq, Structural)]
pub enum Starport {
    A,
    B,
    C,
    D,
    E,
    X,
}

/// A world's universal profile.
#[derive(Clone, Debug)]
pub struct World {
    pub id: u64,
    pub system_id: u64,
    pub name: String,
    pub starport: Starport,
    pub size: u8,
    pub atmosphere: u8,
    pub hydrographics: u8,
    pub population: u8,
    pub population_multiplier: u8,
    pub government: u8,
    pub law_level: u8,
    pub tech_level: u8,
    pub planetoid_belts: u8,
    pub gas_giants: u8,
}

/// Agricultural: atmosphere 4-9, hydrographics 4-8, population 5-7.
pub open spec fn agricultural(w: World) -> bool {
    4 <= w.atmosphere <= 9 && 4 <= w.hydrographics <= 8 && 5 <= w.population <= 7
}

/// Industrial: atmosphere 0, 1, 2, 4, 7 or 9 and population 9 or more.
pub open spec fn industrial(w: World) -> bool {
    (w.atmosphere <= 2 || w.atmosphere == 4 || w.atmosphere == 7 || w.atmosphere == 9)
        && w.population >= 9
}

impl World {
    pub fn is_agricultural(&self) -> (r: bool)
        ensures
            r == agricultural(*self),
    {
        4 <= self.atmosphere && self.atmosphere <= 9 && 4 <= self.hydrographics
            && self.hydrographics <= 8 && 5 <= self.population && self.population <= 7
    }

    pub fn is_industrial(&self) -> (r: bool)
        ensures
            r == industrial(*self),
    {
        (self.atmosphere <= 2 || self.atmosphere == 4 || self.atmosphere == 7
            || self.atmosphere == 9) && self.population >= 9
    }
}

} // verus!
