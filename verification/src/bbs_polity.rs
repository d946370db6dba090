//! The home polity of a BBS: its capital, companions and cluster.

use vstd::prelude::*;

verus! {

pub const BBS_POLITY_GENERATION_VERSION: u16 = 3;
pub const BBS_COVERAGE_SAMPLER_VERSION: u16 = 1;
pub const BBS_POLITY_SYSTEM_COUNT: usize = 10;
pub const BBS_POLITY_MINIMUM_NEW_SYSTEMS: usize = 10;
pub const BBS_MAX_SEED_DRAWS_PER_ROLE: usize = 65_536;

#[derive(Clone, Debug, PartialEq, Eq)]
pub struct BbsHome {
    pub bbs_id: u32,
    pub polity_id: u64,
    pub capital_system_id: u64,
    pub capital_world_id: u64,
    pub companion_system_ids: [u64; 2],
    pub cluster_system_ids: [u64; 10],
    pub frontier_stub_system_id: u64,
    pub placement_seed: [u8; 32],
    pub generation_version: u16,
}

/// The greatest common divisor of two naturals, by Euclid's algorithm.
pub open spec fn gcd_spec(a: nat, b: nat) -> nat
    decreases b,
{
    if b == 0 {
        a
    } else {
        gcd_spec(b, a % b)
    }
}

pub open spec fn magnitude(x: i8) -> nat {
    if x < 0 {
        (-x) as nat
    } else {
        x as nat
    }
}

/// The greatest common divisor of the magnitudes of two direction steps.
pub fn gcd(left: i8, right: i8) -> (r: i8)
    requires
        left != i8::MIN,
        right != i8::MIN,
    ensures
        r == gcd_spec(magnitude(left), magnitude(right)),
{
    let mut a: i8 = if left < 0 {
        -left
    } else {
        left
    };
    let mut b: i8 = if right < 0 {
        -right
    } else {
        right
    };
    while b != 0
        invariant
            a >= 0,
            b >= 0,
            gcd_spec(a as nat, b as nat) == gcd_spec(magnitude(left), magnitude(right)),
        decreases b,
    {
        let remainder = a % b;
        a = b;
        b = remainder;
    }
    a
}

} // verus!
