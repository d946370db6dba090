//! Deterministic, setting-neutral names for materialized people.
//!
//! A name is one given name and one family name from a catalog, each picked
//! by a mixed hash of the person's entropy, a discriminator, the catalog's
//! revision and the generation version.

use vstd::prelude::*;
use vstd::string::StringExecFns;
use crate::arith::{mix64, mix64_spec, rotl, rotl_spec, wadd, wmul};

verus! {

pub const PERSON_NAME_GENERATION_VERSION: u16 = 1;

/// The names a person may be given, and the revision of that list.
pub struct PersonNameCatalog {
    pub revision: u64,
    pub given_names: Vec<String>,
    pub family_names: Vec<String>,
}

/// The SplitMix64 step: the golden-ratio increment, then the finaliser.
pub open spec fn person_mix(value: u64) -> u64 {
    mix64_spec(wadd(value, 0x9e37_79b9_7f4a_7c15u64))
}

/// The hash that both draws of a name start from.
pub open spec fn name_domain(entropy: u64, discriminator: u64, revision: u64) -> u64 {
    entropy ^ wmul(discriminator, 0x9e37_79b9_7f4a_7c15u64) ^ rotl_spec(revision, 29)
        ^ rotl_spec(PERSON_NAME_GENERATION_VERSION as u64, 47)
}

/// Draw of the given name.
pub open spec fn given_draw(domain: u64) -> u64 {
    person_mix(domain ^ 0x4749_5645_4e4e_414du64)
}

/// Draw of the family name.
pub open spec fn family_draw(domain: u64) -> u64 {
    person_mix(domain ^ 0x4641_4d49_4c59_4e4du64)
}

/// The name for the entropy and discriminator: the drawn given name, a
/// space, and the drawn family name.
pub open spec fn person_name_spec(
    entropy: u64,
    discriminator: u64,
    revision: u64,
    given: Seq<String>,
    family: Seq<String>,
) -> Seq<char> {
    let domain = name_domain(entropy, discriminator, revision);
    let g = (given_draw(domain) as usize) as int % (given.len() as int);
    let f = (family_draw(domain) as usize) as int % (family.len() as int);
    given[g]@ + " "@ + family[f]@
}

fn name_mix(value: u64) -> (r: u64)
    ensures
        r == person_mix(value),
{
    mix64(value.wrapping_add(0x9e37_79b9_7f4a_7c15u64))
}

pub fn generated_person_name(entropy: u64, discriminator: u64, catalog: &PersonNameCatalog) -> (r:
    String)
    requires
        catalog.given_names@.len() > 0,
        catalog.family_names@.len() > 0,
    ensures
        r@ == person_name_spec(
            entropy,
            discriminator,
            catalog.revision,
            catalog.given_names@,
            catalog.family_names@,
        ),
{
    let domain = entropy ^ discriminator.wrapping_mul(0x9e37_79b9_7f4a_7c15u64) ^ rotl(
        catalog.revision,
        29,
    ) ^ rotl(PERSON_NAME_GENERATION_VERSION as u64, 47);
    let given_draw = name_mix(domain ^ 0x4749_5645_4e4e_414du64);
    let family_draw = name_mix(domain ^ 0x4641_4d49_4c59_4e4du64);
    let given = &catalog.given_names[(given_draw as usize) % catalog.given_names.len()];
    let family = &catalog.family_names[(family_draw as usize) % catalog.family_names.len()];
    String::from_str(given.as_str()).concat(" ").concat(family.as_str())
}

} // verus!
