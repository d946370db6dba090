use cepheus_trader::celestial::{
    atmosphere_for_rolls, derived_world_id, hydrographics_for_roll, quirk_code, quirk_count,
    rocky_class_for_roll, secondary_starport_for_roll, size_for_roll, OrbitalZone,
    RockyPlanetClass,
};
use cepheus_trader::universe::Starport;

#[test]
fn size_follows_each_class_table() {
    assert_eq!(size_for_roll(RockyPlanetClass::Dwarf, 1), 1);
    assert_eq!(size_for_roll(RockyPlanetClass::Dwarf, 4), 0);
    assert_eq!(size_for_roll(RockyPlanetClass::Mercurian, 3), 3);
    assert_eq!(size_for_roll(RockyPlanetClass::Mercurian, 6), 2);
    assert_eq!(size_for_roll(RockyPlanetClass::Subterran, 1), 4);
    assert_eq!(size_for_roll(RockyPlanetClass::Subterran, 6), 6);
    assert_eq!(size_for_roll(RockyPlanetClass::Terran, 5), 7);
    assert_eq!(size_for_roll(RockyPlanetClass::Terran, 6), 8);
    assert_eq!(size_for_roll(RockyPlanetClass::Terran, 12), 9);
    assert_eq!(size_for_roll(RockyPlanetClass::Superterran, 2), 10);
    assert_eq!(size_for_roll(RockyPlanetClass::Superterran, 9), 13);
    assert_eq!(size_for_roll(RockyPlanetClass::Superterran, 10), 14);
    assert_eq!(size_for_roll(RockyPlanetClass::Superterran, 20), 24);
}

#[test]
fn atmosphere_follows_class_and_zone() {
    let terran = RockyPlanetClass::Terran;
    assert_eq!(atmosphere_for_rolls(terran, OrbitalZone::Habitable, 8, 7, 1), 6);
    assert_eq!(atmosphere_for_rolls(terran, OrbitalZone::Habitable, 8, 12, 1), 12);
    assert_eq!(atmosphere_for_rolls(terran, OrbitalZone::Inner, 8, 10, 1), 10);
    assert_eq!(atmosphere_for_rolls(terran, OrbitalZone::Outer, 8, 7, 3), 10);
    assert_eq!(atmosphere_for_rolls(terran, OrbitalZone::Outer, 8, 7, 6), 13);
    let mercurian = RockyPlanetClass::Mercurian;
    assert_eq!(atmosphere_for_rolls(mercurian, OrbitalZone::Inner, 2, 6, 1), 3);
    assert_eq!(atmosphere_for_rolls(mercurian, OrbitalZone::Outer, 2, 6, 1), 4);
    assert_eq!(atmosphere_for_rolls(mercurian, OrbitalZone::Inner, 2, 2, 1), 0);
    assert_eq!(atmosphere_for_rolls(RockyPlanetClass::Dwarf, OrbitalZone::Inner, 0, 3, 1), 1);
    assert_eq!(atmosphere_for_rolls(RockyPlanetClass::Subterran, OrbitalZone::Habitable, 5, 4, 1), 4);
    let superterran = RockyPlanetClass::Superterran;
    assert_eq!(atmosphere_for_rolls(superterran, OrbitalZone::Outer, 12, 1, 1), 14);
    assert_eq!(atmosphere_for_rolls(superterran, OrbitalZone::Outer, 15, 1, 1), 10);
    assert_eq!(atmosphere_for_rolls(superterran, OrbitalZone::Habitable, 12, 2, 1), 6);
    assert_eq!(atmosphere_for_rolls(superterran, OrbitalZone::Habitable, 20, 20, 1), 13);
    assert_eq!(atmosphere_for_rolls(superterran, OrbitalZone::Habitable, 15, 8, 1), 14);
}

#[test]
fn hydrographics_follow_zone_and_atmosphere() {
    let terran = RockyPlanetClass::Terran;
    assert_eq!(hydrographics_for_roll(RockyPlanetClass::Dwarf, OrbitalZone::Inner, 6, 1, 6), 0);
    assert_eq!(hydrographics_for_roll(terran, OrbitalZone::Outer, 10, 8, 3), 4);
    assert_eq!(hydrographics_for_roll(RockyPlanetClass::Superterran, OrbitalZone::Outer, 10, 15, 6), 10);
    assert_eq!(hydrographics_for_roll(terran, OrbitalZone::Habitable, 3, 8, 6), 0);
    assert_eq!(hydrographics_for_roll(terran, OrbitalZone::Habitable, 10, 8, 6), 0);
    assert_eq!(hydrographics_for_roll(terran, OrbitalZone::Habitable, 6, 8, 6), 2);
    assert_eq!(hydrographics_for_roll(terran, OrbitalZone::Habitable, 7, 8, 6), 2);
    assert_eq!(hydrographics_for_roll(terran, OrbitalZone::Habitable, 5, 8, 1), 0);
}

#[test]
fn secondary_starports_never_beat_the_best() {
    assert_eq!(secondary_starport_for_roll(4, 0, Starport::A, 12), Starport::X);
    assert_eq!(secondary_starport_for_roll(0, 5, Starport::A, 12), Starport::X);
    assert_eq!(secondary_starport_for_roll(1, 5, Starport::A, 2), Starport::C);
    assert_eq!(secondary_starport_for_roll(6, 5, Starport::D, 2), Starport::D);
    assert_eq!(secondary_starport_for_roll(9, 5, Starport::B, 2), Starport::C);
    assert_eq!(secondary_starport_for_roll(9, 5, Starport::X, 2), Starport::X);
    assert_eq!(secondary_starport_for_roll(4, 6, Starport::B, 12), Starport::B);
    assert_eq!(secondary_starport_for_roll(4, 6, Starport::A, 8), Starport::C);
    assert_eq!(secondary_starport_for_roll(4, 1, Starport::A, 2), Starport::X);
}

#[test]
fn derived_world_ids_and_quirks() {
    assert_eq!(derived_world_id(3, 2), 3 * 65_536 + 2);
    assert_eq!(quirk_count(2), 0);
    assert_eq!(quirk_count(6), 3);
    assert_eq!(quirk_code(2, 6), None);
    assert_eq!(quirk_code(3, 2), None);
    assert_eq!(quirk_code(6, 6), Some(66));
    assert_eq!(quirk_code(1, 1), Some(11));
}

#[test]
fn rocky_classes_follow_the_zone_tables() {
    assert_eq!(rocky_class_for_roll(OrbitalZone::Inner, 4), RockyPlanetClass::Dwarf);
    assert_eq!(rocky_class_for_roll(OrbitalZone::Inner, 9), RockyPlanetClass::Subterran);
    assert_eq!(rocky_class_for_roll(OrbitalZone::Inner, 12), RockyPlanetClass::Superterran);
    assert_eq!(rocky_class_for_roll(OrbitalZone::Habitable, 3), RockyPlanetClass::Mercurian);
    assert_eq!(rocky_class_for_roll(OrbitalZone::Habitable, 7), RockyPlanetClass::Terran);
    assert_eq!(rocky_class_for_roll(OrbitalZone::Outer, 10), RockyPlanetClass::Subterran);
    assert_eq!(rocky_class_for_roll(OrbitalZone::Outer, 11), RockyPlanetClass::Terran);
}
