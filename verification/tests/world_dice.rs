use cepheus_trader::celestial::{
    belt_world, generate_quirks, roll_atmosphere, roll_hydrographics, roll_rocky_class, roll_size,
    secondary_starport, secondary_world, Dice, OrbitalZone, RockyPlanetClass,
};
use cepheus_trader::universe::{Starport, World};

fn dice(seed: u8, label: &[u8]) -> Dice {
    match Dice::from_label([seed; 32], label) {
        Ok(d) => d,
        Err(_) => panic!("the keyed hash cannot fail"),
    }
}

fn main_world(tech_level: u8, starport: Starport) -> World {
    World {
        id: 7,
        system_id: 7,
        name: String::from("Regina"),
        starport,
        size: 7,
        atmosphere: 6,
        hydrographics: 5,
        population: 8,
        population_multiplier: 3,
        government: 4,
        law_level: 4,
        tech_level,
        planetoid_belts: 1,
        gas_giants: 2,
    }
}

#[test]
fn dice_read_the_derived_stream_byte_by_byte() {
    let mut d = dice(0, b"test/dice");
    let bytes: Vec<u8> = (0..40).map(|_| d.byte().ok().unwrap()).collect();
    assert_eq!(&bytes[..8], &[193, 200, 43, 65, 240, 240, 18, 136]);
    assert_eq!(&bytes[30..40], &[14, 227, 120, 70, 190, 108, 182, 25, 93, 173]);
}

#[test]
fn dice_reject_bytes_past_the_largest_multiple() {
    let mut d = dice(0, b"test/dice");
    let rolls: Vec<u8> = (0..8).map(|_| d.d6().ok().unwrap()).collect();
    assert_eq!(rolls, vec![2, 3, 2, 6, 1, 1, 1, 5]);
    let mut d = dice(0, b"test/dice");
    assert_eq!(d.roll(2, 6).ok(), Some(5));
    assert_eq!(d.roll(2, 10).ok(), Some(10));
    assert_eq!(d.d10().ok(), Some(1));
    assert_eq!(d.roll(3, 6).ok(), Some(7));
}

#[test]
fn percentile_rolls_read_tens_then_units() {
    let mut d = dice(0, b"test/dice");
    let rolls: Vec<u8> = (0..6).map(|_| d.d100().ok().unwrap()).collect();
    assert_eq!(rolls, vec![31, 36, 1, 87, 29, 89]);
    assert!(rolls.iter().all(|&v| (1..=100).contains(&v)));
}

#[test]
fn quirks_are_reproducible_from_the_seed() {
    let expected: [&[u8]; 12] = [
        &[61, 31],
        &[53, 24],
        &[],
        &[46, 41],
        &[56],
        &[],
        &[15, 46, 33],
        &[41, 16],
        &[35, 54],
        &[11],
        &[],
        &[36, 43],
    ];
    for (seed, quirks) in expected.iter().enumerate() {
        let generated = generate_quirks([seed as u8; 32]).ok().unwrap();
        assert_eq!(generated.as_slice(), *quirks);
        assert!(generated.iter().all(|&code| code != 26 && code != 32));
    }
}

#[test]
fn rolled_world_codes_follow_the_tables() {
    let sizes = [
        (RockyPlanetClass::Dwarf, 1),
        (RockyPlanetClass::Mercurian, 3),
        (RockyPlanetClass::Subterran, 4),
        (RockyPlanetClass::Terran, 7),
        (RockyPlanetClass::Superterran, 17),
    ];
    for (class, size) in sizes {
        assert_eq!(roll_size(class, &mut dice(3, b"test/size")).ok(), Some(size));
    }
    let atmospheres = [
        (RockyPlanetClass::Terran, OrbitalZone::Outer, 8, 1),
        (RockyPlanetClass::Terran, OrbitalZone::Habitable, 8, 6),
        (RockyPlanetClass::Superterran, OrbitalZone::Habitable, 15, 14),
        (RockyPlanetClass::Mercurian, OrbitalZone::Inner, 2, 0),
    ];
    for (class, zone, size, atmosphere) in atmospheres {
        let mut d = dice(3, b"test/atmosphere");
        assert_eq!(roll_atmosphere(class, zone, size, &mut d).ok(), Some(atmosphere));
    }
    let mut d = dice(3, b"test/hydro");
    assert_eq!(
        roll_hydrographics(RockyPlanetClass::Terran, OrbitalZone::Habitable, 6, 8, &mut d).ok(),
        Some(0)
    );
    let mut d = dice(3, b"test/hydro");
    assert_eq!(
        roll_hydrographics(RockyPlanetClass::Terran, OrbitalZone::Outer, 10, 8, &mut d).ok(),
        Some(2)
    );
    let mut d = dice(3, b"test/port");
    assert_eq!(secondary_starport(4, 6, Starport::B, &mut d).ok(), Some(Starport::E));
    let mut d = dice(3, b"test/port");
    assert_eq!(secondary_starport(4, 3, Starport::A, &mut d).ok(), Some(Starport::X));
    let mut d = dice(3, b"test/port");
    assert_eq!(secondary_starport(9, 3, Starport::B, &mut d).ok(), Some(Starport::C));
    let mut d = dice(3, b"test/size");
    assert_eq!(roll_rocky_class(OrbitalZone::Habitable, &mut d).ok(), Some(RockyPlanetClass::Mercurian));
    let mut d = dice(3, b"test/size");
    assert_eq!(roll_rocky_class(OrbitalZone::Outer, &mut d).ok(), Some(RockyPlanetClass::Dwarf));
}

#[test]
fn secondary_worlds_roll_every_code_in_order() {
    let main = main_world(12, Starport::B);
    let mut d = dice(3, b"test/world/1");
    let w = secondary_world(7, "Regina", 2, RockyPlanetClass::Terran, OrbitalZone::Habitable, &main, &mut d)
        .ok()
        .unwrap();
    assert_eq!(w.id, 7 * 65_536 + 2);
    assert_eq!(w.system_id, 7);
    assert_eq!(w.name, "Regina 2");
    assert_eq!(w.starport, Starport::X);
    assert_eq!((w.size, w.atmosphere, w.hydrographics), (8, 6, 2));
    assert_eq!((w.population, w.population_multiplier, w.government, w.law_level), (1, 9, 0, 0));
    assert_eq!((w.tech_level, w.planetoid_belts, w.gas_giants), (12, 0, 0));

    let mut d = dice(3, b"test/world/2");
    let w = secondary_world(7, "Regina", 2, RockyPlanetClass::Terran, OrbitalZone::Habitable, &main, &mut d)
        .ok()
        .unwrap();
    assert_eq!(w.starport, Starport::C);
    assert_eq!((w.size, w.atmosphere, w.hydrographics), (8, 5, 0));
    assert_eq!((w.population, w.population_multiplier, w.government, w.law_level), (4, 9, 6, 10));

    let mut d = dice(3, b"test/world/4");
    let w = secondary_world(7, "Regina", 2, RockyPlanetClass::Terran, OrbitalZone::Habitable, &main, &mut d)
        .ok()
        .unwrap();
    assert_eq!((w.population, w.population_multiplier, w.government, w.law_level), (2, 7, 1, 7));

    let low_tech = main_world(9, Starport::B);
    let mut d = dice(3, b"test/world/1");
    let w = secondary_world(7, "Regina", 2, RockyPlanetClass::Terran, OrbitalZone::Habitable, &low_tech, &mut d)
        .ok()
        .unwrap();
    assert_eq!((w.population, w.government, w.tech_level, w.starport), (0, 0, 0, Starport::X));
}

#[test]
fn belt_worlds_are_populated_only_with_high_technology() {
    let main = main_world(11, Starport::A);
    let w = belt_world(7, "Regina", 3, &main, &mut dice(3, b"test/belt/1")).ok().unwrap();
    assert_eq!(w.id, 7 * 65_536 + 3);
    assert_eq!(w.name, "Regina Belt 3");
    assert_eq!((w.population, w.population_multiplier, w.law_level, w.government), (1, 2, 8, 1));
    assert_eq!(w.starport, Starport::C);
    assert_eq!((w.size, w.atmosphere, w.hydrographics, w.tech_level), (0, 0, 0, 11));
    let w = belt_world(7, "Regina", 3, &main, &mut dice(3, b"test/belt/2")).ok().unwrap();
    assert_eq!((w.population, w.starport, w.government, w.tech_level), (0, Starport::X, 0, 0));
    let low_tech = main_world(9, Starport::A);
    let w = belt_world(7, "Regina", 3, &low_tech, &mut dice(3, b"test/belt/1")).ok().unwrap();
    assert_eq!(w.population, 0);
}
