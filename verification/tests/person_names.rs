use std::collections::HashSet;

use cepheus_trader::person_names::{generated_person_name, PersonNameCatalog};

const SYLLABLES: [&str; 16] = [
    "ka", "lo", "mi", "ne", "ru", "sa", "te", "vo", "ba", "di", "fe", "go", "hu", "ji", "po", "ze",
];

fn catalog() -> PersonNameCatalog {
    let mut given_names = Vec::new();
    let mut family_names = Vec::new();
    for first in SYLLABLES {
        for second in ["na", "ri", "lo", "sen", "dar", "mi", "vek", "tu"] {
            let mut given = format!("{first}{second}");
            given[..1].make_ascii_uppercase();
            given_names.push(given);
            let mut family = format!("{second}{first}ton");
            family[..1].make_ascii_uppercase();
            family_names.push(family);
        }
    }
    PersonNameCatalog {
        revision: 7,
        given_names,
        family_names,
    }
}

#[test]
fn catalogue_provides_thousands_of_combinations() {
    let catalog = catalog();
    assert!(catalog.given_names.len() >= 64);
    assert!(catalog.family_names.len() >= 64);
    assert!(catalog.given_names.len() * catalog.family_names.len() >= 4_096);
    let generated = (0_u64..512)
        .map(|value| generated_person_name(value, value.rotate_left(17), &catalog))
        .collect::<HashSet<_>>();
    assert!(generated.len() >= 480);
}

#[test]
fn generation_is_stable_and_iso_646_safe() {
    let catalog = catalog();
    let first = generated_person_name(0x1234_5678, 9, &catalog);
    assert_eq!(first, generated_person_name(0x1234_5678, 9, &catalog));
    assert!(first.is_ascii());
    assert!(first.contains(' '));
}

fn splitmix(value: u64) -> u64 {
    let mut z = value.wrapping_add(0x9E37_79B9_7F4A_7C15);
    z = (z ^ (z >> 30)).wrapping_mul(0xBF58_476D_1CE4_E5B9);
    z = (z ^ (z >> 27)).wrapping_mul(0x94D0_49BB_1331_11EB);
    z ^ (z >> 31)
}

#[test]
fn names_follow_the_splitmix_draws() {
    let catalog = PersonNameCatalog {
        revision: 3,
        given_names: vec!["Ada".into(), "Bo".into(), "Cy".into()],
        family_names: vec!["Ng".into(), "Oto".into(), "Park".into(), "Quell".into(), "Ross".into()],
    };
    let entropy = 0xdead_beef_u64;
    let discriminator = 42_u64;
    let domain = entropy
        ^ discriminator.wrapping_mul(0x9E37_79B9_7F4A_7C15)
        ^ 3_u64.rotate_left(29)
        ^ 1_u64.rotate_left(47);
    let given = splitmix(domain ^ 0x4749_5645_4E4E_414D) as usize % 3;
    let family = splitmix(domain ^ 0x4641_4D49_4C59_4E4D) as usize % 5;
    let expected = format!(
        "{} {}",
        catalog.given_names[given], catalog.family_names[family]
    );
    assert_eq!(generated_person_name(entropy, discriminator, &catalog), expected);
}

#[test]
fn revision_changes_the_draw_domain() {
    let mut catalog = catalog();
    let names_before = (0_u64..64)
        .map(|value| generated_person_name(value, value, &catalog))
        .collect::<Vec<_>>();
    catalog.revision += 1;
    let names_after = (0_u64..64)
        .map(|value| generated_person_name(value, value, &catalog))
        .collect::<Vec<_>>();
    assert_ne!(names_before, names_after);
}
