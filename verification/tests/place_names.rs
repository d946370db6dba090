use cepheus_trader::place_names::{
    naming_stream, polity_profile, profile, system_name, unique_system_name, world_name,
    PlaceNameError, PlaceNameProfile, FEDERATION_NAMING_PROFILE_ID,
};

const STEMS: [&str; 18] = [
    "al", "bre", "cor", "dun", "el", "fal", "gar", "hel", "ist", "jor", "kal", "lun", "mor", "nes",
    "or", "pel", "quin", "ros",
];

fn parts(profile_id: u16, slot: usize) -> Vec<String> {
    STEMS
        .iter()
        .map(|stem| format!("{stem}{}{}", profile_id, ["a", "e", "i", "o"][slot]))
        .collect()
}

fn profile_for(id: u16, tag: &str) -> PlaceNameProfile {
    PlaceNameProfile {
        id,
        tag: tag.to_string(),
        system_pattern: "{0}{1} {2}{3}".to_string(),
        world_pattern: " {0}  {1}{2} {3} ".to_string(),
        system_parts: [parts(id, 0), parts(id, 1), parts(id, 2), parts(id, 3)],
        world_parts: [parts(id, 3), parts(id, 2), parts(id, 1), parts(id, 0)],
    }
}

fn catalog() -> Vec<PlaceNameProfile> {
    vec![
        profile_for(1, "federation"),
        profile_for(2, "lyric"),
        profile_for(3, "marcher"),
        profile_for(4, "frontier"),
    ]
}

#[test]
fn catalog_profiles_are_contiguous_and_have_large_system_spaces() {
    let catalog = catalog();
    assert_eq!(catalog[0].id, FEDERATION_NAMING_PROFILE_ID);
    for (expected, entry) in (1_u16..).zip(catalog.iter()) {
        assert_eq!(entry.id, expected);
        assert!(!entry.tag.is_empty());
        let candidates = entry
            .system_parts
            .iter()
            .map(|part| part.len())
            .product::<usize>();
        assert!(candidates >= 100_000);
        assert_eq!(profile(&catalog, expected).unwrap().tag, entry.tag);
    }
}

#[test]
fn generation_is_repeatable_and_profiles_are_distinct() {
    let catalog = catalog();
    let mut first = naming_stream([0x42; 32], b"test/names").unwrap();
    let mut second = naming_stream([0x42; 32], b"test/names").unwrap();
    assert_eq!(
        system_name(&catalog, &mut first, 2).unwrap(),
        system_name(&catalog, &mut second, 2).unwrap()
    );
    let mut lyric = naming_stream([0x42; 32], b"test/names").unwrap();
    let mut marcher = naming_stream([0x42; 32], b"test/names").unwrap();
    assert_ne!(
        system_name(&catalog, &mut lyric, 2).unwrap(),
        system_name(&catalog, &mut marcher, 3).unwrap()
    );
}

#[test]
fn collision_retry_never_returns_an_existing_system_name() {
    let catalog = catalog();
    let mut probe = naming_stream([0x55; 32], b"test/collision").unwrap();
    let collision = system_name(&catalog, &mut probe, 4).unwrap();
    let mut used = vec![collision.to_ascii_lowercase()];
    let mut retry = naming_stream([0x55; 32], b"test/collision").unwrap();
    let selected = unique_system_name(&catalog, &mut retry, 4, &mut used).unwrap();
    assert_ne!(
        selected.to_ascii_lowercase(),
        collision.to_ascii_lowercase()
    );
    assert!(used.contains(&selected.to_ascii_lowercase()));
}

#[test]
fn unknown_profiles_are_refused() {
    let catalog = catalog();
    let mut stream = naming_stream([7; 32], b"test/unknown").unwrap();
    assert!(matches!(
        system_name(&catalog, &mut stream, 9),
        Err(PlaceNameError::UnknownProfile(9))
    ));
    assert!(matches!(
        profile(&catalog, 0),
        Err(PlaceNameError::UnknownProfile(0))
    ));
    let mut used = Vec::new();
    assert!(matches!(
        unique_system_name(&catalog, &mut stream, 9, &mut used),
        Err(PlaceNameError::UnknownProfile(9))
    ));
    assert!(used.is_empty());
}

fn single_choice_profile() -> PlaceNameProfile {
    PlaceNameProfile {
        id: 1,
        tag: "fixed".to_string(),
        system_pattern: "  {0}   {1} {0}\t{3} ".to_string(),
        world_pattern: "{0}{2}".to_string(),
        system_parts: [
            vec!["Nova".to_string()],
            vec!["Prime".to_string()],
            vec!["unused".to_string()],
            vec!["".to_string()],
        ],
        world_parts: [
            vec!["a{1}".to_string()],
            vec!["b".to_string()],
            vec!["  c  ".to_string()],
            vec!["d".to_string()],
        ],
    }
}

#[test]
fn names_fill_placeholders_and_close_up_white_space() {
    let catalog = vec![single_choice_profile()];
    let mut stream = naming_stream([1; 32], b"test/fixed").unwrap();
    assert_eq!(
        system_name(&catalog, &mut stream, 1).unwrap(),
        "Nova Prime Nova"
    );
    assert_eq!(world_name(&catalog, &mut stream, 1).unwrap(), "ab c");
}

#[test]
fn unique_names_give_up_after_the_draw_budget() {
    let catalog = vec![single_choice_profile()];
    let mut stream = naming_stream([2; 32], b"test/budget").unwrap();
    let mut used = vec!["nova prime nova".to_string()];
    assert!(matches!(
        unique_system_name(&catalog, &mut stream, 1, &mut used),
        Err(PlaceNameError::CollisionBudgetExhausted(1))
    ));
    assert_eq!(used, vec!["nova prime nova".to_string()]);

    let mut fresh = Vec::new();
    assert_eq!(
        unique_system_name(&catalog, &mut stream, 1, &mut fresh).unwrap(),
        "Nova Prime Nova"
    );
    assert_eq!(fresh, vec!["nova prime nova".to_string()]);
}

#[test]
fn polity_profiles_skip_the_federation() {
    let catalog = catalog();
    for seed in 0_u8..32 {
        let chosen = polity_profile([seed; 32], &catalog).unwrap();
        assert!((2..=4).contains(&chosen));
    }
    assert_eq!(
        polity_profile([9; 32], &catalog).unwrap(),
        polity_profile([9; 32], &catalog).unwrap()
    );
}
