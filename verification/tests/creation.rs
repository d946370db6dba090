use cepheus_trader::creation::{
    captain_characteristic_point_buy, captain_options, captain_skill_pool, crew_characteristics,
    crew_plan, crew_roles,
    crew_skill_pool, crew_skills, default_crew, default_crew_name, home_path, initial_training,
    required_training_weeks, validate_creation, validate_name, validate_person, validate_skills,
    CREW_CHARACTERISTIC_ARRAY,
};
use cepheus_trader::wire::{
    Characteristics, CrewCreation, PersonDraft, PlayerCreation, SkillId, SkillRating, StartingCrewPlan,
    StartingCrewSlot,
};

fn assert_valid_crew(person: &PersonDraft, label: &str) {
    let mut actual = person.characteristics.values();
    let mut expected = CREW_CHARACTERISTIC_ARRAY;
    actual.sort_unstable();
    expected.sort_unstable();
    assert_eq!(actual, expected, "{label} characteristic array");
    validate_skills(person, crew_skill_pool(), label).unwrap();
}

#[test]
fn every_catalog_crew_role_has_a_standard_template() {
    for role in [
        "bay-gunner",
        "command",
        "engineer",
        "flight-crew",
        "gunner",
        "marine",
        "medic",
        "navigator",
        "other",
        "pilot",
        "screen-operator",
        "sensors-operator",
        "steward",
        "turret-gunner",
    ] {
        let crew = default_crew(role, 1);
        assert_valid_crew(&crew, role);
        assert_eq!(crew.skills.len(), 9);
        assert_eq!(crew.name, default_crew_name(role));
        assert!(!crew.name.starts_with("Crew "));
        assert_eq!(crew.training.skill, crew.skills[0].skill);
        assert_eq!(crew.training.needed_weeks, 11);
        assert_eq!(crew.training.current_weeks, 0);
    }
}

#[test]
fn initial_training_uses_the_ce_skill_total_formula() {
    let captain = captain_options().default_captain;
    assert_eq!(captain.training.skill, SkillId::Leadership);
    assert_eq!(captain.training.needed_weeks, 15);
    assert_eq!(captain.training.current_weeks, 0);
    assert_eq!(
        required_training_weeks(&captain.skills, SkillId::Astrogation),
        Some(14)
    );
    assert_eq!(
        required_training_weeks(&captain.skills, SkillId::VaccSuit),
        Some(13)
    );
    assert_eq!(
        required_training_weeks(&captain.skills, SkillId::JackOfAllTrades),
        None
    );

    let mut invalid = captain.clone();
    invalid.training.needed_weeks -= 1;
    assert!(validate_person(
        &invalid,
        captain_characteristic_point_buy(),
        captain_skill_pool(),
        "captain"
    )
    .unwrap_err()
    .contains("requires 15 weeks"));

    let mut progressed = captain;
    progressed.training.current_weeks = 1;
    assert!(validate_person(
        &progressed,
        captain_characteristic_point_buy(),
        captain_skill_pool(),
        "captain"
    )
    .unwrap_err()
    .contains("zero completed"));
}

#[test]
fn captain_characteristics_use_the_authoritative_point_buy() {
    let mut captain = captain_options().default_captain;
    captain.characteristics = Characteristics {
        strength: 12,
        dexterity: 12,
        endurance: 9,
        intelligence: 9,
        education: 6,
        charisma: 6,
    };
    validate_person(
        &captain,
        captain_characteristic_point_buy(),
        captain_skill_pool(),
        "captain",
    )
    .unwrap();

    captain.characteristics.charisma = 5;
    assert!(validate_person(
        &captain,
        captain_characteristic_point_buy(),
        captain_skill_pool(),
        "captain",
    )
    .unwrap_err()
    .contains("exactly 12"));

    captain.characteristics.charisma = 13;
    assert!(validate_person(
        &captain,
        captain_characteristic_point_buy(),
        captain_skill_pool(),
        "captain",
    )
    .unwrap_err()
    .contains("between 2 and 12"));
}

#[test]
fn jack_of_all_trades_is_limited_to_levels_one_and_two() {
    let default_captain = captain_options().default_captain;
    validate_person(
        &default_captain,
        captain_characteristic_point_buy(),
        captain_skill_pool(),
        "captain",
    )
    .unwrap();

    let mut level_one_captain = default_captain.clone();
    level_one_captain
        .skills
        .iter_mut()
        .find(|rating| rating.skill == SkillId::JackOfAllTrades)
        .unwrap()
        .skill = SkillId::Computer;
    level_one_captain
        .skills
        .iter_mut()
        .find(|rating| rating.level == 1)
        .unwrap()
        .skill = SkillId::JackOfAllTrades;
    validate_person(
        &level_one_captain,
        captain_characteristic_point_buy(),
        captain_skill_pool(),
        "captain",
    )
    .unwrap();

    for level in [0, 3] {
        let mut captain = default_captain.clone();
        captain
            .skills
            .iter_mut()
            .find(|rating| rating.skill == SkillId::JackOfAllTrades)
            .unwrap()
            .level = level;
        assert!(validate_person(
            &captain,
            captain_characteristic_point_buy(),
            captain_skill_pool(),
            "captain",
        )
        .unwrap_err()
        .contains("only at level 1 or 2"));
    }
}

#[test]
fn default_crew_of_an_unlisted_role_is_the_general_hand() {
    let crew = default_crew("purser's mate", 3);
    assert_eq!(crew.name, "Bosun");
    assert_eq!(default_crew_name("purser's mate"), "Bosun");
    assert_eq!(crew.skills[0].skill, SkillId::Mechanic);
    assert_eq!(crew_skills("purser's mate")[4], SkillId::TradeCargomaster);
    assert_eq!(
        crew_characteristics("purser's mate"),
        Characteristics {
            strength: 8,
            dexterity: 8,
            endurance: 10,
            intelligence: 7,
            education: 9,
            charisma: 6,
        }
    );
    let levels: Vec<i8> = crew.skills.iter().map(|rating| rating.level).collect();
    assert_eq!(levels, vec![2, 2, 1, 1, 1, 1, 0, 0, 0]);
}

#[test]
fn default_crew_names_follow_the_role() {
    assert_eq!(default_crew_name("command"), "Exec");
    assert_eq!(default_crew_name("engineer"), "Chief");
    assert_eq!(default_crew_name("marine"), "Sarge");
    assert_eq!(default_crew("medic", 1).skills[0].skill, SkillId::Medicine);
    assert_eq!(crew_characteristics("marine").strength, 10);
}

#[test]
fn repeated_skill_is_named_in_the_refusal() {
    let mut captain = captain_options().default_captain;
    let first = captain.skills[0].skill;
    captain.skills[1].skill = first;
    let message = validate_skills(&captain, captain_skill_pool(), "captain").unwrap_err();
    assert!(message.starts_with("captain selects "));
    assert!(message.ends_with(" more than once"));
}

#[test]
fn unused_slots_are_refused() {
    let mut captain = captain_options().default_captain;
    let index = captain
        .skills
        .iter()
        .position(|rating| rating.level == 2)
        .unwrap();
    captain.skills[index].level = 1;
    assert_eq!(
        validate_skills(&captain, captain_skill_pool(), "captain").unwrap_err(),
        "captain skills do not consume the offered rating slots"
    );
    captain.skills[index].level = 4;
    assert_eq!(
        validate_skills(&captain, captain_skill_pool(), "captain").unwrap_err(),
        "captain has an invalid skill level"
    );
}

#[test]
fn names_must_hold_one_to_128_bytes() {
    assert!(validate_name("Ace", "crew member").is_ok());
    assert_eq!(
        validate_name(" \t ", "crew member").unwrap_err(),
        "crew member name must contain 1..=128 bytes"
    );
    assert!(validate_name(&"x".repeat(128), "captain").is_ok());
    assert!(validate_name(&"x".repeat(129), "captain").is_err());
}

#[test]
fn initial_training_refuses_absent_skills() {
    let skills = vec![SkillRating {
        skill: SkillId::Admin,
        level: 1,
    }];
    let training = initial_training(&skills, SkillId::Admin).unwrap();
    assert_eq!(training.needed_weeks, 3);
    assert_eq!(training.current_weeks, 0);
    assert_eq!(initial_training(&skills, SkillId::Broker), None);
}

#[test]
fn home_path_places_the_sliders() {
    assert_eq!(home_path(0, 0), 3);
    assert_eq!(home_path(100, 100), 7);
    assert_eq!(home_path(50, 50), 5);
    assert_eq!(home_path(33, 67), 1);
}

fn plan_for(roles: &[&str]) -> StartingCrewPlan {
    StartingCrewPlan {
        setup_revision: 1,
        starting_offer_id: 7,
        slots: roles
            .iter()
            .enumerate()
            .map(|(index, role)| StartingCrewSlot {
                slot_id: (index + 1) as u16,
                role: role.to_string(),
                required: true,
                represented_positions: 1,
                skill_pool: crew_skill_pool(),
                default_crew: default_crew(role, index + 1),
            })
            .collect(),
    }
}

fn creation_for(plan: &StartingCrewPlan) -> PlayerCreation {
    PlayerCreation {
        setup_revision: 1,
        captain: captain_options().default_captain,
        ship_name: "Far Horizon".to_string(),
        starting_offer_id: 7,
        refit_option_ids: vec![1],
        crew: plan
            .slots
            .iter()
            .map(|slot| CrewCreation {
                slot_id: slot.slot_id,
                name: slot.default_crew.name.clone(),
                training_skill: slot.default_crew.skills[0].skill,
            })
            .collect(),
    }
}

#[test]
fn a_complete_creation_is_accepted() {
    let plan = plan_for(&["pilot", "engineer"]);
    let creation = creation_for(&plan);
    assert!(validate_creation(&creation, Ok((0, 0)), Some(plan)).is_ok());
}

#[test]
fn creation_refusals_come_in_order() {
    let plan = plan_for(&["pilot", "engineer"]);

    let mut stale = creation_for(&plan);
    stale.setup_revision = 4;
    assert_eq!(
        validate_creation(&stale, Ok((0, 0)), Some(plan.clone())).unwrap_err(),
        "setup revision 4 is stale; current revision is 1"
    );

    let mut unnamed = creation_for(&plan);
    unnamed.ship_name = " \t".to_string();
    assert_eq!(
        validate_creation(&unnamed, Ok((0, 0)), Some(plan.clone())).unwrap_err(),
        "ship name must not be blank"
    );

    let creation = creation_for(&plan);
    assert_eq!(
        validate_creation(&creation, Err("starting refit option is not available for this offer".to_string()), Some(plan.clone())).unwrap_err(),
        "starting refit option is not available for this offer"
    );
    assert_eq!(
        validate_creation(&creation, Ok((0, 0)), None).unwrap_err(),
        "starting offer is not available for this BBS polity"
    );

    let mut short = creation_for(&plan);
    short.crew.pop();
    assert_eq!(
        validate_creation(&short, Ok((0, 0)), Some(plan.clone())).unwrap_err(),
        "offer requires 2 initial crew records; received 1"
    );

    let mut repeated = creation_for(&plan);
    repeated.crew[1].slot_id = 1;
    assert_eq!(
        validate_creation(&repeated, Ok((0, 0)), Some(plan.clone())).unwrap_err(),
        "crew slot 1 was submitted more than once"
    );

    let mut stray = creation_for(&plan);
    stray.crew[1].slot_id = 9;
    assert_eq!(
        validate_creation(&stray, Ok((0, 0)), Some(plan.clone())).unwrap_err(),
        "crew slot 9 is not in this offer"
    );

    let mut nameless = creation_for(&plan);
    nameless.crew[0].name = String::new();
    assert_eq!(
        validate_creation(&nameless, Ok((0, 0)), Some(plan.clone())).unwrap_err(),
        "crew member name must contain 1..=128 bytes"
    );

    let mut untrainable = creation_for(&plan);
    untrainable.crew[0].training_skill = SkillId::Melee;
    assert_eq!(
        validate_creation(&untrainable, Ok((0, 0)), Some(plan.clone())).unwrap_err(),
        "pilot cannot train Melee from this starting skill package"
    );

    let mut weak_captain = creation_for(&plan);
    weak_captain.captain.characteristics.charisma = 1;
    assert_eq!(
        validate_creation(&weak_captain, Ok((0, 0)), Some(plan)).unwrap_err(),
        "captain characteristics must be between 2 and 12"
    );
}

const SHIP: &str = "[ship]\nname = \"Test Trader\"\n\n[[crew]]\nrole = \"command\"\nquantity = 2\n\n[[crew]]\nrole = \"pilot\"\n\n[[crew]]\n  role = \"engineer\"  \r\nquantity = 3\n\n[[crew]]\nquantity = 4\n\n[[crew]]\nrole = \"steward\"\nquantity = 0\n[armor]\nrole = \"ignored\"\n";

#[test]
fn crew_tables_give_roles_and_quantities() {
    let roles = crew_roles(SHIP);
    assert_eq!(
        roles,
        vec![
            ("command".to_string(), 2),
            ("pilot".to_string(), 1),
            ("engineer".to_string(), 3),
            ("ignored".to_string(), 0),
        ]
    );
    assert_eq!(
        crew_roles("[[crew]]\nrole = \"gunner\"\nquantity = many\n[[crew]]\nrole = medic\nquantity=5"),
        vec![("gunner".to_string(), 1), ("medic".to_string(), 1)]
    );
    assert!(crew_roles("").is_empty());
}

#[test]
fn the_crew_plan_leaves_the_players_seat_and_empty_roles_out() {
    let plan = crew_plan(1, 7, Some(SHIP)).unwrap();
    assert_eq!(plan.setup_revision, 1);
    assert_eq!(plan.starting_offer_id, 7);
    let slots: Vec<(u16, String, u16)> = plan
        .slots
        .iter()
        .map(|slot| (slot.slot_id, slot.role.clone(), slot.represented_positions))
        .collect();
    assert_eq!(
        slots,
        vec![
            (1, "command".to_string(), 1),
            (2, "pilot".to_string(), 1),
            (3, "engineer".to_string(), 3),
        ]
    );
    assert_eq!(plan.slots[2].default_crew, default_crew("engineer", 3));
    assert_eq!(plan.slots[0].skill_pool, crew_skill_pool());

    let without_command = "[[crew]]\nrole = \"pilot\"\n[[crew]]\nrole = \"medic\"\n";
    let plan = crew_plan(1, 9, Some(without_command)).unwrap();
    assert_eq!(plan.slots.len(), 1);
    assert_eq!(plan.slots[0].role, "medic");
    assert_eq!(plan.slots[0].slot_id, 1);

    assert!(crew_plan(2, 7, Some(SHIP)).is_none());
    assert!(crew_plan(1, 7, None).is_none());
}
