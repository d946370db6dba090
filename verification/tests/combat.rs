use cepheus_trader::combat::{
    attack_order, conservative_order, damage_hit_groups, materialize_vessel, resolve_round,
    risk_directed_order, rollout_candidate, AutomationPolicy, CombatEvent, CombatState,
    CrewAction, DamageDice, JointOrder, RangeBand, VesselState, WeaponRule, SEARCH_ROLLOUTS,
};
use cepheus_trader::creation::{
    ShipAmmunitionSpec, ShipCombatSpec, ShipStatusSpec, ShipWeaponMountSpec,
};

fn rule(id: &str, dice: u8, missile: bool, ammunition: Option<&str>) -> WeaponRule {
    WeaponRule {
        id: id.into(),
        damage: DamageDice { dice, modifier: 0 },
        difficulty_dm: [0, 0, 1, 0, -1, -2, -99],
        beam: !missile,
        missile,
        radiation: false,
        meson: false,
        sand: false,
        bay: false,
        ammunition_id: ammunition.map(|id| id.to_string()),
    }
}

/// The combat rules that the Smollett's loadout uses.
fn rules() -> Vec<WeaponRule> {
    vec![
        rule("beam-laser", 1, false, None),
        rule("missile-rack", 1, true, Some("standard-missile")),
        rule("particle-beam-barbette", 3, false, None),
        rule("pulse-laser", 2, false, None),
        rule("sandcaster", 0, false, Some("sand-canister")),
    ]
}

/// The Smollett's status record: a 400-ton hull with thrust 2.
fn status() -> ShipStatusSpec {
    ShipStatusSpec {
        tech_level: 12,
        construction_price_credits: 150_000_000,
        displacement_millitons: 400_000,
        jump_rating: 3,
        thrust_g: 2,
        fuel_capacity_millitons: 130_000,
        jump_fuel_millitons: 120_000,
        cargo_capacity_millitons: 92_000,
        passenger_berths: 10,
        low_berths: 4,
        monthly_life_support_credits: 30_000,
        life_support_capacity_persons: 20,
        has_fuel_scoop: true,
        fuel_processing_millitons_per_day: 20_000,
        subsystems: Vec::new(),
    }
}

/// The Smollett's combat record: three turrets, a barbette, and a magazine
/// of seventy-two standard missiles.
fn combat_spec() -> ShipCombatSpec {
    ShipCombatSpec {
        armor_points: 2,
        weapons: vec![
            ShipWeaponMountSpec {
                mount_id: "triple-turret".into(),
                weapons: vec!["pulse-laser".into(), "missile-rack".into(), "sandcaster".into()],
                quantity: 1,
            },
            ShipWeaponMountSpec {
                mount_id: "triple-turret".into(),
                weapons: vec!["beam-laser".into(), "missile-rack".into()],
                quantity: 1,
            },
            ShipWeaponMountSpec {
                mount_id: "double-turret".into(),
                weapons: vec!["pulse-laser".into(), "pulse-laser".into()],
                quantity: 1,
            },
            ShipWeaponMountSpec {
                mount_id: "particle-beam-barbette".into(),
                weapons: vec!["particle-beam-barbette".into()],
                quantity: 1,
            },
        ],
        ammunition: vec![
            ShipAmmunitionSpec { ammunition_id: "standard-missile".into(), quantity: 72 },
            ShipAmmunitionSpec { ammunition_id: "sand-canister".into(), quantity: 20 },
        ],
        screens: Vec::new(),
    }
}

fn vessel(vessel_id: u64, side: u16, name: &str, initiative: i16) -> VesselState {
    materialize_vessel(
        vessel_id,
        side,
        name.to_string(),
        72,
        initiative,
        Some(&status()),
        Some(&combat_spec()),
        &rules(),
    )
    .unwrap()
}

fn state(combat_id: u64, revision: u64, round_started_second: u64, range: RangeBand) -> CombatState {
    CombatState {
        combat_id,
        revision,
        round: 1,
        round_started_second,
        range,
        vessels: vec![vessel(1, 1, "A", 10), vessel(2, 2, "B", 8)],
        missiles: vec![],
        boarding: vec![],
        complete: false,
    }
}

#[test]
fn materializes_real_catalog_loadout_and_ammunition() {
    let vessel = vessel(1, 1, "Smollett", 9);
    assert_eq!(vessel.weapons.len(), 4);
    assert!(vessel.weapons.iter().any(|mount| {
        mount
            .weapons
            .iter()
            .any(|weapon| weapon.id == "particle-beam-barbette")
    }));
    assert!(vessel
        .ammunition
        .iter()
        .any(|lot| lot.ammunition_id == "standard-missile" && lot.remaining == 72));
}

#[test]
fn stale_or_partial_joint_orders_are_rejected() {
    let state = state(9, 4, 100, RangeBand::Short);
    assert!(resolve_round(&state, &[conservative_order(&state, 1).unwrap()]).is_err());
    let mut stale = conservative_order(&state, 1).unwrap();
    stale.view_revision -= 1;
    assert!(resolve_round(&state, &[stale, conservative_order(&state, 2).unwrap()]).is_err());
}

#[test]
fn round_is_deterministic_and_advances_one_kilosecond() {
    let state = state(9, 4, 100, RangeBand::Short);
    let orders = [
        risk_directed_order(&state, 1, &AutomationPolicy::default())
            .unwrap()
            .order,
        risk_directed_order(&state, 2, &AutomationPolicy::default())
            .unwrap()
            .order,
    ];
    let a = resolve_round(&state, &orders).unwrap();
    let b = resolve_round(&state, &orders).unwrap();
    assert_eq!(a, b);
    assert_eq!(a.state.round_started_second, 1_100);
}

#[test]
fn opening_range_before_a_boarding_order_fails_the_action_not_the_round() {
    let state = state(10, 4, 100, RangeBand::Adjacent);
    let open_range = JointOrder {
        vessel_id: 1,
        view_revision: state.revision,
        actions: vec![CrewAction::RangeCheckOpen],
        action_dms: vec![100],
        reactions: vec![],
        reaction_dms: vec![],
        automated: false,
    };
    let board = JointOrder {
        vessel_id: 2,
        view_revision: state.revision,
        actions: vec![CrewAction::Board { target_id: 1 }],
        action_dms: vec![0],
        reactions: vec![],
        reaction_dms: vec![],
        automated: false,
    };

    let resolution = resolve_round(&state, &[open_range, board]).unwrap();

    assert!(resolution.state.boarding.is_empty());
    assert!(resolution.events.iter().any(|event| matches!(
        event,
        CombatEvent::Action {
            vessel_id: 2,
            description
        } if description == "boarding parties cannot engage after the range opens"
    )));
}

#[test]
fn automation_has_a_fixed_reproducible_estimate() {
    let state = state(99, 1, 0, RangeBand::Short);
    let a = risk_directed_order(&state, 1, &AutomationPolicy::default()).unwrap();
    let b = risk_directed_order(&state, 1, &AutomationPolicy::default()).unwrap();
    assert_eq!(a, b);
    assert!(a.estimated_success_percent <= 100);

    let policy = AutomationPolicy::default();
    let mut candidates = vec![conservative_order(&state, 1).unwrap()];
    candidates.push(attack_order(&state, 1, 2, true).unwrap());
    candidates.push(attack_order(&state, 1, 2, false).unwrap());
    let selected_index = candidates
        .iter()
        .position(|candidate| {
            candidate.actions == a.order.actions
                && candidate.reactions == a.order.reactions
                && candidate.action_dms == a.order.action_dms
                && candidate.reaction_dms == a.order.reaction_dms
        })
        .unwrap();
    let successes = (0..SEARCH_ROLLOUTS)
        .filter(|rollout| {
            rollout_candidate(
                &state,
                1,
                policy.objective,
                &candidates[selected_index],
                selected_index,
                *rollout,
            )
        })
        .count();
    let expected = ((successes * 100 + SEARCH_ROLLOUTS / 2) / SEARCH_ROLLOUTS) as u8;
    assert_eq!(a.estimated_success_percent, expected);

    let all_estimates = candidates
        .iter()
        .enumerate()
        .map(|(candidate_index, candidate)| {
            let successes = (0..SEARCH_ROLLOUTS)
                .filter(|rollout| {
                    rollout_candidate(
                        &state,
                        1,
                        policy.objective,
                        candidate,
                        candidate_index,
                        *rollout,
                    )
                })
                .count();
            ((successes * 100 + SEARCH_ROLLOUTS / 2) / SEARCH_ROLLOUTS) as u8
        })
        .collect::<Vec<_>>();
    let best = *all_estimates.iter().max().unwrap();
    assert_eq!(
        a.branch,
        if best >= 70 {
            "pursue-objective"
        } else {
            "withdraw"
        }
    );
}

#[test]
fn damage_control_creates_temporary_coverage_without_erasing_damage() {
    let mut state = state(111, 1, 0, RangeBand::Short);
    state.vessels[0].power_hits = 2;
    let repair = JointOrder {
        vessel_id: 1,
        view_revision: 1,
        actions: vec![CrewAction::DamageControl],
        action_dms: vec![100],
        reactions: Vec::new(),
        reaction_dms: Vec::new(),
        automated: false,
    };
    let hold = JointOrder {
        vessel_id: 2,
        view_revision: 1,
        actions: vec![CrewAction::Hold],
        action_dms: vec![0],
        reactions: Vec::new(),
        reaction_dms: Vec::new(),
        automated: false,
    };
    let result = resolve_round(&state, &[repair, hold]).unwrap();
    let repaired = result
        .state
        .vessels
        .iter()
        .find(|vessel| vessel.vessel_id == 1)
        .unwrap();
    assert_eq!(repaired.power_hits, 2);
    assert_eq!(repaired.battlefield_repairs[4], 2);
    assert!(result
        .events
        .iter()
        .any(|event| matches!(event, CombatEvent::BattlefieldRepair { vessel_id: 1, .. })));
}

#[test]
fn damage_table_preserves_grouped_hits() {
    assert_eq!(damage_hit_groups(0), Vec::<u8>::new());
    assert_eq!(damage_hit_groups(8), vec![1, 1]);
    assert_eq!(damage_hit_groups(12), vec![2]);
    assert_eq!(damage_hit_groups(44), vec![3, 3]);
    assert!(!damage_hit_groups(50).is_empty());
}

#[test]
fn rounds_keep_each_vessels_screens_in_order() {
    let mut spec = combat_spec();
    spec.screens = vec!["nuclear-damper".into(), "meson-screen".into(), "nuclear-damper".into()];
    let screened = materialize_vessel(
        1,
        1,
        "A".to_string(),
        72,
        10,
        Some(&status()),
        Some(&spec),
        &rules(),
    )
    .unwrap();
    assert_eq!(
        screened.screens,
        vec!["meson-screen".to_string(), "nuclear-damper".to_string()]
    );
    let mut state = state(9, 4, 100, RangeBand::Short);
    state.vessels[0] = screened;
    let orders = [
        conservative_order(&state, 1).unwrap(),
        conservative_order(&state, 2).unwrap(),
    ];
    let resolution = resolve_round(&state, &orders).unwrap();
    assert_eq!(resolution.state.vessels.len(), 2);
    for (before, after) in state.vessels.iter().zip(resolution.state.vessels.iter()) {
        assert_eq!(before.screens, after.screens);
    }
}

fn attack_with(task_dm: i8) -> Vec<CombatEvent> {
    let state = state(9, 4, 100, RangeBand::Short);
    let attack = JointOrder {
        vessel_id: 1,
        view_revision: state.revision,
        actions: vec![CrewAction::Attack { mount_id: 3, target_id: 2 }],
        action_dms: vec![task_dm],
        reactions: vec![],
        reaction_dms: vec![],
        automated: false,
    };
    let defend = conservative_order(&state, 2).unwrap();
    resolve_round(&state, &[attack, defend]).unwrap().events
}

#[test]
fn an_attack_of_eight_or_more_hits_and_a_lower_one_misses() {
    let sure = attack_with(20);
    let hits = sure
        .iter()
        .filter(|event| matches!(event, CombatEvent::Damage { vessel_id: 1, target_id: 2, .. }))
        .count();
    assert_eq!(hits, 2);
    assert!(!sure.iter().any(|event| matches!(event, CombatEvent::AttackMissed { vessel_id: 1, .. })));

    let hopeless = attack_with(-30);
    let misses = hopeless
        .iter()
        .filter(|event| {
            matches!(event, CombatEvent::AttackMissed { vessel_id: 1, target_id: 2, mount_id: 3 })
        })
        .count();
    assert_eq!(misses, 2);
    assert!(!hopeless.iter().any(|event| matches!(event, CombatEvent::Damage { vessel_id: 1, .. })));
}
