use cepheus_trader::personnel::{
    apply_damage, morale_band, restore_points, starvation_check, MoraleBand, PhysicalCondition,
};

const MAXIMUM: PhysicalCondition = PhysicalCondition {
    strength: 8,
    dexterity: 7,
    endurance: 9,
};

#[test]
fn first_damage_uses_endurance_then_spreads_conservatively() {
    let mut current = MAXIMUM;
    apply_damage(&mut current, MAXIMUM, 10);
    assert_eq!(
        current,
        PhysicalCondition {
            strength: 7,
            dexterity: 7,
            endurance: 0
        }
    );
    assert!(!current.unconscious());
}

#[test]
fn healing_leaves_serious_wound_as_soon_as_possible() {
    let mut current = PhysicalCondition {
        strength: 7,
        dexterity: 5,
        endurance: 4,
    };
    assert!(current.seriously_wounded(MAXIMUM));
    assert_eq!(restore_points(&mut current, MAXIMUM, 1), 1);
    assert_eq!(current.strength, 8);
    assert!(!current.seriously_wounded(MAXIMUM));
}

#[test]
fn healing_finishes_the_lightest_track_then_endurance_strength_dexterity() {
    let mut current = PhysicalCondition {
        strength: 7,
        dexterity: 5,
        endurance: 4,
    };
    assert_eq!(restore_points(&mut current, MAXIMUM, 2), 2);
    assert_eq!(
        current,
        PhysicalCondition {
            strength: 8,
            dexterity: 5,
            endurance: 5
        }
    );
    assert_eq!(restore_points(&mut current, MAXIMUM, 6), 6);
    assert_eq!(
        current,
        PhysicalCondition {
            strength: 8,
            dexterity: 7,
            endurance: 9
        }
    );
    let mut full = MAXIMUM;
    assert_eq!(restore_points(&mut full, MAXIMUM, 3), 0);
    assert_eq!(full, MAXIMUM);
}

#[test]
fn morale_bands_have_stable_boundaries() {
    assert_eq!(morale_band(60), MoraleBand::Steady);
    assert_eq!(morale_band(40), MoraleBand::Uneasy);
    assert_eq!(morale_band(20), MoraleBand::Disaffected);
    assert_eq!(morale_band(1), MoraleBand::Defiant);
    assert_eq!(morale_band(0), MoraleBand::Broken);
}

#[test]
fn starvation_checks_are_routine_and_worsen_each_day() {
    let first = starvation_check(8, 0, 0x1234_5678);
    let later = starvation_check(8, 4, 0x1234_5678);
    assert_eq!(later.first_die, first.first_die);
    assert_eq!(later.second_die, first.second_die);
    assert_eq!(later.total, first.total - 4);
    for check in [first, later] {
        if check.success {
            assert_eq!(check.damage, 0);
        } else {
            assert!((1..=6).contains(&check.damage));
        }
    }
}
