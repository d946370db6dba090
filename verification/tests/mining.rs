use cepheus_trader::mining::{
    daily_drone_capacity_millitons, power_fuel_for_duration, prospect, refined_output_millitons,
    BeltComposition,
};

#[test]
fn prospect_is_stable_and_bounded() {
    let belt = BeltComposition {
        icy: false,
        carbonaceous_percent: 20,
        silicate_or_rock_percent: 50,
        metal_or_water_ice_percent: 30,
        hydrocarbon_percent: 0,
    };
    let a = prospect(42, belt, false);
    assert_eq!(a, prospect(42, belt, false));
    assert!((5..=60).contains(&a.grade_percent));
    assert!((10_000..=1_000_000_000).contains(&a.remaining_raw_millitons));
}

#[test]
fn extraction_and_power_math_round_conservatively() {
    assert_eq!(daily_drone_capacity_millitons(2, 6), 120_000);
    assert_eq!(refined_output_millitons(40_000, 25, 8_000), 8_000);
    assert_eq!(power_fuel_for_duration(1_000, 3, 1), 334);
}

#[test]
fn settling_power_fuel_in_parts_never_costs_less() {
    let whole = power_fuel_for_duration(1_000, 3, 2);
    assert_eq!(whole, 667);
    assert_eq!(power_fuel_for_duration(1_000, 3, 1) * 2, 668);
    assert!(power_fuel_for_duration(1_000, 3, 1) * 2 >= whole);
    assert_eq!(
        power_fuel_for_duration(5, 7, 3) + power_fuel_for_duration(5, 7, 4),
        3 + 3
    );
    assert_eq!(power_fuel_for_duration(5, 7, 7), 5);
}
