use cepheus_trader::creation::{
    ship_market_catalog, ship_runtime_components, ship_status_spec, RuntimeComponent, RuntimeShip,
};
use cepheus_trader::wire::ShipSubsystemKind;

const RECORD: &str = "catalog_id = 7\nhull_points = 4\n\n[hull]\nid = \"ship-200\"\nconfiguration = \"streamlined\"\n\n[fuel]\njump_distance = 2\n\n[[equipment]]\nid = \"fuel-processor\"\nquantity = 2\n\n[[mounts]]\nid = \"double-turret\"\nquantity = 2\nweapons = [\"beam-laser\"]\n\n[[screens]]\nid = \"nuclear-damper\"\n";

fn runtime(catalog_id: u32, class_name: &str) -> RuntimeShip {
    RuntimeShip {
        catalog_id,
        class_name: class_name.to_string(),
        tech_level: 12,
        price_credits: 60_000_000,
        displacement_millitons: 200_000,
        jump_rating: 2,
        thrust_g: 1,
        fuel_millitons: 40_000,
        jump_fuel_millitons: 40_000,
        cargo_millitons: 82_000,
        minimum_crew: 5,
        passenger_accommodation_berths: 6,
        provision_capacity_persons: 11,
        low_berths: 20,
        monthly_life_support_credits: 22_000,
    }
}

fn component(catalog_id: u32, kind: &str, id: &str, quantity: u32, displacement: u64, price: u64) -> RuntimeComponent {
    RuntimeComponent {
        catalog_id,
        kind: kind.to_string(),
        component_id: id.to_string(),
        quantity,
        displacement_millitons: displacement,
        price_credits: price,
        pack_units: 1,
    }
}

fn components() -> Vec<RuntimeComponent> {
    vec![
        component(7, "hull", "ship-200", 1, 200_000, 8_000_000),
        component(9, "hull", "ship-400", 1, 400_000, 16_000_000),
        component(7, "equipment", "fuel-processor", 2, 2_000, 100_000),
        component(7, "weapon-mount", "double-turret", 2, 2_000, 1_000_000),
        component(7, "screen", "nuclear-damper", 1, 20_000, 10_000_000),
    ]
}

#[test]
fn runtime_components_are_those_of_the_class_in_list_order() {
    let listed = ship_runtime_components(7, &components());
    let ids: Vec<&str> = listed.iter().map(|c| c.component_id.as_str()).collect();
    assert_eq!(ids, vec!["ship-200", "fuel-processor", "double-turret", "nuclear-damper"]);
    assert!(ship_runtime_components(8, &components()).is_empty());
}

#[test]
fn market_catalog_lists_every_class() {
    let market = ship_market_catalog(&[runtime(7, "Far Trader"), runtime(9, "Subsidised Liner")]);
    assert_eq!(market.len(), 2);
    assert_eq!(market[1].catalog_id, 9);
    assert_eq!(market[1].class_name, "Subsidised Liner");
    assert_eq!(market[0].cargo_capacity_millitons, 82_000);
    assert_eq!(market[0].minimum_crew, 5);
}

#[test]
fn status_reads_figures_scoops_and_subsystems() {
    let table = [runtime(7, "Far Trader"), runtime(9, "Subsidised Liner")];
    let spec = ship_status_spec(7, Some(RECORD), &table, &components()).unwrap();
    assert_eq!(spec.construction_price_credits, 60_000_000);
    assert_eq!(spec.life_support_capacity_persons, 11);
    assert!(spec.has_fuel_scoop);
    assert_eq!(spec.fuel_processing_millitons_per_day, 40_000);
    let labels: Vec<&str> = spec.subsystems.iter().map(|s| s.label.as_str()).collect();
    assert_eq!(
        labels,
        vec![
            "Hull",
            "Structure",
            "Armor",
            "Bridge",
            "Computer",
            "Sensors",
            "Jump drive",
            "Maneuver drive",
            "Power plant",
            "Fuel system",
            "Life support",
            "Cargo hold",
            "Fuel Processor group (2)",
            "Double Turret 1",
            "Double Turret 2",
            "Nuclear Damper",
        ]
    );
    assert_eq!(spec.subsystems[0].maximum_hits, 4);
    assert_eq!(spec.subsystems[1].maximum_hits, 4);
    assert_eq!(spec.subsystems[0].component_id, "ship-200");
    assert_eq!(spec.subsystems[1].component_kind, "hull");
    assert_eq!(spec.subsystems[2].component_kind, "armor");
    assert_eq!(spec.subsystems[2].component_id, "armor");
    assert_eq!(spec.subsystems[6].component_kind, "jumpdrive");
    assert_eq!(spec.subsystems[6].component_id, "jump-drive");
    assert_eq!(spec.subsystems[10].component_id, "fuel-processor");
    assert_eq!(spec.subsystems[11].component_kind, "cargo");
    assert_eq!(spec.subsystems[11].component_id, "cargo-hold");
    assert_eq!(spec.subsystems[12].kind, ShipSubsystemKind::Other);
    assert_eq!(spec.subsystems[12].component_kind, "equipment");
    assert_eq!(spec.subsystems[13].kind, ShipSubsystemKind::WeaponMount);
    assert_eq!(spec.subsystems[13].displacement_millitons, 1_000);
    assert_eq!(spec.subsystems[14].replacement_price_credits, 500_000);
    assert_eq!(spec.subsystems[15].component_kind, "screen");
    assert_eq!(spec.subsystems[15].replacement_price_credits, 10_000_000);
}

#[test]
fn status_needs_the_record_and_the_runtime_figures() {
    let table = [runtime(7, "Far Trader")];
    assert!(ship_status_spec(7, None, &table, &components()).is_none());
    assert!(ship_status_spec(8, Some(RECORD), &table, &components()).is_none());
}

#[test]
fn a_rough_hull_without_scoop_equipment_does_not_scoop() {
    let record = RECORD
        .replace("streamlined", "distributed")
        .replace("fuel-processor", "fuel-scoop");
    let table = [runtime(7, "Far Trader")];
    let spec = ship_status_spec(7, Some(&record), &table, &[]).unwrap();
    assert!(spec.has_fuel_scoop);
    assert_eq!(spec.fuel_processing_millitons_per_day, 0);
    let bare = RECORD.replace("streamlined", "distributed");
    let spec = ship_status_spec(7, Some(&bare), &table, &[]).unwrap();
    assert!(!spec.has_fuel_scoop);
    assert_eq!(spec.subsystems[0].component_kind, "hull");
    assert_eq!(spec.subsystems[0].component_id, "hull");
    assert_eq!(spec.subsystems[13].component_kind, "weaponmount");
    assert_eq!(spec.subsystems[13].component_id, "double-turret");
}
