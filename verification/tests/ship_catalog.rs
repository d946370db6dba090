use cepheus_trader::creation::{ship_catalog_revision, ship_combat_spec, ship_electronics_dm};

const RECORD: &str = "revision = 3\nname = \"Smollett\"\nelectronics = \"basic-military\"\n\n[hull]\nconfiguration = \"streamlined\"\n\n[armor]\npoints = 4\n\n[[mounts]]\nid = \"turret-1\"\nweapons = [\"pulse-laser\", \"sandcaster\"]\nquantity = 2\n\n[[mounts]]\nid = \"turret-2\"\nweapons = [\"missile-rack\"]\n\n[[barbettes]]\nid = \"particle-beam-barbette\"\n\n[[bays]]\nid = \"missile-bay\"\nquantity = 0\n\n[[ammunition]]\nid = \"standard-missile\"\nquantity = 72\n\n[[ammunition]]\nid = \"sand\"\n\n[[screens]]\nid = \"nuclear-damper\"\n\n[[screens]]\nname = \"unnamed\"\n";

#[test]
fn combat_equipment_is_read_from_the_record() {
    let spec = ship_combat_spec(RECORD).unwrap();
    assert_eq!(spec.armor_points, 4);
    let mounts: Vec<(String, Vec<String>, u16)> = spec
        .weapons
        .iter()
        .map(|mount| (mount.mount_id.clone(), mount.weapons.clone(), mount.quantity))
        .collect();
    assert_eq!(
        mounts,
        vec![
            (
                "turret-1".to_string(),
                vec!["pulse-laser".to_string(), "sandcaster".to_string()],
                1
            ),
            (
                "turret-1".to_string(),
                vec!["pulse-laser".to_string(), "sandcaster".to_string()],
                1
            ),
            ("turret-2".to_string(), vec!["missile-rack".to_string()], 1),
            (
                "particle-beam-barbette".to_string(),
                vec!["particle-beam-barbette".to_string()],
                1
            ),
        ]
    );
    assert_eq!(spec.ammunition.len(), 1);
    assert_eq!(spec.ammunition[0].ammunition_id, "standard-missile");
    assert_eq!(spec.ammunition[0].quantity, 72);
    assert_eq!(spec.screens, vec!["nuclear-damper".to_string()]);
}

#[test]
fn a_mount_without_an_id_refuses_the_record() {
    assert!(ship_combat_spec("[[mounts]]\nweapons = [\"pulse-laser\"]\n").is_none());
    assert!(ship_combat_spec("[[bays]]\nquantity = 1\n").is_none());
}

#[test]
fn armor_falls_back_to_armor_points_and_saturates() {
    assert_eq!(ship_combat_spec("armor_points = 7\n").unwrap().armor_points, 7);
    assert_eq!(ship_combat_spec("").unwrap().armor_points, 0);
    assert_eq!(
        ship_combat_spec("[armor]\npoints = 70000\n").unwrap().armor_points,
        u16::MAX
    );
    assert_eq!(
        ship_combat_spec("armor_points = 2\n[armor]\nthickness = 1\n")
            .unwrap()
            .armor_points,
        2
    );
}

#[test]
fn electronics_grades_give_their_dm() {
    assert_eq!(ship_electronics_dm(RECORD), Some(0));
    assert_eq!(ship_electronics_dm("electronics = \"standard\"\n"), Some(-4));
    assert_eq!(ship_electronics_dm("electronics = \"very-advanced\"\n"), Some(2));
    assert_eq!(ship_electronics_dm("electronics = \"experimental\"\n"), None);
}

#[test]
fn record_revision_defaults_to_one() {
    assert_eq!(ship_catalog_revision(RECORD), 3);
    assert_eq!(ship_catalog_revision("name = \"x\"\n"), 1);
}
