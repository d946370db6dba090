use cepheus_trader::catalog_text::chars_of;
use cepheus_trader::combat_rules::weapon_rules;

const SAMPLE: &str = "# combat rules\nrevision = 1\n\n[[weapon]]\nid = \"pulse-laser\"\ndice = 2\nmodifier = 0\ndifficulty_dm = [2, 1, 0, -1, -2, -3, -4]\ntraits = [\"beam\"]\n\n[[weapon]]\nid = \"missile-rack\"\r\ndice = +4\r\nmodifier = -1\r\ndifficulty_dm = [ 0 , 0, 0, 0, 0, 0, 0 ]\r\ntraits = [\"missile\", \"bay\"]\r\nammunition = \"standard-missile\"\r\n";

#[test]
fn weapon_tables_are_read_and_sorted_by_id() {
    let rules = weapon_rules(SAMPLE).unwrap();
    assert_eq!(rules.len(), 2);
    assert_eq!(rules[0].id, "missile-rack");
    assert_eq!(rules[1].id, "pulse-laser");

    let missile = &rules[0];
    assert_eq!(missile.damage.dice, 4);
    assert_eq!(missile.damage.modifier, -1);
    assert_eq!(missile.difficulty_dm, [0; 7]);
    assert!(missile.missile && missile.bay);
    assert!(!missile.beam && !missile.radiation && !missile.meson && !missile.sand);
    assert_eq!(missile.ammunition_id.as_deref(), Some("standard-missile"));

    let laser = &rules[1];
    assert_eq!(laser.damage.dice, 2);
    assert_eq!(laser.damage.modifier, 0);
    assert_eq!(laser.difficulty_dm, [2, 1, 0, -1, -2, -3, -4]);
    assert!(laser.beam);
    assert!(!laser.missile && !laser.bay);
    assert_eq!(laser.ammunition_id, None);
}

#[test]
fn a_catalog_without_weapon_tables_has_no_rules() {
    assert!(weapon_rules("revision = 1\n").unwrap().is_empty());
    assert!(weapon_rules("").unwrap().is_empty());
}

#[test]
fn equal_ids_keep_their_catalog_order() {
    let source = "[[weapon]]\nid = \"b\"\ndice = 1\nmodifier = 0\ndifficulty_dm = [0,0,0,0,0,0,0]\n[[weapon]]\nid = \"a\"\ndice = 2\nmodifier = 0\ndifficulty_dm = [0,0,0,0,0,0,0]\n[[weapon]]\nid = \"b\"\ndice = 3\nmodifier = 0\ndifficulty_dm = [0,0,0,0,0,0,0]\n";
    let rules = weapon_rules(source).unwrap();
    let read: Vec<(String, u8)> = rules
        .iter()
        .map(|rule| (rule.id.clone(), rule.damage.dice))
        .collect();
    assert_eq!(
        read,
        vec![
            ("a".to_string(), 2),
            ("b".to_string(), 1),
            ("b".to_string(), 3)
        ]
    );
}

#[test]
fn each_problem_of_a_weapon_table_is_named() {
    let full = "dice = 1\nmodifier = 0\ndifficulty_dm = [0,0,0,0,0,0,0]\n";
    assert_eq!(
        weapon_rules(&format!("[[weapon]]\n{full}")).unwrap_err(),
        "weapon rule without id"
    );
    assert_eq!(
        weapon_rules("[[weapon]]\nid = \"gun\"\nmodifier = 0\n").unwrap_err(),
        "gun: missing dice"
    );
    assert_eq!(
        weapon_rules("[[weapon]]\nid = \"gun\"\ndice = many\nmodifier = 0\n").unwrap_err(),
        "gun: missing dice"
    );
    assert_eq!(
        weapon_rules("[[weapon]]\nid = \"gun\"\ndice = 1\n").unwrap_err(),
        "gun: missing modifier"
    );
    assert_eq!(
        weapon_rules("[[weapon]]\nid = \"gun\"\ndice = 1\nmodifier = 0\ndifficulty_dm = [0, 0]\n")
            .unwrap_err(),
        "gun: difficulty_dm must contain seven entries"
    );
    assert_eq!(
        weapon_rules(
            "[[weapon]]\nid = \"gun\"\ndice = 300\nmodifier = 0\ndifficulty_dm = [0,0,0,0,0,0,0]\n"
        )
        .unwrap_err(),
        "weapon dice overflow"
    );
    assert_eq!(
        weapon_rules(
            "[[weapon]]\nid = \"gun\"\ndice = 3\nmodifier = -200\ndifficulty_dm = [0,0,0,0,0,0,0]\n"
        )
        .unwrap_err(),
        "weapon modifier overflow"
    );
}

#[test]
fn the_first_faulty_table_decides_the_refusal() {
    let source = "[[weapon]]\nid = \"a\"\n[[weapon]]\ndice = 1\n";
    assert_eq!(weapon_rules(source).unwrap_err(), "a: missing dice");
}

#[test]
fn unreadable_difficulty_items_are_skipped() {
    let source = "[[weapon]]\nid = \"gun\"\ndice = 1\nmodifier = 0\ndifficulty_dm = [1, x, 2, 3, 300, 4, 5, 6, 7]\n";
    let rules = weapon_rules(source).unwrap();
    assert_eq!(rules[0].difficulty_dm, [1, 2, 3, 4, 5, 6, 7]);
}

#[test]
fn the_first_assignment_of_a_key_counts() {
    let source = "[[weapon]]\nid = \"first\"\nid = \"second\"\ndice = 7\ndice = 8\nmodifier = 1\ndifficulty_dm = [0,0,0,0,0,0,0]\n";
    let rules = weapon_rules(source).unwrap();
    assert_eq!(rules[0].id, "first");
    assert_eq!(rules[0].damage.dice, 7);
}

#[test]
fn characters_are_read_in_order() {
    assert_eq!(chars_of("a\u{e9}b"), vec!['a', '\u{e9}', 'b']);
    assert!(chars_of("").is_empty());
}
