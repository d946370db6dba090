use cepheus_trader::creation::{
    offer_catalog_revision, offer_summaries, starting_offer_terms, starting_offers,
    ship_options, validate_refit_options, RuntimeShip, ShipRecord, StarterCatalog, SETUP_REVISION,
};
use cepheus_trader::wire::{Career, StartingTitleKind};

const OFFERS: &str = "# starting offers\n\n[[offer]]\noffer_id = 1\nhome_path_id = 2\ncareer = \"trader\"\npackage_kind = \"long-haul\"\nship_tag = \"ship-7\"\nselection_rationale = \"Cargo first\"\n\n[[offer]]\noffer_id = 2\nhome_path_id = 2\ncareer = \"navy\"\npackage_kind = \"patrol\"\nship_tag = \"ship-7\"\nselection_rationale = \"Guns\"\n\n[[offer]]\noffer_id = 3\nhome_path_id = 5\ncareer = \"privateer\"\npackage_kind = \"letter-of-marque\"\nship_tag = \"ship-7\"\nselection_rationale = \"Prizes\"\n";

const SHIP: &str = "catalog_id = 7\nrevision = 3\ndescription_paragraphs = [\"First paragraph.\", \"Second with \\\"quote\\\".\"]\ndisplay_name = \"Far Trader\"\nprimary_role = \"far-trader\"\njump_distance = 2\nthrust_g = 1\ncargo_millitons = 82000\nfuel_millitons = 40000\nmonthly_life_support_credits = 22000\n\n[hull]\nid = \"ship-200\"\nconfiguration = \"streamlined\"\n\n[fuel]\njump_distance = 2\n\n[[crew]]\nrole = \"pilot\"\n\n[[crew]]\nrole = \"engineer\"\nquantity = 2\n";

fn catalog() -> StarterCatalog {
    StarterCatalog {
        offers: starting_offers(OFFERS),
        ships: vec![ShipRecord {
            catalog_id: 7,
            source: SHIP.to_string(),
        }],
        runtime: vec![RuntimeShip {
            catalog_id: 7,
            class_name: "Far Trader".to_string(),
            tech_level: 12,
            price_credits: 60_000_000,
            displacement_millitons: 200_000,
            jump_rating: 2,
            thrust_g: 1,
            fuel_millitons: 40_000,
            jump_fuel_millitons: 40_000,
            cargo_millitons: 82_000,
            minimum_crew: 3,
            passenger_accommodation_berths: 6,
            provision_capacity_persons: 11,
            low_berths: 20,
            monthly_life_support_credits: 22_000,
        }],
        components: vec![],
    }
}

#[test]
fn offers_are_read_in_catalog_order() {
    let offers = starting_offers(OFFERS);
    assert_eq!(offers.len(), 3);
    assert_eq!(offers[0].id, 1);
    assert_eq!(offers[0].path, 2);
    assert_eq!(offers[0].career, Career::Trader);
    assert_eq!(offers[0].package, "Long Haul");
    assert_eq!(offers[0].ship, 7);
    assert_eq!(offers[0].rationale, "Cargo first");
    assert_eq!(offers[1].career, Career::Navy);
    assert_eq!(offers[2].career, Career::Privateer);
    assert_eq!(offers[2].package, "Letter Of Marque");
    assert!(starting_offers("").is_empty());
}

#[test]
fn summaries_cover_the_offers_of_a_path() {
    let summaries = offer_summaries(&catalog(), 2);
    assert_eq!(summaries.len(), 2);
    let first = &summaries[0];
    assert_eq!(first.offer_id, 1);
    assert_eq!(first.ship_catalog_id, 7);
    assert_eq!(first.ship_name, "Far Trader");
    assert_eq!(first.role, "Far Trader");
    assert_eq!(first.displacement_tons, 200);
    assert_eq!(first.jump_rating, 2);
    assert_eq!(first.thrust_g, 1);
    assert_eq!(first.cargo_millitons, 82_000);
    assert_eq!(first.crew_count, 3);
    assert_eq!(first.price_credits, 60_000_000);
    assert_eq!(summaries[1].offer_id, 2);
    assert_eq!(offer_summaries(&catalog(), 5).len(), 1);
    assert!(offer_summaries(&catalog(), 9).is_empty());
}

#[test]
fn trader_terms_finance_the_hull_with_a_lien() {
    let terms = starting_offer_terms(&catalog(), 2, 1).unwrap();
    assert_eq!(terms.title, StartingTitleKind::OwnedWithLien);
    assert_eq!(terms.equity_credits, 12_000_000);
    assert_eq!(terms.principal_credits, 48_000_000);
    assert_eq!(terms.monthly_payment_credits, 250_000);
    assert_eq!(terms.liquid_reserve_credits, 102_250 + 1_640_000);
    assert_eq!(terms.restricted_reserve_credits, 0);
    assert_eq!(terms.refit_credit_limit, 20_000_000);
}

#[test]
fn navy_and_privateer_terms_restrict_the_running_costs() {
    let navy = starting_offer_terms(&catalog(), 2, 2).unwrap();
    assert_eq!(navy.title, StartingTitleKind::InstitutionOwned);
    assert_eq!(navy.restricted_reserve_credits, 102_250);
    assert_eq!(navy.monthly_compensation_credits, 6_000);
    assert_eq!(navy.liquid_reserve_credits, 0);
    let privateer = starting_offer_terms(&catalog(), 5, 3).unwrap();
    assert_eq!(privateer.title, StartingTitleKind::SponsorOwned);
    assert_eq!(privateer.liquid_reserve_credits, 1_640_000);
    assert_eq!(privateer.restricted_reserve_credits, 102_250);
    assert!(starting_offer_terms(&catalog(), 5, 1).is_none());
}

#[test]
fn catalog_revision_comes_from_the_offer_ship() {
    assert_eq!(offer_catalog_revision(&catalog(), 2, 1), Some(3));
    assert_eq!(offer_catalog_revision(&catalog(), 2, 4), None);
}

#[test]
fn refit_choices_follow_the_career_and_the_cargo_space() {
    let full = catalog();
    assert_eq!(validate_refit_options(&full, 2, 1, &[1]), Ok((0, 0)));
    assert_eq!(validate_refit_options(&full, 2, 1, &[2]), Ok((10_000, 10_000)));
    assert_eq!(validate_refit_options(&full, 2, 2, &[4]), Ok((10_000, 10_000)));
    assert_eq!(validate_refit_options(&full, 5, 3, &[3]), Ok((10_000, 10_000)));
    assert_eq!(
        validate_refit_options(&full, 2, 1, &[3]),
        Err("starting refit option is not available for this offer".to_string())
    );
    assert_eq!(
        validate_refit_options(&full, 2, 1, &[]),
        Err("choose exactly one option from the starting refit group".to_string())
    );
    assert_eq!(
        validate_refit_options(&full, 2, 1, &[1, 2]),
        Err("choose exactly one option from the starting refit group".to_string())
    );
    assert_eq!(
        validate_refit_options(&full, 3, 1, &[1]),
        Err("starting offer is not available".to_string())
    );
    let mut small = catalog();
    small.runtime[0].cargo_millitons = 9_000;
    assert_eq!(validate_refit_options(&small, 2, 1, &[1]), Ok((0, 0)));
    assert_eq!(
        validate_refit_options(&small, 2, 1, &[2]),
        Err("starting refit option is not available for this offer".to_string())
    );
}

#[test]
fn ship_options_show_description_terms_and_refit() {
    let options = ship_options(&catalog(), 2, SETUP_REVISION, 1).unwrap();
    assert_eq!(options.setup_revision, SETUP_REVISION);
    assert_eq!(options.offer.offer_id, 1);
    assert_eq!(
        options.description_paragraphs,
        vec!["First paragraph.".to_string(), "Second with \"quote\".".to_string()]
    );
    assert_eq!(options.terms.title, StartingTitleKind::OwnedWithLien);
    assert_eq!(options.refit_groups.len(), 1);
    let group = &options.refit_groups[0];
    assert!(group.required);
    assert_eq!(group.name, "Commercial endurance: scheduled-route reserve");
    assert_eq!(group.options.len(), 2);
    assert_eq!(group.options[0].option_id, 1);
    assert_eq!(group.options[0].name, "Standard fit");
    assert_eq!(group.options[1].option_id, 2);
    assert_eq!(group.options[1].name, "scheduled-route reserve");
    let navy = ship_options(&catalog(), 2, SETUP_REVISION, 2).unwrap();
    assert_eq!(navy.refit_groups[0].name, "Mission endurance: escort reserve");
    assert_eq!(navy.refit_groups[0].options[1].option_id, 4);
    assert!(ship_options(&catalog(), 2, SETUP_REVISION + 1, 1).is_none());
    assert!(ship_options(&catalog(), 4, SETUP_REVISION, 1).is_none());
}
