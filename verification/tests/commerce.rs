use cepheus_trader::commerce::{
    buyer_lot_quantity, commodity, commodity_legality, common_goods, purchase_cost_credits,
    purchase_price_for_effect, sale_price_for_effect, sale_proceeds_credits,
    starting_operating_reserve, supplier_lots, trade_goods, world_trade_codes, Legality,
    TradeCode, MILLITONS_PER_TON,
};
use cepheus_trader::universe::{Starport, World};

fn world() -> World {
    World {
        id: 1,
        system_id: 1,
        name: "Test".into(),
        starport: Starport::A,
        size: 7,
        atmosphere: 6,
        hydrographics: 6,
        population: 7,
        population_multiplier: 5,
        government: 4,
        law_level: 4,
        tech_level: 13,
        planetoid_belts: 0,
        gas_giants: 1,
    }
}

#[test]
fn revised_catalog_is_complete_and_has_no_unusual_placeholder() {
    let common = common_goods();
    let trade = trade_goods();
    assert_eq!(common.len() + trade.len(), 41);
    assert_eq!(trade.first().unwrap().d66, 11);
    assert_eq!(trade.last().unwrap().d66, 65);
    assert!(trade.iter().all(|item| item.d66 != 66));
    assert!(trade.windows(2).all(|items| items[0].id < items[1].id));
}

#[test]
fn world_trade_codes_follow_ce_uwp_predicates() {
    let codes = world_trade_codes(&world());
    assert!(codes.contains(&TradeCode::Agricultural));
    assert!(codes.contains(&TradeCode::Garden));
    assert!(codes.contains(&TradeCode::Rich));
    assert!(codes.contains(&TradeCode::HighTechnology));
    assert!(!codes.contains(&TradeCode::Industrial));
}

#[test]
fn supplier_search_uses_source_outcomes_and_respects_the_stated_maximum() {
    let failed = supplier_lots([0x42; 32], 31, -1, u64::MAX, &world()).unwrap();
    let succeeded = supplier_lots([0x42; 32], 31, 0, u64::MAX, &world()).unwrap();
    let spectacular = supplier_lots([0x42; 32], 31, 6, u64::MAX, &world()).unwrap();
    assert!(!failed.is_empty());
    assert!(failed.iter().all(|lot| lot.commodity.common));
    assert!(succeeded.iter().any(|lot| !lot.commodity.common));
    assert_eq!(spectacular.len(), succeeded.len() * 2);
    assert!(supplier_lots([0x42; 32], 31, -6, u64::MAX, &world())
        .unwrap()
        .is_empty());

    let bounded = supplier_lots([0x42; 32], 31, 0, 20 * MILLITONS_PER_TON, &world()).unwrap();
    assert!(!bounded.is_empty());
    assert!(bounded
        .iter()
        .all(|lot| lot.quantity_millitons <= 20 * MILLITONS_PER_TON));
}

#[test]
fn buyer_lot_size_and_negotiated_prices_use_the_published_boundaries() {
    let item = commodity(1).unwrap();
    assert_eq!(
        buyer_lot_quantity([0x42; 32], 31, item, MILLITONS_PER_TON, &world()).unwrap(),
        None
    );
    assert_eq!(
        buyer_lot_quantity([0x42; 32], 31, item, 20 * MILLITONS_PER_TON, &world()).unwrap(),
        Some(20 * MILLITONS_PER_TON)
    );
    assert_eq!(purchase_price_for_effect(item, &world(), 6), 800);
    assert_eq!(purchase_price_for_effect(item, &world(), -6), 1_200);
    assert_eq!(sale_price_for_effect(7_500, item, &world(), 6), 9_750);
    assert_eq!(sale_price_for_effect(7_500, item, &world(), -6), 7_500);
}

#[test]
fn restricted_goods_derive_from_law_level() {
    let weapons = commodity(45).unwrap();
    assert_eq!(commodity_legality(weapons, &world()), Legality::Restricted);
    let mut strict = world();
    strict.law_level = 9;
    assert_eq!(commodity_legality(weapons, &strict), Legality::Prohibited);
}

#[test]
fn reserve_fills_the_hold_with_reference_common_goods() {
    assert_eq!(starting_operating_reserve(92_000), 1_840_000);
    assert_eq!(starting_operating_reserve(44_500), 890_000);
}

#[test]
fn fractional_cargo_prices_favour_the_market_at_the_credit_boundary() {
    assert_eq!(purchase_cost_credits(1_100, 1), Some(2));
    assert_eq!(sale_proceeds_credits(1_100, 1), Some(1));
    assert_eq!(purchase_cost_credits(25_000, 1_001), Some(25_025));
    assert_eq!(sale_proceeds_credits(25_000, 1_001), Some(25_025));
}
