//! Cepheus Trader's authoritative merchant rules.
//!
//! Generic commodity data and availability come from the revised Open Game
//! Content table in *Bounded Fortune*.  Proper names from its optional colour
//! tables are intentionally absent.  Negotiation uses the Clement task
//! outcomes instead of the core CE extreme-percentage table.

use vstd::prelude::*;
use crate::arith::{be_bytes_spec, push_be_bytes, sat_mul, sat_mul_spec};
use crate::crypto::{
    derive_seed, derived_seed, extend_bytes, stream_word, CryptoError, SeedStream,
};
use crate::universe::{agricultural, industrial, Starport, World};

verus! {

pub const REFINED_FUEL_PRICE_PER_TON: u64 = 500;
pub const MILLITONS_PER_TON: u64 = 1_000;
pub const STARTING_RESERVE_REFERENCE_PRICE_PER_TON: u64 = 20_000;
pub const FREIGHT_RATE_PER_TON_PARSEC: u64 = 3_500;
pub const HIGH_PASSAGE_RATE_PER_PARSEC: u64 = 25_000;
pub const MIDDLE_PASSAGE_RATE_PER_PARSEC: u64 = 10_000;
pub const STEERAGE_PASSAGE_RATE_PER_PARSEC: u64 = 5_000;
pub const LOW_PASSAGE_RATE: u64 = 2_000;
pub const COMMODITY_COUNT: u64 = 41;

#[derive(Clone, Copy, Debug, PartialEq, Eq, Structural, PartialOrd, Ord)]
pub enum TradeCode {
    Agricultural,
    Asteroid,
    FluidOceans,
    Garden,
    HighPopulation,
    HighTechnology,
    IceCapped,
    Industrial,
    NonAgricultural,
    NonIndustrial,
    Poor,
    Rich,
    Vacuum,
}

/// The two-letter code of a trade classification.
pub open spec fn trade_code_label(code: TradeCode) -> Seq<char> {
    match code {
        TradeCode::Agricultural => "Ag"@,
        TradeCode::Asteroid => "As"@,
        TradeCode::FluidOceans => "Fl"@,
        TradeCode::Garden => "Ga"@,
        TradeCode::HighPopulation => "Hi"@,
        TradeCode::HighTechnology => "Ht"@,
        TradeCode::IceCapped => "Ic"@,
        TradeCode::Industrial => "In"@,
        TradeCode::NonAgricultural => "Na"@,
        TradeCode::NonIndustrial => "Ni"@,
        TradeCode::Poor => "Po"@,
        TradeCode::Rich => "Ri"@,
        TradeCode::Vacuum => "Va"@,
    }
}

impl TradeCode {
    pub fn label(self) -> (r: &'static str)
        ensures
            r@ == trade_code_label(self),
    {
        match self {
            Self::Agricultural => "Ag",
            Self::Asteroid => "As",
            Self::FluidOceans => "Fl",
            Self::Garden => "Ga",
            Self::HighPopulation => "Hi",
            Self::HighTechnology => "Ht",
            Self::IceCapped => "Ic",
            Self::Industrial => "In",
            Self::NonAgricultural => "Na",
            Self::NonIndustrial => "Ni",
            Self::Poor => "Po",
            Self::Rich => "Ri",
            Self::Vacuum => "Va",
        }
    }
}

#[derive(Clone, Copy, Debug, PartialEq, Eq)]
pub struct TradeModifier {
    pub code: TradeCode,
    pub dm: i8,
}

#[derive(Clone, Copy, Debug, PartialEq, Eq)]
pub struct QuantityDice {
    pub dice: u8,
    pub sides: u8,
    pub multiplier_tons: u16,
}

#[derive(Clone, Copy, Debug, PartialEq, Eq)]
pub struct CommodityDefinition {
    pub id: u16,
    pub d66: u8,
    pub name: &'static str,
    pub base_price_per_ton: u64,
    pub quantity: QuantityDice,
    pub purchase_modifiers: [TradeModifier; 2],
    pub sale_modifiers: [TradeModifier; 2],
    pub common: bool,
}

pub open spec fn q_spec(dice: u8, multiplier_tons: u16) -> QuantityDice {
    QuantityDice { dice, sides: 6, multiplier_tons }
}

fn q(dice: u8, multiplier_tons: u16) -> (r: QuantityDice)
    ensures
        r == q_spec(dice, multiplier_tons),
{
    QuantityDice { dice, sides: 6, multiplier_tons }
}

pub open spec fn m_spec(code: TradeCode, dm: i8) -> TradeModifier {
    TradeModifier { code, dm }
}

fn m(code: TradeCode, dm: i8) -> (r: TradeModifier)
    ensures
        r == m_spec(code, dm),
{
    TradeModifier { code, dm }
}

/// The neutral modifier that fills unused modifier slots.
pub open spec fn none_spec() -> TradeModifier {
    TradeModifier { code: TradeCode::Vacuum, dm: 0 }
}

fn none() -> (r: TradeModifier)
    ensures
        r == none_spec(),
{
    TradeModifier { code: TradeCode::Vacuum, dm: 0 }
}

pub open spec fn good_spec(
    id: u16,
    d66: u8,
    name: &'static str,
    price: u64,
    quantity: QuantityDice,
    purchase: [TradeModifier; 2],
    sale: [TradeModifier; 2],
) -> CommodityDefinition {
    CommodityDefinition {
        id,
        d66,
        name,
        base_price_per_ton: price,
        quantity,
        purchase_modifiers: purchase,
        sale_modifiers: sale,
        common: false,
    }
}

fn good(
    id: u16,
    d66: u8,
    name: &'static str,
    price: u64,
    quantity: QuantityDice,
    purchase: [TradeModifier; 2],
    sale: [TradeModifier; 2],
) -> (r: CommodityDefinition)
    ensures
        r == good_spec(id, d66, name, price, quantity, purchase, sale),
{
    CommodityDefinition {
        id,
        d66,
        name,
        base_price_per_ton: price,
        quantity,
        purchase_modifiers: purchase,
        sale_modifiers: sale,
        common: false,
    }
}

pub open spec fn common_spec(id: u16, name: &'static str, price: u64) -> CommodityDefinition {
    CommodityDefinition {
        id,
        d66: 0,
        name,
        base_price_per_ton: price,
        quantity: q_spec(2, 5),
        purchase_modifiers: [none_spec(), none_spec()],
        sale_modifiers: [none_spec(), none_spec()],
        common: true,
    }
}

fn common(id: u16, name: &'static str, price: u64) -> (r: CommodityDefinition)
    ensures
        r == common_spec(id, name, price),
{
    CommodityDefinition {
        id,
        d66: 0,
        name,
        base_price_per_ton: price,
        quantity: q(2, 5),
        purchase_modifiers: [none(), none()],
        sale_modifiers: [none(), none()],
        common: true,
    }
}

/// The six common goods, in catalogue order.
pub open spec fn common_goods_spec() -> Seq<CommodityDefinition> {
    seq![
        common_spec(1, "Basic Consumable Goods", 1_000),
        common_spec(2, "Basic Electronics", 25_000),
        common_spec(3, "Basic Machine Parts", 10_000),
        common_spec(4, "Basic Manufactured Goods", 20_000),
        common_spec(5, "Basic Raw Materials", 5_000),
        common_spec(6, "Basic Unrefined Ore", 2_000),
    ]
}

/// The revised Bounded Fortune trade-goods table.  Result 66 is deliberately
/// not a generic commodity: unusual objects need an individually
/// materialized record.
pub open spec fn trade_goods_spec() -> Seq<CommodityDefinition> {
    seq![
        good_spec(11, 11, "Electronics", 100_000, q_spec(1, 5), [m_spec(TradeCode::HighTechnology, 1), m_spec(TradeCode::Industrial, 2)], [m_spec(TradeCode::NonIndustrial, 1), m_spec(TradeCode::Poor, 1)]),
        good_spec(12, 12, "Sporting Equipment", 5_500, q_spec(2, 5), [m_spec(TradeCode::Industrial, 2), m_spec(TradeCode::Rich, 2)], [m_spec(TradeCode::HighPopulation, 2), m_spec(TradeCode::NonIndustrial, 2)]),
        good_spec(13, 13, "Agricultural Equipment", 150_000, q_spec(1, 1), [m_spec(TradeCode::Industrial, 2), m_spec(TradeCode::Rich, 1)], [m_spec(TradeCode::Agricultural, 2), m_spec(TradeCode::Garden, 1)]),
        good_spec(14, 14, "Animal Products", 1_500, q_spec(4, 5), [m_spec(TradeCode::Agricultural, 1), m_spec(TradeCode::Garden, 2)], [m_spec(TradeCode::HighPopulation, 1), m_spec(TradeCode::Rich, 2)]),
        good_spec(15, 15, "Collectibles", 50_000, q_spec(1, 1), [m_spec(TradeCode::Industrial, 1), m_spec(TradeCode::Rich, 2)], [m_spec(TradeCode::HighPopulation, 1), m_spec(TradeCode::NonIndustrial, 1)]),
        good_spec(16, 16, "Computers and Handcomps", 150_000, q_spec(2, 1), [m_spec(TradeCode::HighTechnology, 2), m_spec(TradeCode::Industrial, 1)], [m_spec(TradeCode::NonAgricultural, 1), m_spec(TradeCode::NonIndustrial, 1)]),
        good_spec(17, 21, "Crystals and Gems", 20_000, q_spec(1, 5), [m_spec(TradeCode::NonIndustrial, 2), m_spec(TradeCode::NonAgricultural, 1)], [m_spec(TradeCode::Industrial, 1), m_spec(TradeCode::Rich, 1)]),
        good_spec(18, 22, "Cybernetics", 250_000, q_spec(1, 5), [m_spec(TradeCode::HighTechnology, 2), m_spec(TradeCode::Rich, 1)], [m_spec(TradeCode::NonAgricultural, 1), m_spec(TradeCode::NonIndustrial, 1)]),
        good_spec(19, 23, "Food Service Equipment", 4_000, q_spec(2, 1), [m_spec(TradeCode::Industrial, 2), m_spec(TradeCode::NonAgricultural, 1)], [m_spec(TradeCode::Agricultural, 1), m_spec(TradeCode::NonIndustrial, 1)]),
        good_spec(20, 24, "Furniture", 5_000, q_spec(4, 1), [m_spec(TradeCode::Agricultural, 1), m_spec(TradeCode::Garden, 2)], [m_spec(TradeCode::HighPopulation, 1), m_spec(TradeCode::Rich, 2)]),
        good_spec(21, 25, "Gambling Equipment", 4_000, q_spec(1, 1), [m_spec(TradeCode::HighPopulation, 1), m_spec(TradeCode::Rich, 1)], [m_spec(TradeCode::NonAgricultural, 1), m_spec(TradeCode::NonIndustrial, 1)]),
        good_spec(22, 26, "Vehicles", 160_000, q_spec(1, 1), [m_spec(TradeCode::HighTechnology, 2), m_spec(TradeCode::Rich, 1)], [m_spec(TradeCode::NonIndustrial, 2), m_spec(TradeCode::Poor, 1)]),
        good_spec(23, 31, "Grocery Products", 6_000, q_spec(1, 5), [m_spec(TradeCode::Agricultural, 3), m_spec(TradeCode::Garden, 2)], [m_spec(TradeCode::HighPopulation, 1), m_spec(TradeCode::Rich, 2)]),
        good_spec(24, 32, "Household Appliances", 12_000, q_spec(4, 1), [m_spec(TradeCode::HighPopulation, 2), m_spec(TradeCode::Industrial, 3)], [m_spec(TradeCode::NonAgricultural, 1), m_spec(TradeCode::NonIndustrial, 2)]),
        good_spec(25, 33, "Industrial Supplies", 75_000, q_spec(2, 1), [m_spec(TradeCode::Industrial, 3), m_spec(TradeCode::Rich, 2)], [m_spec(TradeCode::NonAgricultural, 1), m_spec(TradeCode::NonIndustrial, 2)]),
        good_spec(26, 34, "Liquor and Other Intoxicants", 15_000, q_spec(1, 5), [m_spec(TradeCode::Agricultural, 2), m_spec(TradeCode::Garden, 1)], [m_spec(TradeCode::Industrial, 1), m_spec(TradeCode::Rich, 2)]),
        good_spec(27, 35, "Luxury Goods and Rarities", 150_000, q_spec(1, 1), [m_spec(TradeCode::Agricultural, 1), m_spec(TradeCode::Garden, 2)], [m_spec(TradeCode::Industrial, 1), m_spec(TradeCode::Rich, 2)]),
        good_spec(28, 36, "Manufacturing Equipment", 750_000, q_spec(1, 5), [m_spec(TradeCode::Industrial, 2), m_spec(TradeCode::Rich, 2)], [m_spec(TradeCode::NonAgricultural, 1), m_spec(TradeCode::NonIndustrial, 2)]),
        good_spec(29, 41, "Medical Equipment", 50_000, q_spec(1, 5), [m_spec(TradeCode::HighTechnology, 2), m_spec(TradeCode::Rich, 2)], [m_spec(TradeCode::HighPopulation, 1), m_spec(TradeCode::Industrial, 2)]),
        good_spec(30, 42, "Petrochemicals", 10_000, q_spec(2, 5), [m_spec(TradeCode::NonAgricultural, 2), m_spec(TradeCode::NonIndustrial, 2)], [m_spec(TradeCode::Agricultural, 1), m_spec(TradeCode::Industrial, 2)]),
        good_spec(31, 43, "Pharmaceuticals", 100_000, q_spec(1, 1), [m_spec(TradeCode::HighTechnology, 3), none_spec()], [m_spec(TradeCode::Industrial, 2), m_spec(TradeCode::Rich, 1)]),
        good_spec(32, 44, "Polymers", 7_000, q_spec(4, 5), [m_spec(TradeCode::Industrial, 2), m_spec(TradeCode::Rich, 1)], [m_spec(TradeCode::NonIndustrial, 2), m_spec(TradeCode::Vacuum, 1)]),
        good_spec(33, 45, "Precious Metals", 50_000, q_spec(1, 1), [m_spec(TradeCode::Asteroid, 3), m_spec(TradeCode::IceCapped, 2)], [m_spec(TradeCode::Industrial, 1), m_spec(TradeCode::Rich, 2)]),
        good_spec(34, 46, "Radioactive Ore", 1_000_000, q_spec(1, 1), [m_spec(TradeCode::Asteroid, 2), m_spec(TradeCode::NonIndustrial, 3)], [m_spec(TradeCode::Industrial, 2), m_spec(TradeCode::HighTechnology, 1)]),
        good_spec(35, 51, "Robots and Drones", 500_000, q_spec(1, 5), [m_spec(TradeCode::HighTechnology, 3), m_spec(TradeCode::Industrial, 2)], [m_spec(TradeCode::NonIndustrial, 1), m_spec(TradeCode::Rich, 2)]),
        good_spec(36, 52, "Scientific Equipment", 50_000, q_spec(1, 5), [m_spec(TradeCode::HighTechnology, 3), m_spec(TradeCode::Rich, 2)], [m_spec(TradeCode::HighPopulation, 2), m_spec(TradeCode::NonIndustrial, 1)]),
        good_spec(37, 53, "Survival Gear", 4_000, q_spec(2, 1), [m_spec(TradeCode::Garden, 2), m_spec(TradeCode::Rich, 2)], [m_spec(TradeCode::FluidOceans, 2), m_spec(TradeCode::Vacuum, 1)]),
        good_spec(38, 54, "Textiles", 3_000, q_spec(3, 5), [m_spec(TradeCode::Agricultural, 3), m_spec(TradeCode::NonIndustrial, 2)], [m_spec(TradeCode::NonAgricultural, 1), m_spec(TradeCode::Rich, 2)]),
        good_spec(39, 55, "Construction Supplies", 20_000, q_spec(2, 5), [m_spec(TradeCode::Agricultural, 3), m_spec(TradeCode::NonIndustrial, 2)], [m_spec(TradeCode::Industrial, 2), m_spec(TradeCode::NonAgricultural, 1)]),
        good_spec(40, 56, "Raw Materials", 20_000, q_spec(2, 5), [m_spec(TradeCode::Asteroid, 2), m_spec(TradeCode::Vacuum, 1)], [m_spec(TradeCode::Industrial, 2), m_spec(TradeCode::NonAgricultural, 1)]),
        good_spec(41, 61, "Live Animals", 25_000, q_spec(5, 5), [m_spec(TradeCode::Agricultural, 3), m_spec(TradeCode::Garden, 2)], [m_spec(TradeCode::HighPopulation, 1), m_spec(TradeCode::Industrial, 2)]),
        good_spec(42, 62, "Children's Toys", 5_000, q_spec(2, 5), [m_spec(TradeCode::Industrial, 2), m_spec(TradeCode::Rich, 2)], [m_spec(TradeCode::HighPopulation, 2), m_spec(TradeCode::NonIndustrial, 1)]),
        good_spec(43, 63, "Medical Laboratory Equipment", 50_000, q_spec(1, 5), [m_spec(TradeCode::HighTechnology, 2), m_spec(TradeCode::Rich, 3)], [m_spec(TradeCode::Industrial, 2), m_spec(TradeCode::NonAgricultural, 2)]),
        good_spec(44, 64, "Military Supplies", 150_000, q_spec(2, 1), [m_spec(TradeCode::HighTechnology, 3), m_spec(TradeCode::Industrial, 2)], [m_spec(TradeCode::HighPopulation, 2), m_spec(TradeCode::NonIndustrial, 2)]),
        good_spec(45, 65, "Personal Weapons and Armor", 30_000, q_spec(2, 1), [m_spec(TradeCode::Industrial, 3), m_spec(TradeCode::Rich, 2)], [m_spec(TradeCode::NonIndustrial, 2), m_spec(TradeCode::Poor, 2)]),
    ]
}

/// The whole catalogue: common goods first, then trade goods.
pub open spec fn catalog_spec() -> Seq<CommodityDefinition> {
    common_goods_spec() + trade_goods_spec()
}

pub fn common_goods() -> (r: [CommodityDefinition; 6])
    ensures
        r@ == common_goods_spec(),
{
    let r = [
        common(1, "Basic Consumable Goods", 1_000),
        common(2, "Basic Electronics", 25_000),
        common(3, "Basic Machine Parts", 10_000),
        common(4, "Basic Manufactured Goods", 20_000),
        common(5, "Basic Raw Materials", 5_000),
        common(6, "Basic Unrefined Ore", 2_000),
    ];
    assert(r@ =~= common_goods_spec());
    r
}

pub fn trade_goods() -> (r: [CommodityDefinition; 35])
    ensures
        r@ == trade_goods_spec(),
{
    let r = [
        good(11, 11, "Electronics", 100_000, q(1, 5), [m(TradeCode::HighTechnology, 1), m(TradeCode::Industrial, 2)], [m(TradeCode::NonIndustrial, 1), m(TradeCode::Poor, 1)]),
        good(12, 12, "Sporting Equipment", 5_500, q(2, 5), [m(TradeCode::Industrial, 2), m(TradeCode::Rich, 2)], [m(TradeCode::HighPopulation, 2), m(TradeCode::NonIndustrial, 2)]),
        good(13, 13, "Agricultural Equipment", 150_000, q(1, 1), [m(TradeCode::Industrial, 2), m(TradeCode::Rich, 1)], [m(TradeCode::Agricultural, 2), m(TradeCode::Garden, 1)]),
        good(14, 14, "Animal Products", 1_500, q(4, 5), [m(TradeCode::Agricultural, 1), m(TradeCode::Garden, 2)], [m(TradeCode::HighPopulation, 1), m(TradeCode::Rich, 2)]),
        good(15, 15, "Collectibles", 50_000, q(1, 1), [m(TradeCode::Industrial, 1), m(TradeCode::Rich, 2)], [m(TradeCode::HighPopulation, 1), m(TradeCode::NonIndustrial, 1)]),
        good(16, 16, "Computers and Handcomps", 150_000, q(2, 1), [m(TradeCode::HighTechnology, 2), m(TradeCode::Industrial, 1)], [m(TradeCode::NonAgricultural, 1), m(TradeCode::NonIndustrial, 1)]),
        good(17, 21, "Crystals and Gems", 20_000, q(1, 5), [m(TradeCode::NonIndustrial, 2), m(TradeCode::NonAgricultural, 1)], [m(TradeCode::Industrial, 1), m(TradeCode::Rich, 1)]),
        good(18, 22, "Cybernetics", 250_000, q(1, 5), [m(TradeCode::HighTechnology, 2), m(TradeCode::Rich, 1)], [m(TradeCode::NonAgricultural, 1), m(TradeCode::NonIndustrial, 1)]),
        good(19, 23, "Food Service Equipment", 4_000, q(2, 1), [m(TradeCode::Industrial, 2), m(TradeCode::NonAgricultural, 1)], [m(TradeCode::Agricultural, 1), m(TradeCode::NonIndustrial, 1)]),
        good(20, 24, "Furniture", 5_000, q(4, 1), [m(TradeCode::Agricultural, 1), m(TradeCode::Garden, 2)], [m(TradeCode::HighPopulation, 1), m(TradeCode::Rich, 2)]),
        good(21, 25, "Gambling Equipment", 4_000, q(1, 1), [m(TradeCode::HighPopulation, 1), m(TradeCode::Rich, 1)], [m(TradeCode::NonAgricultural, 1), m(TradeCode::NonIndustrial, 1)]),
        good(22, 26, "Vehicles", 160_000, q(1, 1), [m(TradeCode::HighTechnology, 2), m(TradeCode::Rich, 1)], [m(TradeCode::NonIndustrial, 2), m(TradeCode::Poor, 1)]),
        good(23, 31, "Grocery Products", 6_000, q(1, 5), [m(TradeCode::Agricultural, 3), m(TradeCode::Garden, 2)], [m(TradeCode::HighPopulation, 1), m(TradeCode::Rich, 2)]),
        good(24, 32, "Household Appliances", 12_000, q(4, 1), [m(TradeCode::HighPopulation, 2), m(TradeCode::Industrial, 3)], [m(TradeCode::NonAgricultural, 1), m(TradeCode::NonIndustrial, 2)]),
        good(25, 33, "Industrial Supplies", 75_000, q(2, 1), [m(TradeCode::Industrial, 3), m(TradeCode::Rich, 2)], [m(TradeCode::NonAgricultural, 1), m(TradeCode::NonIndustrial, 2)]),
        good(26, 34, "Liquor and Other Intoxicants", 15_000, q(1, 5), [m(TradeCode::Agricultural, 2), m(TradeCode::Garden, 1)], [m(TradeCode::Industrial, 1), m(TradeCode::Rich, 2)]),
        good(27, 35, "Luxury Goods and Rarities", 150_000, q(1, 1), [m(TradeCode::Agricultural, 1), m(TradeCode::Garden, 2)], [m(TradeCode::Industrial, 1), m(TradeCode::Rich, 2)]),
        good(28, 36, "Manufacturing Equipment", 750_000, q(1, 5), [m(TradeCode::Industrial, 2), m(TradeCode::Rich, 2)], [m(TradeCode::NonAgricultural, 1), m(TradeCode::NonIndustrial, 2)]),
        good(29, 41, "Medical Equipment", 50_000, q(1, 5), [m(TradeCode::HighTechnology, 2), m(TradeCode::Rich, 2)], [m(TradeCode::HighPopulation, 1), m(TradeCode::Industrial, 2)]),
        good(30, 42, "Petrochemicals", 10_000, q(2, 5), [m(TradeCode::NonAgricultural, 2), m(TradeCode::NonIndustrial, 2)], [m(TradeCode::Agricultural, 1), m(TradeCode::Industrial, 2)]),
        good(31, 43, "Pharmaceuticals", 100_000, q(1, 1), [m(TradeCode::HighTechnology, 3), none()], [m(TradeCode::Industrial, 2), m(TradeCode::Rich, 1)]),
        good(32, 44, "Polymers", 7_000, q(4, 5), [m(TradeCode::Industrial, 2), m(TradeCode::Rich, 1)], [m(TradeCode::NonIndustrial, 2), m(TradeCode::Vacuum, 1)]),
        good(33, 45, "Precious Metals", 50_000, q(1, 1), [m(TradeCode::Asteroid, 3), m(TradeCode::IceCapped, 2)], [m(TradeCode::Industrial, 1), m(TradeCode::Rich, 2)]),
        good(34, 46, "Radioactive Ore", 1_000_000, q(1, 1), [m(TradeCode::Asteroid, 2), m(TradeCode::NonIndustrial, 3)], [m(TradeCode::Industrial, 2), m(TradeCode::HighTechnology, 1)]),
        good(35, 51, "Robots and Drones", 500_000, q(1, 5), [m(TradeCode::HighTechnology, 3), m(TradeCode::Industrial, 2)], [m(TradeCode::NonIndustrial, 1), m(TradeCode::Rich, 2)]),
        good(36, 52, "Scientific Equipment", 50_000, q(1, 5), [m(TradeCode::HighTechnology, 3), m(TradeCode::Rich, 2)], [m(TradeCode::HighPopulation, 2), m(TradeCode::NonIndustrial, 1)]),
        good(37, 53, "Survival Gear", 4_000, q(2, 1), [m(TradeCode::Garden, 2), m(TradeCode::Rich, 2)], [m(TradeCode::FluidOceans, 2), m(TradeCode::Vacuum, 1)]),
        good(38, 54, "Textiles", 3_000, q(3, 5), [m(TradeCode::Agricultural, 3), m(TradeCode::NonIndustrial, 2)], [m(TradeCode::NonAgricultural, 1), m(TradeCode::Rich, 2)]),
        good(39, 55, "Construction Supplies", 20_000, q(2, 5), [m(TradeCode::Agricultural, 3), m(TradeCode::NonIndustrial, 2)], [m(TradeCode::Industrial, 2), m(TradeCode::NonAgricultural, 1)]),
        good(40, 56, "Raw Materials", 20_000, q(2, 5), [m(TradeCode::Asteroid, 2), m(TradeCode::Vacuum, 1)], [m(TradeCode::Industrial, 2), m(TradeCode::NonAgricultural, 1)]),
        good(41, 61, "Live Animals", 25_000, q(5, 5), [m(TradeCode::Agricultural, 3), m(TradeCode::Garden, 2)], [m(TradeCode::HighPopulation, 1), m(TradeCode::Industrial, 2)]),
        good(42, 62, "Children's Toys", 5_000, q(2, 5), [m(TradeCode::Industrial, 2), m(TradeCode::Rich, 2)], [m(TradeCode::HighPopulation, 2), m(TradeCode::NonIndustrial, 1)]),
        good(43, 63, "Medical Laboratory Equipment", 50_000, q(1, 5), [m(TradeCode::HighTechnology, 2), m(TradeCode::Rich, 3)], [m(TradeCode::Industrial, 2), m(TradeCode::NonAgricultural, 2)]),
        good(44, 64, "Military Supplies", 150_000, q(2, 1), [m(TradeCode::HighTechnology, 3), m(TradeCode::Industrial, 2)], [m(TradeCode::HighPopulation, 2), m(TradeCode::NonIndustrial, 2)]),
        good(45, 65, "Personal Weapons and Armor", 30_000, q(2, 1), [m(TradeCode::Industrial, 3), m(TradeCode::Rich, 2)], [m(TradeCode::NonIndustrial, 2), m(TradeCode::Poor, 2)]),
    ];
    assert(r@ =~= trade_goods_spec());
    r
}

/// The catalogued commodity with identifier `id`, if any.
pub open spec fn commodity_spec(id: u16) -> Option<CommodityDefinition> {
    find_by_id(catalog_spec(), id)
}

pub open spec fn find_by_id(s: Seq<CommodityDefinition>, id: u16) -> Option<CommodityDefinition>
    decreases s.len(),
{
    if s.len() == 0 {
        None
    } else if s[0].id == id {
        Some(s[0])
    } else {
        find_by_id(s.drop_first(), id)
    }
}

proof fn lemma_find_by_id_prefix(s: Seq<CommodityDefinition>, i: int, id: u16)
    requires
        0 <= i <= s.len(),
        forall|j: int| 0 <= j < i ==> s[j].id != id,
    ensures
        find_by_id(s, id) == find_by_id(s.skip(i), id),
    decreases i,
{
    if i > 0 {
        assert(s.skip(1) =~= s.drop_first());
        lemma_find_by_id_prefix(s.drop_first(), i - 1, id);
        assert(s.drop_first().skip(i - 1) =~= s.skip(i));
    } else {
        assert(s.skip(0) =~= s);
    }
}

proof fn lemma_u64_product(a: u64, b: u64)
    ensures
        a as int * b as int <= 0xffff_ffff_ffff_fffe_0000_0000_0000_0001,
{
    assert(a as int * b as int <= 0xffff_ffff_ffff_ffff * 0xffff_ffff_ffff_ffff) by (nonlinear_arith)
        requires
            a <= 0xffff_ffff_ffff_ffffu64,
            b <= 0xffff_ffff_ffff_ffffu64,
    ;
}

pub fn commodity(id: u16) -> (r: Option<CommodityDefinition>)
    ensures
        r == commodity_spec(id),
{
    let common = common_goods();
    let trade = trade_goods();
    let ghost all = catalog_spec();
    let mut i: usize = 0;
    while i < 6
        invariant
            i <= 6,
            common@ == common_goods_spec(),
            all == catalog_spec(),
            forall|j: int| 0 <= j < i ==> all[j].id != id,
        decreases 6 - i,
    {
        if common[i].id == id {
            proof {
                lemma_find_by_id_prefix(all, i as int, id);
            }
            return Some(common[i]);
        }
        i = i + 1;
    }
    let mut k: usize = 0;
    while k < 35
        invariant
            k <= 35,
            trade@ == trade_goods_spec(),
            common@ == common_goods_spec(),
            all == catalog_spec(),
            forall|j: int| 0 <= j < 6 + k ==> all[j].id != id,
        decreases 35 - k,
    {
        if trade[k].id == id {
            proof {
                lemma_find_by_id_prefix(all, 6 + k as int, id);
            }
            return Some(trade[k]);
        }
        k = k + 1;
    }
    proof {
        lemma_find_by_id_prefix(all, 41, id);
    }
    None
}

/// Returns one of the actual catalogued commodities by a dense zero-based
/// index. Commodity identifiers deliberately mirror the source table and are
/// therefore not a dense numeric range.
pub fn commodity_by_index(index: u64) -> (r: Option<CommodityDefinition>)
    ensures
        index < 41 ==> r == Some(catalog_spec()[index as int]),
        index >= 41 ==> r is None,
{
    if index < 6 {
        let common = common_goods();
        return Some(common[index as usize]);
    }
    if index < 41 {
        let trade = trade_goods();
        return Some(trade[(index - 6) as usize]);
    }
    None
}

#[derive(Clone, Copy, Debug, PartialEq, Eq)]
pub struct SupplierLot {
    pub commodity: CommodityDefinition,
    pub quantity_millitons: u64,
}

/// The trade codes of a world, in the fixed order of the code list.
pub open spec fn trade_codes_spec(w: World) -> Seq<TradeCode> {
    code_if(agricultural(w), TradeCode::Agricultural)
        + code_if(w.size == 0 && w.atmosphere == 0 && w.hydrographics == 0, TradeCode::Asteroid)
        + code_if(w.atmosphere >= 10 && w.hydrographics >= 1, TradeCode::FluidOceans)
        + code_if(
        6 <= w.size <= 8 && (w.atmosphere == 5 || w.atmosphere == 6 || w.atmosphere == 8) && 5
            <= w.hydrographics <= 7,
        TradeCode::Garden,
    ) + code_if(w.population >= 9, TradeCode::HighPopulation) + code_if(
        w.tech_level >= 12,
        TradeCode::HighTechnology,
    ) + code_if(w.atmosphere <= 1 && w.hydrographics >= 1, TradeCode::IceCapped) + code_if(
        industrial(w),
        TradeCode::Industrial,
    ) + code_if(
        w.atmosphere <= 3 && w.hydrographics <= 3 && w.population >= 6,
        TradeCode::NonAgricultural,
    ) + code_if(4 <= w.population <= 6, TradeCode::NonIndustrial) + code_if(
        2 <= w.atmosphere <= 5 && w.hydrographics <= 3,
        TradeCode::Poor,
    ) + code_if(
        (w.atmosphere == 6 || w.atmosphere == 8) && 6 <= w.population <= 8,
        TradeCode::Rich,
    ) + code_if(w.atmosphere == 0, TradeCode::Vacuum)
}

pub open spec fn code_if(present: bool, code: TradeCode) -> Seq<TradeCode> {
    if present {
        seq![code]
    } else {
        seq![]
    }
}

fn push_if(result: &mut Vec<TradeCode>, present: bool, code: TradeCode)
    ensures
        final(result)@ == old(result)@ + code_if(present, code),
{
    if present {
        result.push(code);
    }
    assert(final(result)@ =~= old(result)@ + code_if(present, code));
}

pub fn world_trade_codes(world: &World) -> (r: Vec<TradeCode>)
    ensures
        r@ == trade_codes_spec(*world),
{
    let w = world;
    let mut result: Vec<TradeCode> = Vec::new();
    push_if(&mut result, w.is_agricultural(), TradeCode::Agricultural);
    push_if(
        &mut result,
        w.size == 0 && w.atmosphere == 0 && w.hydrographics == 0,
        TradeCode::Asteroid,
    );
    push_if(&mut result, w.atmosphere >= 10 && w.hydrographics >= 1, TradeCode::FluidOceans);
    push_if(
        &mut result,
        6 <= w.size && w.size <= 8 && (w.atmosphere == 5 || w.atmosphere == 6 || w.atmosphere
            == 8) && 5 <= w.hydrographics && w.hydrographics <= 7,
        TradeCode::Garden,
    );
    push_if(&mut result, w.population >= 9, TradeCode::HighPopulation);
    push_if(&mut result, w.tech_level >= 12, TradeCode::HighTechnology);
    push_if(&mut result, w.atmosphere <= 1 && w.hydrographics >= 1, TradeCode::IceCapped);
    push_if(&mut result, w.is_industrial(), TradeCode::Industrial);
    push_if(
        &mut result,
        w.atmosphere <= 3 && w.hydrographics <= 3 && w.population >= 6,
        TradeCode::NonAgricultural,
    );
    push_if(&mut result, 4 <= w.population && w.population <= 6, TradeCode::NonIndustrial);
    push_if(&mut result, 2 <= w.atmosphere && w.atmosphere <= 5 && w.hydrographics <= 3, TradeCode::Poor);
    push_if(
        &mut result,
        (w.atmosphere == 6 || w.atmosphere == 8) && 6 <= w.population && w.population <= 8,
        TradeCode::Rich,
    );
    push_if(&mut result, w.atmosphere == 0, TradeCode::Vacuum);
    assert(result@ =~= trade_codes_spec(*world));
    result
}

fn contains_code(codes: &Vec<TradeCode>, code: TradeCode) -> (r: bool)
    ensures
        r == codes@.contains(code),
{
    let mut i: usize = 0;
    while i < codes.len()
        invariant
            i <= codes@.len(),
            forall|j: int| 0 <= j < i ==> codes@[j] != code,
        decreases codes@.len() - i,
    {
        if codes[i] == code {
            return true;
        }
        i = i + 1;
    }
    false
}

/// Whether a modifier counts against a world with the given trade codes.
pub open spec fn modifier_applies(m: TradeModifier, codes: Seq<TradeCode>) -> bool {
    m.dm != 0 && codes.contains(m.code)
}

/// The largest applicable modifier, or zero where none applies.
pub open spec fn strongest_modifier_spec(mods: [TradeModifier; 2], codes: Seq<TradeCode>) -> i8 {
    let a = mods@[0];
    let b = mods@[1];
    if modifier_applies(a, codes) && modifier_applies(b, codes) {
        if a.dm >= b.dm {
            a.dm
        } else {
            b.dm
        }
    } else if modifier_applies(a, codes) {
        a.dm
    } else if modifier_applies(b, codes) {
        b.dm
    } else {
        0
    }
}

fn strongest_modifier(modifiers: &[TradeModifier; 2], codes: &Vec<TradeCode>) -> (r: i8)
    ensures
        r == strongest_modifier_spec(*modifiers, codes@),
{
    let a = modifiers[0];
    let b = modifiers[1];
    let apply_a = a.dm != 0 && contains_code(codes, a.code);
    let apply_b = b.dm != 0 && contains_code(codes, b.code);
    if apply_a && apply_b {
        if a.dm >= b.dm {
            a.dm
        } else {
            b.dm
        }
    } else if apply_a {
        a.dm
    } else if apply_b {
        b.dm
    } else {
        0
    }
}

pub open spec fn purchase_percent_spec(effect: int) -> u64 {
    if effect >= 6 {
        80
    } else if effect >= 0 {
        90
    } else if effect >= -5 {
        100
    } else {
        120
    }
}

pub open spec fn sale_markup_percent_spec(effect: int) -> u64 {
    if effect >= 6 {
        30
    } else if effect >= 0 {
        15
    } else if effect >= -5 {
        2
    } else {
        0
    }
}

fn purchase_percent(effect: i16) -> (r: u64)
    ensures
        r == purchase_percent_spec(effect as int),
{
    if effect >= 6 {
        80
    } else if effect >= 0 {
        90
    } else if effect >= -5 {
        100
    } else {
        120
    }
}

fn sale_markup_percent(effect: i16) -> (r: u64)
    ensures
        r == sale_markup_percent_spec(effect as int),
{
    if effect >= 6 {
        30
    } else if effect >= 0 {
        15
    } else if effect >= -5 {
        2
    } else {
        0
    }
}

/// `percent` percent of `base`, the product saturating at `u64::MAX`.
pub open spec fn percentage_spec(base: u64, percent: u64) -> u64 {
    (sat_mul_spec(base, percent) / 100) as u64
}

fn percentage(base: u64, percent: u64) -> (r: u64)
    ensures
        r == percentage_spec(base, percent),
{
    sat_mul(base, percent) / 100
}

/// The purchase price per ton after negotiation and the strongest purchase
/// trade modifier.
pub open spec fn purchase_price_spec(item: CommodityDefinition, w: World, effect: int) -> u64 {
    percentage_spec(
        item.base_price_per_ton,
        purchase_percent_spec(
            effect + strongest_modifier_spec(item.purchase_modifiers, trade_codes_spec(w)),
        ),
    )
}

/// The sale price per ton after negotiation and the strongest sale trade
/// modifier.
pub open spec fn sale_price_spec(basis: u64, item: CommodityDefinition, w: World, effect: int) -> u64 {
    percentage_spec(
        basis,
        (100 + sale_markup_percent_spec(
            effect + strongest_modifier_spec(item.sale_modifiers, trade_codes_spec(w)),
        )) as u64,
    )
}

/// `percent` percent of `base`, the product first saturating at `u64::MAX`,
/// written out.
pub open spec fn share_of(base: u64, percent: int) -> int {
    (if base * percent > u64::MAX {
        u64::MAX as int
    } else {
        base * percent
    }) / 100
}

proof fn lemma_percentage_monotonic(base: u64, p: u64, q: u64)
    requires
        p <= q,
    ensures
        percentage_spec(base, p) <= percentage_spec(base, q),
{
    assert(base * p <= base * q) by (nonlinear_arith)
        requires
            p <= q,
    ;
    let a = sat_mul_spec(base, p);
    let b = sat_mul_spec(base, q);
    assert(a <= b);
    assert(a / 100 <= b / 100) by (nonlinear_arith)
        requires
            a <= b,
    ;
}

/// A better negotiation never raises the purchase price: the price per ton
/// is non-increasing in the negotiation effect.
pub proof fn lemma_purchase_price_falls_with_effect(item: CommodityDefinition, w: World, e1: int, e2: int)
    requires
        e1 <= e2,
    ensures
        purchase_price_spec(item, w, e2) <= purchase_price_spec(item, w, e1),
{
    let m = strongest_modifier_spec(item.purchase_modifiers, trade_codes_spec(w));
    lemma_percentage_monotonic(
        item.base_price_per_ton,
        purchase_percent_spec(e2 + m),
        purchase_percent_spec(e1 + m),
    );
}

/// The purchase price per ton by the effect after the strongest purchase
/// modifier: 80% of the base price from 6, 90% from 0 to 5, the full price
/// from -5 to -1, and 120% below; each share of a saturating product.
pub proof fn lemma_purchase_price_bands(item: CommodityDefinition, w: World, effect: int)
    ensures
        ({
            let e = effect + strongest_modifier_spec(item.purchase_modifiers, trade_codes_spec(w));
            let base = item.base_price_per_ton;
            let price = purchase_price_spec(item, w, effect) as int;
            &&& e >= 6 ==> price == share_of(base, 80)
            &&& 0 <= e <= 5 ==> price == share_of(base, 90)
            &&& -5 <= e <= -1 ==> price == share_of(base, 100)
            &&& e <= -6 ==> price == share_of(base, 120)
        }),
{
}

/// A better negotiation never lowers the sale price: the price per ton is
/// non-decreasing in the negotiation effect.
pub proof fn lemma_sale_price_rises_with_effect(basis: u64, item: CommodityDefinition, w: World, e1: int, e2: int)
    requires
        e1 <= e2,
    ensures
        sale_price_spec(basis, item, w, e1) <= sale_price_spec(basis, item, w, e2),
{
    let m = strongest_modifier_spec(item.sale_modifiers, trade_codes_spec(w));
    lemma_percentage_monotonic(
        basis,
        (100 + sale_markup_percent_spec(e1 + m)) as u64,
        (100 + sale_markup_percent_spec(e2 + m)) as u64,
    );
}

/// The sale price per ton by the effect after the strongest sale modifier:
/// 130% of the valuation basis from 6, 115% from 0 to 5, 102% from -5 to -1,
/// and the basis itself below; each share of a saturating product.
pub proof fn lemma_sale_price_bands(basis: u64, item: CommodityDefinition, w: World, effect: int)
    ensures
        ({
            let e = effect + strongest_modifier_spec(item.sale_modifiers, trade_codes_spec(w));
            let price = sale_price_spec(basis, item, w, effect) as int;
            &&& e >= 6 ==> price == share_of(basis, 130)
            &&& 0 <= e <= 5 ==> price == share_of(basis, 115)
            &&& -5 <= e <= -1 ==> price == share_of(basis, 102)
            &&& e <= -6 ==> price == share_of(basis, 100)
        }),
{
}

pub fn purchase_price_for_effect(
    item: CommodityDefinition,
    world: &World,
    negotiation_effect: i16,
) -> (r: u64)
    requires
        i16::MIN <= negotiation_effect + strongest_modifier_spec(
            item.purchase_modifiers,
            trade_codes_spec(*world),
        ) <= i16::MAX,
    ensures
        r == purchase_price_spec(item, *world, negotiation_effect as int),
{
    let codes = world_trade_codes(world);
    let effect = negotiation_effect + strongest_modifier(&item.purchase_modifiers, &codes) as i16;
    percentage(item.base_price_per_ton, purchase_percent(effect))
}

pub fn sale_price_for_effect(
    valuation_basis_per_ton: u64,
    item: CommodityDefinition,
    world: &World,
    negotiation_effect: i16,
) -> (r: u64)
    requires
        i16::MIN <= negotiation_effect + strongest_modifier_spec(
            item.sale_modifiers,
            trade_codes_spec(*world),
        ) <= i16::MAX,
    ensures
        r == sale_price_spec(valuation_basis_per_ton, item, *world, negotiation_effect as int),
{
    let codes = world_trade_codes(world);
    let effect = negotiation_effect + strongest_modifier(&item.sale_modifiers, &codes) as i16;
    percentage(valuation_basis_per_ton, 100 + sale_markup_percent(effect))
}

#[derive(Clone, Copy, Debug, PartialEq, Eq, Structural)]
pub enum Legality {
    Legal,
    Restricted,
    Prohibited,
}

/// The law level from which a controlled commodity is restricted; it is
/// prohibited three levels higher.
pub open spec fn legality_threshold(d66: u8) -> Option<u8> {
    if d66 == 64 {
        Some(3)
    } else if d66 == 65 {
        Some(2)
    } else if d66 == 34 {
        Some(5)
    } else if d66 == 25 {
        Some(6)
    } else if d66 == 43 {
        Some(8)
    } else if d66 == 22 {
        Some(9)
    } else if d66 == 61 {
        Some(7)
    } else {
        None
    }
}

pub open spec fn legality_spec(d66: u8, law_level: u8) -> Legality {
    match legality_threshold(d66) {
        None => Legality::Legal,
        Some(t) => if law_level >= t + 3 {
            Legality::Prohibited
        } else if law_level >= t {
            Legality::Restricted
        } else {
            Legality::Legal
        },
    }
}

pub fn commodity_legality(item: CommodityDefinition, world: &World) -> (r: Legality)
    ensures
        r == legality_spec(item.d66, world.law_level),
{
    let threshold: u8 = match item.d66 {
        64 => 3,
        65 => 2,
        34 => 5,
        25 => 6,
        43 => 8,
        22 => 9,
        61 => 7,
        _ => return Legality::Legal,
    };
    if world.law_level >= threshold + 3 {
        Legality::Prohibited
    } else if world.law_level >= threshold {
        Legality::Restricted
    } else {
        Legality::Legal
    }
}

pub fn starting_operating_reserve(cargo_capacity_millitons: u64) -> (r: u64)
    ensures
        r == sat_mul_spec(cargo_capacity_millitons, 20_000) / 1_000,
{
    sat_mul(cargo_capacity_millitons, STARTING_RESERVE_REFERENCE_PRICE_PER_TON) / MILLITONS_PER_TON
}

/// Buying rounds a fractional credit up, in the market's favour.
pub fn purchase_cost_credits(price_per_ton: u64, quantity_millitons: u64) -> (r: Option<u64>)
    ensures
        ({
            let credits = (price_per_ton * quantity_millitons + 999) / 1000;
            &&& credits <= u64::MAX ==> r == Some(credits as u64)
            &&& credits > u64::MAX ==> r is None
        }),
{
    proof {
        lemma_u64_product(price_per_ton, quantity_millitons);
    }
    let numerator = price_per_ton as u128 * quantity_millitons as u128;
    let credits = (numerator + 999) / 1000;
    if credits <= u64::MAX as u128 {
        Some(credits as u64)
    } else {
        None
    }
}

/// Selling rounds a fractional credit down, in the market's favour.
pub fn sale_proceeds_credits(price_per_ton: u64, quantity_millitons: u64) -> (r: Option<u64>)
    ensures
        ({
            let credits = (price_per_ton * quantity_millitons) / 1000;
            &&& credits <= u64::MAX ==> r == Some(credits as u64)
            &&& credits > u64::MAX ==> r is None
        }),
{
    proof {
        lemma_u64_product(price_per_ton, quantity_millitons);
    }
    let numerator = price_per_ton as u128 * quantity_millitons as u128;
    let credits = numerator / 1000;
    if credits <= u64::MAX as u128 {
        Some(credits as u64)
    } else {
        None
    }
}

/// Upper bound on the stream position at which a commerce search starts.
pub const SEARCH_COUNTER_LIMIT: u64 = 0x1_0000_0000;

/// The total of `dice` dice with `sides` faces, each drawn from consecutive
/// words of the stream starting at position `counter`.
pub open spec fn roll_total(key: Seq<u8>, counter: u64, dice: nat, sides: u8) -> nat
    decreases dice,
{
    if dice == 0 {
        0
    } else {
        roll_total(key, counter, (dice - 1) as nat, sides) + (stream_word(
            key,
            (counter + dice - 1) as u64,
        ) % (sides as u64)) as nat + 1
    }
}

proof fn lemma_roll_total_bound(key: Seq<u8>, counter: u64, dice: nat, sides: u8)
    requires
        sides > 0,
    ensures
        dice <= roll_total(key, counter, dice, sides) <= dice * sides,
    decreases dice,
{
    if dice > 0 {
        lemma_roll_total_bound(key, counter, (dice - 1) as nat, sides);
        assert((dice - 1) * sides + sides == dice * sides) by (nonlinear_arith);
    }
}

fn roll_dice(random: &mut SeedStream, dice: u8, sides: u8) -> (r: Result<u64, CryptoError>)
    requires
        sides > 0,
        old(random).counter() <= SEARCH_COUNTER_LIMIT + 0x10_0000,
    ensures
        final(random).key() == old(random).key(),
        final(random).counter() == old(random).counter() + dice,
        r is Ok,
        r matches Ok(total) ==> total == roll_total(
            old(random).key(),
            old(random).counter(),
            dice as nat,
            sides,
        ),
{
    let ghost key = random.key();
    let ghost start = random.counter();
    let mut total: u64 = 0;
    let mut i: u8 = 0;
    while i < dice
        invariant
            i <= dice,
            sides > 0,
            start <= SEARCH_COUNTER_LIMIT + 0x10_0000,
            random.key() == key,
            random.counter() == start + i,
            total == roll_total(key, start, i as nat, sides),
        decreases dice - i,
    {
        proof {
            lemma_roll_total_bound(key, start, i as nat, sides);
            assert(i as nat * sides as nat <= 255 * 255) by (nonlinear_arith)
                requires
                    i <= 255,
                    sides <= 255,
            ;
        }
        let word = match random.next_u64() {
            Ok(word) => word,
            Err(e) => return Err(e),
        };
        total = total + word % sides as u64 + 1;
        i = i + 1;
    }
    Ok(total)
}

/// Cargo tons of one quantity roll, in millitons.
pub open spec fn rolled_quantity(key: Seq<u8>, counter: u64, d: QuantityDice) -> nat {
    roll_total(key, counter, d.dice as nat, d.sides) * (d.multiplier_tons as nat) * 1000
}

/// The smallest lot the dice can produce, in millitons.
pub open spec fn minimum_quantity(d: QuantityDice) -> nat {
    (d.dice as nat) * (d.multiplier_tons as nat) * 1000
}

/// Repeated rolls until one fits under `maximum` (zero meaning no maximum);
/// after `attempts` failures the minimum lot is offered.  Returns the lot
/// and the next stream position.
pub open spec fn fit_attempts(
    key: Seq<u8>,
    counter: u64,
    d: QuantityDice,
    maximum: u64,
    attempts: nat,
) -> (Option<u64>, u64)
    decreases attempts,
{
    if attempts == 0 {
        (Some(minimum_quantity(d) as u64), counter)
    } else {
        let quantity = rolled_quantity(key, counter, d);
        let next = (counter + d.dice) as u64;
        if maximum == 0 || quantity <= maximum {
            (Some(quantity as u64), next)
        } else {
            fit_attempts(key, next, d, maximum, (attempts - 1) as nat)
        }
    }
}

/// A lot no larger than `maximum` (zero meaning no maximum), or none where
/// even the smallest possible lot is too large.
pub open spec fn fitting_spec(key: Seq<u8>, counter: u64, d: QuantityDice, maximum: u64) -> (
    Option<u64>,
    u64,
) {
    if maximum != 0 && maximum < minimum_quantity(d) {
        (None, counter)
    } else {
        fit_attempts(key, counter, d, maximum, 256)
    }
}

proof fn lemma_fit_attempts(key: Seq<u8>, counter: u64, d: QuantityDice, maximum: u64, attempts: nat)
    requires
        counter + attempts * 255 <= u64::MAX,
    ensures
        counter <= fit_attempts(key, counter, d, maximum, attempts).1 <= counter + attempts * 255,
    decreases attempts,
{
    if attempts > 0 {
        lemma_fit_attempts(key, (counter + d.dice) as u64, d, maximum, (attempts - 1) as nat);
    }
}

proof fn lemma_fitting_counter(key: Seq<u8>, counter: u64, d: QuantityDice, maximum: u64)
    requires
        counter <= u64::MAX - 65280,
    ensures
        counter <= fitting_spec(key, counter, d, maximum).1 <= counter + 65280,
{
    lemma_fit_attempts(key, counter, d, maximum, 256);
}

proof fn lemma_quantity_bound(key: Seq<u8>, counter: u64, d: QuantityDice)
    requires
        d.sides > 0,
    ensures
        rolled_quantity(key, counter, d) <= 255 * 255 * 65535 * 1000,
        minimum_quantity(d) <= rolled_quantity(key, counter, d),
{
    lemma_roll_total_bound(key, counter, d.dice as nat, d.sides);
    let t = roll_total(key, counter, d.dice as nat, d.sides);
    assert(t * d.multiplier_tons * 1000 <= 255 * 255 * 65535 * 1000) by (nonlinear_arith)
        requires
            t <= d.dice * d.sides,
            d.dice <= 255,
            d.sides <= 255,
            d.multiplier_tons <= 65535,
    ;
    assert(d.dice * d.multiplier_tons * 1000 <= t * d.multiplier_tons * 1000) by (nonlinear_arith)
        requires
            d.dice <= t,
    ;
}

fn roll_quantity(random: &mut SeedStream, dice: QuantityDice) -> (r: Result<u64, CryptoError>)
    requires
        dice.sides > 0,
        old(random).counter() <= SEARCH_COUNTER_LIMIT + 0x10_0000,
    ensures
        final(random).key() == old(random).key(),
        final(random).counter() == old(random).counter() + dice.dice,
        r is Ok,
        r matches Ok(tons) ==> tons * 1000 == rolled_quantity(
            old(random).key(),
            old(random).counter(),
            dice,
        ),
{
    let ghost key = random.key();
    let ghost start = random.counter();
    let total = match roll_dice(random, dice.dice, dice.sides) {
        Ok(total) => total,
        Err(e) => return Err(e),
    };
    proof {
        lemma_roll_total_bound(key, start, dice.dice as nat, dice.sides);
        assert(total * dice.multiplier_tons <= 255 * 255 * 65535) by (nonlinear_arith)
            requires
                total <= dice.dice * dice.sides,
                dice.dice <= 255,
                dice.sides <= 255,
                dice.multiplier_tons <= 65535,
        ;
    }
    Ok(total * dice.multiplier_tons as u64)
}

fn fitting_quantity(
    random: &mut SeedStream,
    dice: QuantityDice,
    maximum_quantity_millitons: u64,
) -> (r: Result<Option<u64>, CryptoError>)
    requires
        dice.sides > 0,
        old(random).counter() <= SEARCH_COUNTER_LIMIT,
    ensures
        final(random).key() == old(random).key(),
        r is Ok,
        r matches Ok(lot) ==> (lot, final(random).counter()) == fitting_spec(
            old(random).key(),
            old(random).counter(),
            dice,
            maximum_quantity_millitons,
        ),
{
    let ghost key = random.key();
    let ghost start = random.counter();
    proof {
        assert(dice.dice * dice.multiplier_tons * 1000 <= 255 * 65535 * 1000) by (nonlinear_arith)
            requires
                dice.dice <= 255,
                dice.multiplier_tons <= 65535,
        ;
    }
    let minimum = dice.dice as u64 * dice.multiplier_tons as u64 * MILLITONS_PER_TON;
    if maximum_quantity_millitons != 0 && maximum_quantity_millitons < minimum {
        return Ok(None);
    }
    let mut attempt: u32 = 0;
    while attempt < 256
        invariant
            attempt <= 256,
            dice.sides > 0,
            start <= SEARCH_COUNTER_LIMIT,
            key == old(random).key(),
            start == old(random).counter(),
            minimum == minimum_quantity(dice),
            random.key() == key,
            random.counter() == start + attempt * dice.dice,
            !(maximum_quantity_millitons != 0 && maximum_quantity_millitons < minimum),
            fitting_spec(key, start, dice, maximum_quantity_millitons) == fit_attempts(
                key,
                random.counter(),
                dice,
                maximum_quantity_millitons,
                (256 - attempt) as nat,
            ),
        decreases 256 - attempt,
    {
        proof {
            assert(attempt * dice.dice <= 256 * 255) by (nonlinear_arith)
                requires
                    attempt <= 256,
                    dice.dice <= 255,
            ;
            lemma_quantity_bound(key, random.counter(), dice);
        }
        let ghost here = random.counter();
        let tons = match roll_quantity(random, dice) {
            Ok(tons) => tons,
            Err(e) => return Err(e),
        };
        let quantity = tons * MILLITONS_PER_TON;
        if maximum_quantity_millitons == 0 || quantity <= maximum_quantity_millitons {
            return Ok(Some(quantity));
        }
        attempt = attempt + 1;
        proof {
            assert(random.counter() == start + attempt * dice.dice) by (nonlinear_arith)
                requires
                    random.counter() == here + dice.dice,
                    here == start + (attempt - 1) * dice.dice,
            ;
        }
    }
    Ok(Some(minimum))
}

pub const SUPPLIER_SEARCH_DOMAIN: [u8; 27] = [
    99, 111, 109, 109, 101, 114, 99, 101, 47, 115, 117, 112, 112, 108, 105, 101, 114, 45, 115, 101,
    97, 114, 99, 104, 47, 118, 49,
];

pub const PRIVATE_SUPPLIER_SEARCH_DOMAIN: [u8; 35] = [
    99, 111, 109, 109, 101, 114, 99, 101, 47, 112, 114, 105, 118, 97, 116, 101, 45, 115, 117, 112,
    112, 108, 105, 101, 114, 45, 115, 101, 97, 114, 99, 104, 47, 118, 49,
];

pub const BUYER_SEARCH_DOMAIN: [u8; 24] = [
    99, 111, 109, 109, 101, 114, 99, 101, 47, 98, 117, 121, 101, 114, 45, 115, 101, 97, 114, 99,
    104, 47, 118, 49,
];

/// The key of the stream that a search with this label domain and
/// assignment draws from.
pub open spec fn search_key(seed: Seq<u8>, domain: Seq<u8>, assignment_id: u64) -> Seq<u8> {
    derived_seed(seed, domain + be_bytes_spec(assignment_id))
}

fn search_stream(seed: [u8; 32], domain: &[u8], assignment_id: u64) -> (r: Result<SeedStream, CryptoError>)
    ensures
        r is Ok,
        r matches Ok(stream) ==> stream.key() == search_key(seed@, domain@, assignment_id)
            && stream.counter() == 0,
{
    let mut label: Vec<u8> = Vec::new();
    extend_bytes(&mut label, domain);
    push_be_bytes(&mut label, assignment_id);
    let key = match derive_seed(seed, label.as_slice()) {
        Ok(key) => key,
        Err(e) => return Err(e),
    };
    Ok(SeedStream::new(key))
}

/// Dice for the number of common lots, the size of each common lot, and the
/// number of trade-good lots offered at a starport.
pub open spec fn lot_dice(port: Starport) -> (u8, u8, u8) {
    match port {
        Starport::A => (6, 2, 4),
        Starport::B => (4, 1, 3),
        Starport::C => (2, 1, 2),
        _ => (1, 1, 1),
    }
}

/// The common lots offered by `n` draws starting at stream position
/// `counter`, with the next position.
pub open spec fn common_lots(key: Seq<u8>, counter: u64, n: nat, size_dice: u8, maximum: u64) -> (
    Seq<SupplierLot>,
    u64,
)
    decreases n,
{
    if n == 0 {
        (seq![], counter)
    } else {
        let (prior, here) = common_lots(key, counter, (n - 1) as nat, size_dice, maximum);
        let item = common_goods_spec()[(stream_word(key, here) % 6) as int];
        let (lot, next) = fitting_spec(
            key,
            (here + 1) as u64,
            QuantityDice { dice: size_dice, sides: 6, multiplier_tons: 10 },
            maximum,
        );
        (
            match lot {
                Some(quantity) => prior.push(SupplierLot { commodity: item, quantity_millitons: quantity }),
                None => prior,
            },
            next,
        )
    }
}

/// The trade-good lots offered by `n` draws starting at stream position
/// `counter`, with the next position.
pub open spec fn trade_lots(key: Seq<u8>, counter: u64, n: nat, maximum: u64) -> (
    Seq<SupplierLot>,
    u64,
)
    decreases n,
{
    if n == 0 {
        (seq![], counter)
    } else {
        let (prior, here) = trade_lots(key, counter, (n - 1) as nat, maximum);
        let item = trade_goods_spec()[(stream_word(key, here) % 35) as int];
        let (lot, next) = fitting_spec(key, (here + 1) as u64, item.quantity, maximum);
        (
            match lot {
                Some(quantity) => prior.push(SupplierLot { commodity: item, quantity_millitons: quantity }),
                None => prior,
            },
            next,
        )
    }
}

proof fn lemma_common_lots_counter(key: Seq<u8>, counter: u64, n: nat, size_dice: u8, maximum: u64)
    requires
        counter + n * 65281 <= SEARCH_COUNTER_LIMIT,
    ensures
        counter <= common_lots(key, counter, n, size_dice, maximum).1 <= counter + n * 65281,
    decreases n,
{
    if n > 0 {
        assert((n - 1) * 65281 + 65281 == n * 65281) by (nonlinear_arith);
        lemma_common_lots_counter(key, counter, (n - 1) as nat, size_dice, maximum);
        let here = common_lots(key, counter, (n - 1) as nat, size_dice, maximum).1;
        lemma_fitting_counter(
            key,
            (here + 1) as u64,
            QuantityDice { dice: size_dice, sides: 6, multiplier_tons: 10 },
            maximum,
        );
    }
}

proof fn lemma_trade_lots_counter(key: Seq<u8>, counter: u64, n: nat, maximum: u64)
    requires
        counter + n * 65281 <= SEARCH_COUNTER_LIMIT,
    ensures
        counter <= trade_lots(key, counter, n, maximum).1 <= counter + n * 65281,
    decreases n,
{
    if n > 0 {
        assert((n - 1) * 65281 + 65281 == n * 65281) by (nonlinear_arith);
        lemma_trade_lots_counter(key, counter, (n - 1) as nat, maximum);
        let here = trade_lots(key, counter, (n - 1) as nat, maximum).1;
        let item = trade_goods_spec()[(stream_word(key, here) % 35) as int];
        lemma_fitting_counter(key, (here + 1) as u64, item.quantity, maximum);
    }
}

/// Every catalogued trade good rolls six-sided dice.
proof fn lemma_trade_goods_six_sided(i: int)
    requires
        0 <= i < 35,
    ensures
        trade_goods_spec()[i].quantity.sides == 6,
{
}

/// The lots revealed by one supplier search.
pub open spec fn supplier_lots_spec(
    seed: Seq<u8>,
    assignment_id: u64,
    effect: int,
    maximum: u64,
    port: Starport,
) -> Seq<SupplierLot> {
    if effect <= -6 || port == Starport::X {
        seq![]
    } else {
        let key = search_key(seed, SUPPLIER_SEARCH_DOMAIN@, assignment_id);
        let (count_dice, size_dice, trade_dice) = lot_dice(port);
        let multiplier: nat = if effect >= 6 {
            2
        } else {
            1
        };
        let common_count = roll_total(key, 0, count_dice as nat, 6) * multiplier;
        let after_common_count = count_dice as u64;
        let trade_count = if effect < 0 {
            0
        } else {
            roll_total(key, after_common_count, trade_dice as nat, 6) * multiplier
        };
        let after_counts = if effect < 0 {
            after_common_count
        } else {
            (after_common_count + trade_dice) as u64
        };
        let (commons, after_commons) = common_lots(
            key,
            after_counts,
            common_count,
            size_dice,
            maximum,
        );
        let (trades, _) = trade_lots(key, after_commons, trade_count, maximum);
        commons + trades
    }
}

/// Materializes the individual lots revealed by one supplier search.  The
/// result follows the Bounded Fortune starport lot tables; an optional player
/// maximum causes the broker to keep canvassing within the same search until
/// each returned lot fits.
#[verifier::spinoff_prover]
#[verifier::rlimit(40)]
pub fn supplier_lots(
    system_seed: [u8; 32],
    assignment_id: u64,
    effect: i16,
    maximum_quantity_millitons: u64,
    world: &World,
) -> (r: Result<Vec<SupplierLot>, CryptoError>)
    ensures
        r is Ok,
        r matches Ok(lots) ==> lots@ == supplier_lots_spec(
            system_seed@,
            assignment_id,
            effect as int,
            maximum_quantity_millitons,
            world.starport,
        ),
{
    if effect <= -6 || world.starport == Starport::X {
        return Ok(Vec::new());
    }
    let domain: [u8; 27] = SUPPLIER_SEARCH_DOMAIN;
    let mut random = match search_stream(system_seed, domain.as_slice(), assignment_id) {
        Ok(random) => random,
        Err(e) => return Err(e),
    };
    let ghost key = random.key();
    let (common_count_dice, common_size_dice, trade_count_dice): (u8, u8, u8) = match world.starport {
        Starport::A => (6, 2, 4),
        Starport::B => (4, 1, 3),
        Starport::C => (2, 1, 2),
        _ => (1, 1, 1),
    };
    let multiplier: u64 = if effect >= 6 {
        2
    } else {
        1
    };
    let common_rolled = match roll_dice(&mut random, common_count_dice, 6) {
        Ok(total) => total,
        Err(e) => return Err(e),
    };
    proof {
        lemma_roll_total_bound(key, 0, common_count_dice as nat, 6);
    }
    let common_count = common_rolled * multiplier;
    let trade_count = if effect < 0 {
        0
    } else {
        let ghost here = random.counter();
        let rolled = match roll_dice(&mut random, trade_count_dice, 6) {
            Ok(total) => total,
            Err(e) => return Err(e),
        };
        proof {
            lemma_roll_total_bound(key, here, trade_count_dice as nat, 6);
        }
        rolled * multiplier
    };
    let ghost after_counts = random.counter();
    let common = common_goods();
    let trade = trade_goods();
    let mut lots: Vec<SupplierLot> = Vec::new();
    let mut i: u64 = 0;
    proof {
        assert(common_count * 65281 <= 72 * 65281) by (nonlinear_arith)
            requires
                common_count <= 72,
        ;
        assert(trade_count * 65281 <= 48 * 65281) by (nonlinear_arith)
            requires
                trade_count <= 48,
        ;
        lemma_common_lots_counter(key, after_counts, common_count as nat, common_size_dice, maximum_quantity_millitons);
    }
    while i < common_count
        invariant
            i <= common_count,
            common_count <= 72,
            trade_count <= 48,
            after_counts <= 10,
            common@ == common_goods_spec(),
            random.key() == key,
            (lots@, random.counter()) == common_lots(
                key,
                after_counts,
                i as nat,
                common_size_dice,
                maximum_quantity_millitons,
            ),
        decreases common_count - i,
    {
        proof {
            assert(i * 65281 <= 72 * 65281) by (nonlinear_arith)
                requires
                    i <= 72,
            ;
            lemma_common_lots_counter(key, after_counts, i as nat, common_size_dice, maximum_quantity_millitons);
        }
        let word = match random.next_u64() {
            Ok(word) => word,
            Err(e) => return Err(e),
        };
        let item = common[(word % 6) as usize];
        let quantity = match fitting_quantity(
            &mut random,
            QuantityDice { dice: common_size_dice, sides: 6, multiplier_tons: 10 },
            maximum_quantity_millitons,
        ) {
            Ok(quantity) => quantity,
            Err(e) => return Err(e),
        };
        if let Some(quantity_millitons) = quantity {
            lots.push(SupplierLot { commodity: item, quantity_millitons });
        }
        i = i + 1;
    }
    let ghost commons = lots@;
    let ghost after_commons = random.counter();
    proof {
        lemma_common_lots_counter(key, after_counts, common_count as nat, common_size_dice, maximum_quantity_millitons);
    }
    let mut k: u64 = 0;
    while k < trade_count
        invariant
            k <= trade_count,
            trade_count <= 48,
            after_commons <= 10 + 72 * 65281,
            trade@ == trade_goods_spec(),
            random.key() == key,
            ({
                let (trades, next) = trade_lots(key, after_commons, k as nat, maximum_quantity_millitons);
                lots@ == commons + trades && random.counter() == next
            }),
        decreases trade_count - k,
    {
        proof {
            assert(k * 65281 <= 48 * 65281) by (nonlinear_arith)
                requires
                    k <= 48,
            ;
            lemma_trade_lots_counter(key, after_commons, k as nat, maximum_quantity_millitons);
        }
        let ghost before = lots@;
        let word = match random.next_u64() {
            Ok(word) => word,
            Err(e) => return Err(e),
        };
        let index = (word % 35) as usize;
        proof {
            lemma_trade_goods_six_sided(index as int);
        }
        let item = trade[index];
        let quantity = match fitting_quantity(&mut random, item.quantity, maximum_quantity_millitons) {
            Ok(quantity) => quantity,
            Err(e) => return Err(e),
        };
        if let Some(quantity_millitons) = quantity {
            lots.push(SupplierLot { commodity: item, quantity_millitons });
        }
        k = k + 1;
        proof {
            let (trades, _) = trade_lots(key, after_commons, k as nat, maximum_quantity_millitons);
            assert(lots@ =~= commons + trades);
        }
    }
    Ok(lots)
}

/// The lot revealed by a private search for one named commodity.
pub open spec fn targeted_lot_spec(seed: Seq<u8>, assignment_id: u64, item: CommodityDefinition, maximum: u64) -> Option<SupplierLot> {
    let key = search_key(seed, PRIVATE_SUPPLIER_SEARCH_DOMAIN@, assignment_id);
    match fitting_spec(key, 0, item.quantity, maximum).0 {
        Some(quantity) => Some(SupplierLot { commodity: item, quantity_millitons: quantity }),
        None => None,
    }
}

pub fn targeted_supplier_lot(
    system_seed: [u8; 32],
    assignment_id: u64,
    item: CommodityDefinition,
    maximum_quantity_millitons: u64,
) -> (r: Result<Option<SupplierLot>, CryptoError>)
    requires
        item.quantity.sides > 0,
    ensures
        r is Ok,
        r matches Ok(lot) ==> lot == targeted_lot_spec(
            system_seed@,
            assignment_id,
            item,
            maximum_quantity_millitons,
        ),
{
    let domain: [u8; 35] = PRIVATE_SUPPLIER_SEARCH_DOMAIN;
    let mut random = match search_stream(system_seed, domain.as_slice(), assignment_id) {
        Ok(random) => random,
        Err(e) => return Err(e),
    };
    let quantity = match fitting_quantity(&mut random, item.quantity, maximum_quantity_millitons) {
        Ok(quantity) => quantity,
        Err(e) => return Err(e),
    };
    Ok(
        match quantity {
            Some(quantity_millitons) => Some(SupplierLot { commodity: item, quantity_millitons }),
            None => None,
        },
    )
}

/// The size of the lot a buyer takes: common goods by starport class,
/// trade goods by their own quantity dice; nobody buys at a class X port.
pub open spec fn buyer_lot_spec(
    seed: Seq<u8>,
    assignment_id: u64,
    item: CommodityDefinition,
    maximum: u64,
    port: Starport,
) -> Option<u64> {
    if item.common && port == Starport::X {
        None
    } else {
        let dice = if item.common {
            QuantityDice {
                dice: if port == Starport::A {
                    2
                } else {
                    1
                },
                sides: 6,
                multiplier_tons: 10,
            }
        } else {
            item.quantity
        };
        fitting_spec(search_key(seed, BUYER_SEARCH_DOMAIN@, assignment_id), 0, dice, maximum).0
    }
}

pub fn buyer_lot_quantity(
    system_seed: [u8; 32],
    assignment_id: u64,
    item: CommodityDefinition,
    maximum_quantity_millitons: u64,
    world: &World,
) -> (r: Result<Option<u64>, CryptoError>)
    requires
        item.quantity.sides > 0,
    ensures
        r is Ok,
        r matches Ok(quantity) ==> quantity == buyer_lot_spec(
            system_seed@,
            assignment_id,
            item,
            maximum_quantity_millitons,
            world.starport,
        ),
{
    let dice = if item.common {
        QuantityDice {
            dice: match world.starport {
                Starport::A => 2,
                Starport::B | Starport::C | Starport::D | Starport::E => 1,
                Starport::X => return Ok(None),
            },
            sides: 6,
            multiplier_tons: 10,
        }
    } else {
        item.quantity
    };
    let domain: [u8; 24] = BUYER_SEARCH_DOMAIN;
    let mut random = match search_stream(system_seed, domain.as_slice(), assignment_id) {
        Ok(random) => random,
        Err(e) => return Err(e),
    };
    fitting_quantity(&mut random, dice, maximum_quantity_millitons)
}

} // verus!
