//! Rules, generators, and state transitions of the Cepheus Trader server.

pub mod arith;
pub mod key_order;
pub mod text;

pub mod clock;
pub mod crypto;
pub mod i18n;
pub mod universe;
pub mod commerce;
pub mod task_resolution;
pub mod personnel;
pub mod mining;
pub mod navigation;
pub mod jump;
pub mod traffic;
pub mod wire;
pub mod creation;
pub mod ship_catalog;
pub mod ship_status;
pub mod starting_offers;
pub mod admin_wire;
pub mod atlas;
pub mod bbs_polity;
pub mod careers;
pub mod celestial;
pub mod combat;
pub mod combat_damage;
pub mod combat_round;
pub mod combat_tactics;
pub mod combat_catalog;
pub mod catalog_text;
pub mod combat_rules;
pub mod coverage;
pub mod person_names;
pub mod place_names;
