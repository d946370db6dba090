//! The projected traffic contacts that career offers refer to.

use vstd::prelude::*;

verus! {

#[derive(Clone, Copy, Debug, PartialEq, Eq, Structural)]
pub enum TrafficMovementKind {
    Departure,
    Arrival,
}

#[derive(Clone, Copy, Debug, PartialEq, Eq, Structural)]
pub enum TrafficContactResolution {
    Identified,
}

#[derive(Clone, Copy, Debug, PartialEq, Eq, Structural)]
pub enum TrafficAttachment {
    Spaceborne,
}

/// A vessel projected into a system's traffic picture.
#[derive(Clone, Debug)]
pub struct TrafficContact {
    pub contact_id: u64,
    pub catalog_id: u32,
    pub class_name: String,
    pub ship_name: String,
    pub transponder: String,
    pub operator_name: String,
    pub role: String,
    pub displacement_millitons: u64,
    pub origin_system_id: u64,
    pub destination_system_id: u64,
    pub movement: TrafficMovementKind,
    pub edge_second: u64,
    pub resolution: TrafficContactResolution,
    pub confidence_percent: u8,
    pub player_owned: bool,
    pub online_controlled: bool,
    pub attachment: TrafficAttachment,
}

} // verus!
