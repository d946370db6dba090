//! Kinds of bodies that supply frontier fuel.

use vstd::prelude::*;

verus! {

#[derive(Clone, Copy, Debug, PartialEq, Eq, Structural)]
pub enum FrontierFuelBodyKind {
    GasGiant,
    Planet,
    Moon,
    IcyBelt,
}

} // verus!
