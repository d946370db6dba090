//! Cepheus Engine task-resolution modifiers.

use vstd::prelude::*;

verus! {

/// The Cepheus Engine characteristic dice modifier.
pub open spec fn characteristic_dm_spec(score: u8) -> i8 {
    if score == 0 {
        -3i8
    } else if score <= 2 {
        -2i8
    } else if score <= 5 {
        -1i8
    } else if score <= 8 {
        0
    } else if score <= 11 {
        1
    } else if score <= 14 {
        2
    } else {
        3
    }
}

pub fn characteristic_dm(score: u8) -> (r: i8)
    ensures
        r == characteristic_dm_spec(score),
        -3 <= r <= 3,
{
    if score == 0 {
        -3
    } else if score <= 2 {
        -2
    } else if score <= 5 {
        -1
    } else if score <= 8 {
        0
    } else if score <= 11 {
        1
    } else if score <= 14 {
        2
    } else {
        3
    }
}

} // verus!
