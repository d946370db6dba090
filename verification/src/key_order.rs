//! The order of integer keys, as the standard ordered collections read it.

use vstd::prelude::*;

verus! {

/// `u64` keys compare as integers, so ordered sets of them behave as sets.
pub proof fn lemma_u64_keys_ordered()
    ensures
        vstd::laws_cmp::obeys_cmp::<u64>(),
{
    broadcast use vstd::laws_cmp::group_laws_cmp;

}

/// `u16` keys compare as integers, so ordered sets of them behave as sets.
pub proof fn lemma_u16_keys_ordered()
    ensures
        vstd::laws_cmp::obeys_cmp::<u16>(),
{
    broadcast use vstd::laws_cmp::group_laws_cmp;

}

} // verus!
