//! Checks on what administrators send.

use vstd::prelude::*;
use vstd::string::StringSliceAdditionalSpecFns;

verus! {

/// A byte a backup label may hold: an ASCII letter or digit, `-` or `_`.
pub open spec fn label_byte(b: u8) -> bool {
    (48 <= b <= 57) || (65 <= b <= 90) || (97 <= b <= 122) || b == 45 || b == 95
}

/// A backup label: one to sixty-four bytes, each an ASCII letter or
/// digit, `-` or `_`.
pub open spec fn backup_label_ok(bytes: Seq<u8>) -> bool {
    &&& bytes.len() > 0
    &&& bytes.len() <= 64
    &&& forall|i: int| 0 <= i < bytes.len() ==> label_byte(#[trigger] bytes[i])
}

pub fn valid_backup_label(label: &str) -> (r: bool)
    ensures
        r == backup_label_ok(label.spec_bytes()),
{
    let bytes = label.as_bytes();
    if bytes.len() == 0 || bytes.len() > 64 {
        return false;
    }
    let mut i: usize = 0;
    while i < bytes.len()
        invariant
            i <= bytes@.len(),
            bytes@ == label.spec_bytes(),
            forall|j: int| 0 <= j < i ==> label_byte(#[trigger] bytes@[j]),
        decreases bytes@.len() - i,
    {
        let b = bytes[i];
        if !((48 <= b && b <= 57) || (65 <= b && b <= 90) || (97 <= b && b <= 122) || b == 45 || b == 95) {
            return false;
        }
        i = i + 1;
    }
    true
}

} // verus!
