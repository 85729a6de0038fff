//! Headings quantised into equal angle bins.

use vstd::prelude::*;

verus! {

/// Number of heading bins in a full turn.
pub const NDIRNS: i32 = 1024;

/// Brings a bin number into `[0, NDIRNS)`, wrapping around a full turn.
pub fn normalize_dirn(d: i32) -> (r: i32)
    ensures
        0 <= r < NDIRNS,
        r as int == (d as int) % (NDIRNS as int),
{
    match d.checked_rem_euclid(NDIRNS) {
        Some(r) => r,
        None => 0,
    }
}

} // verus!
