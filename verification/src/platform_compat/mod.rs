//! Platform compatibility helpers.
pub mod path;

use vstd::prelude::*;

verus! {

/// The sum of two numbers.
pub fn add(left: u64, right: u64) -> (sum: u64)
    requires
        left + right <= u64::MAX,
    ensures
        sum == left + right,
{
    left + right
}

} // verus!
