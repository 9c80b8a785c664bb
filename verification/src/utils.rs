//! Small general-purpose helpers.

use vstd::prelude::*;

verus! {

/// Discards a value, for call sites that only care about an effect.
pub fn unit<A>(_val: A) {
}

} // verus!
