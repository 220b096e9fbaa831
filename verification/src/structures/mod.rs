//! The values that requests are made from and replies are read into.

use vstd::prelude::*;

pub mod search;

verus! {

/// A count or a position in a listing.
pub type Number = usize;

} // verus!
