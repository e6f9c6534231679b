//! Small general-purpose helpers.

use vstd::prelude::*;

verus! {

/// Generic wrapper tuple struct for the newtype pattern.
pub struct W<T>(pub T);

} // verus!
