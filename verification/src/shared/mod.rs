//! Data structures shared by every stage of the compiler.

use vstd::prelude::*;

pub mod bimap;
pub mod interner;
pub mod pool;
pub mod span;

verus! {

/// Serves as an index for many data structures throughout the compiler.
pub type Index = usize;

} // verus!
