//! What the backends share: where a value lives and which registers are free.

use vstd::prelude::*;

pub mod register;

use crate::shared::Index;

verus! {

/// Where a value lives while the program runs.
#[derive(Debug, Clone, Copy, PartialEq, Eq, Hash)]
pub enum Container {
    /// In the register with the given number.
    Register(Index),
    /// On the stack, at the given offset.
    Offset(isize),
}

} // verus!
